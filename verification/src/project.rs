//! Detection of a project's name, description and author from the manifest
//! files found in its root directory.
use crate::document::{
    as_text, first, get, get_first, get_text, get_text_exec, json_document, node_get, node_text,
    opt_text, opt_text_exec, parse_json, parse_toml, parse_yaml, same_text, toml_document,
    yaml_document, Node,
};
use crate::paths::{file_name, final_component, paths_equal, same_path};
use crate::text::{
    bounds_hold, chars_of, find, find_from, find_from_exec, lemma_find_from, line_bounds, lines,
    occurs_at, starts_with, string_of_range, trim, trim_bounds,
};
use vstd::prelude::*;

verus! {

broadcast use vstd::string::group_string_axioms;

/// What is known of the project a license is added to.
pub struct ProjectInfo {
    pub name: String,
    pub description: String,
    pub author: Option<String>,
}

/// The contents of the files that detection reads from a project root; a
/// file that is absent or unreadable is `None`.
pub struct ProjectFiles {
    /// The name of the root directory (see `get_folder_name`).
    pub folder_name: String,
    pub cargo_toml: Option<String>,
    pub package_json: Option<String>,
    pub composer_json: Option<String>,
    pub pyproject_toml: Option<String>,
    pub pubspec_yaml: Option<String>,
    /// The first readable `*.csproj` file of the root.
    pub csproj: Option<String>,
    pub pom_xml: Option<String>,
    pub readme_md: Option<String>,
}

/// A project description as text.
pub struct InfoView {
    pub name: Seq<char>,
    pub description: Seq<char>,
    pub author: Option<Seq<char>>,
}

/// The project files as text.
pub struct FilesView {
    pub folder_name: Seq<char>,
    pub cargo_toml: Option<Seq<char>>,
    pub package_json: Option<Seq<char>>,
    pub composer_json: Option<Seq<char>>,
    pub pyproject_toml: Option<Seq<char>>,
    pub pubspec_yaml: Option<Seq<char>>,
    pub csproj: Option<Seq<char>>,
    pub pom_xml: Option<Seq<char>>,
    pub readme_md: Option<Seq<char>>,
}

/// The text of an optional string.
pub open spec fn opt_view(o: Option<String>) -> Option<Seq<char>> {
    match o {
        Some(s) => Some(s@),
        None => None,
    }
}

impl View for ProjectInfo {
    type V = InfoView;

    open spec fn view(&self) -> InfoView {
        InfoView { name: self.name@, description: self.description@, author: opt_view(self.author) }
    }
}

impl View for ProjectFiles {
    type V = FilesView;

    open spec fn view(&self) -> FilesView {
        FilesView {
            folder_name: self.folder_name@,
            cargo_toml: opt_view(self.cargo_toml),
            package_json: opt_view(self.package_json),
            composer_json: opt_view(self.composer_json),
            pyproject_toml: opt_view(self.pyproject_toml),
            pubspec_yaml: opt_view(self.pubspec_yaml),
            csproj: opt_view(self.csproj),
            pom_xml: opt_view(self.pom_xml),
            readme_md: opt_view(self.readme_md),
        }
    }
}

/// The view of an optional project description.
pub open spec fn opt_info(o: Option<ProjectInfo>) -> Option<InfoView> {
    match o {
        Some(i) => Some(i@),
        None => None,
    }
}

// ---------------------------------------------------------------------------
// What detection finds
// ---------------------------------------------------------------------------

/// The name a root directory gives a project: the final component of the
/// root (of the current directory `cwd` when the root is `.`), else
/// `"project"`.
pub open spec fn folder_name(root: Seq<char>, cwd: Option<Seq<char>>) -> Seq<char> {
    let dir = if same_path(root, "."@) {
        cwd
    } else {
        Some(root)
    };
    match dir {
        Some(d) => match final_component(d) {
            Some(n) => n,
            None => "project"@,
        },
        None => "project"@,
    }
}

/// The description every detection starts from: the folder's name, a
/// generic description and no author.
pub open spec fn initial_info(folder_name: Seq<char>) -> InfoView {
    InfoView { name: folder_name, description: "A new project."@, author: None }
}

/// `found` where there is one, else `old`.
pub open spec fn or_keep(found: Option<Seq<char>>, old: Seq<char>) -> Seq<char> {
    match found {
        Some(v) => v,
        None => old,
    }
}

/// An author found, else the author before.
pub open spec fn or_keep_author(found: Option<Seq<char>>, old: Option<Seq<char>>) -> Option<
    Seq<char>,
> {
    match found {
        Some(v) => Some(v),
        None => old,
    }
}

/// `info` with the name, description and author found in a manifest table.
pub open spec fn fill_from(info: InfoView, table: Node, author: Option<Seq<char>>) -> InfoView {
    InfoView {
        name: or_keep(get_text(table, "name"@), info.name),
        description: or_keep(get_text(table, "description"@), info.description),
        author: or_keep_author(author, info.author),
    }
}

/// `Cargo.toml`: the `[package]` table, authors from its first `authors`
/// string; nothing when there is no `package`.
pub open spec fn rust_info(info: InfoView, doc: Node) -> Option<InfoView> {
    match node_get(doc, "package"@) {
        Some(p) => Some(fill_from(info, p, opt_text(get_first(p, "authors"@)))),
        None => None,
    }
}

/// `package.json`: top-level fields; `author` is a string or an object with a
/// `name`.
pub open spec fn node_info(info: InfoView, doc: Node) -> InfoView {
    let author = match node_get(doc, "author"@) {
        Some(a) => match node_text(a) {
            Some(s) => Some(s),
            None => get_text(a, "name"@),
        },
        None => None,
    };
    fill_from(info, doc, author)
}

/// The `name` of the first element of the sequence under `key`.
pub open spec fn first_name(n: Node, key: Seq<char>) -> Option<Seq<char>> {
    match get_first(n, key) {
        Some(f) => get_text(f, "name"@),
        None => None,
    }
}

/// `composer.json`: top-level fields; the author is the `name` of the first
/// entry of `authors`.
pub open spec fn php_info(info: InfoView, doc: Node) -> InfoView {
    fill_from(info, doc, first_name(doc, "authors"@))
}

/// `pyproject.toml`: the `[project]` table (first author's `name`), else
/// the `[tool.poetry]` table (first `authors` string); nothing when neither
/// is there.
pub open spec fn python_info(info: InfoView, doc: Node) -> Option<InfoView> {
    match node_get(doc, "project"@) {
        Some(p) => Some(fill_from(info, p, first_name(p, "authors"@))),
        None => match node_get(doc, "tool"@) {
            Some(t) => match node_get(t, "poetry"@) {
                Some(p) => Some(fill_from(info, p, opt_text(get_first(p, "authors"@)))),
                None => None,
            },
            None => None,
        },
    }
}

/// `pubspec.yaml`: top-level `name`, `description` and `author`.
pub open spec fn dart_info(info: InfoView, doc: Node) -> InfoView {
    fill_from(info, doc, get_text(doc, "author"@))
}

/// The text between the first `open` marker of `content` and the first
/// `close` marker after it.
pub open spec fn tag_value(content: Seq<char>, open: Seq<char>, close: Seq<char>) -> Option<
    Seq<char>,
> {
    match find(content, open) {
        Some(s) => match find_from(content, close, s + open.len()) {
            Some(e) => Some(content.subrange(s + open.len(), e)),
            None => None,
        },
        None => None,
    }
}

/// A `*.csproj` file: `AssemblyName`, `Description` and `Authors` elements.
pub open spec fn csharp_info(info: InfoView, content: Seq<char>) -> InfoView {
    InfoView {
        name: or_keep(tag_value(content, "<AssemblyName>"@, "</AssemblyName>"@), info.name),
        description: or_keep(
            tag_value(content, "<Description>"@, "</Description>"@),
            info.description,
        ),
        author: or_keep_author(tag_value(content, "<Authors>"@, "</Authors>"@), info.author),
    }
}

/// `pom.xml`: the `artifactId` element and the trimmed `description`.
pub open spec fn java_info(info: InfoView, content: Seq<char>) -> InfoView {
    InfoView {
        name: or_keep(tag_value(content, "<artifactId>"@, "</artifactId>"@), info.name),
        description: match tag_value(content, "<description>"@, "</description>"@) {
            Some(d) => trim(d),
            None => info.description,
        },
        author: info.author,
    }
}

/// How far a README scan has got with the description: its first paragraph
/// is not reached yet, is being read, or is over.
#[derive(PartialEq, Eq, Structural, Clone, Copy)]
pub enum ReadmePhase {
    Before,
    Within,
    After,
}

/// A README line that belongs to a paragraph: not empty and not a heading.
pub open spec fn is_text_line(t: Seq<char>) -> bool {
    t.len() > 0 && t[0] != '#'
}

/// One line of a README, trimmed: a `# ` heading names the project; the
/// first paragraph (consecutive non-empty lines that are not headings)
/// describes it, its lines joined by line feeds, while the description is
/// still the generic one; an empty line or a heading ends the paragraph.
pub open spec fn readme_step(state: (InfoView, ReadmePhase), line: Seq<char>) -> (
    InfoView,
    ReadmePhase,
) {
    let info = state.0;
    let phase = state.1;
    let t = trim(line);
    let closed = if phase == ReadmePhase::Within {
        ReadmePhase::After
    } else {
        phase
    };
    if starts_with(t, seq!['#', ' ']) {
        (InfoView { name: t.skip(2), description: info.description, author: info.author }, closed)
    } else if is_text_line(t) {
        if phase == ReadmePhase::Before && info.description == "A new project."@ {
            (
                InfoView { name: info.name, description: t, author: info.author },
                ReadmePhase::Within,
            )
        } else if phase == ReadmePhase::Within {
            (
                InfoView {
                    name: info.name,
                    description: info.description + seq!['\n'] + t,
                    author: info.author,
                },
                ReadmePhase::Within,
            )
        } else {
            state
        }
    } else {
        (info, closed)
    }
}

/// The README lines `ls` read in order.
pub open spec fn readme_scan(state: (InfoView, ReadmePhase), ls: Seq<Seq<char>>) -> (
    InfoView,
    ReadmePhase,
)
    decreases ls.len(),
{
    if ls.len() == 0 {
        state
    } else {
        readme_scan(readme_step(state, ls[0]), ls.drop_first())
    }
}

/// `README.md`, the fallback: the last `# ` heading names the project, the
/// first paragraph describes it.
pub open spec fn readme_info(info: InfoView, content: Seq<char>) -> InfoView {
    readme_scan((info, ReadmePhase::Before), lines(content)).0
}

/// The Rust step: `Cargo.toml` is there, parses, and has a package.
pub open spec fn step_rust(info: InfoView, f: FilesView) -> Option<InfoView> {
    match f.cargo_toml {
        Some(t) => match toml_document(t) {
            Some(doc) => rust_info(info, doc),
            None => None,
        },
        None => None,
    }
}

/// The Node.js step: `package.json` is there and parses.
pub open spec fn step_node(info: InfoView, f: FilesView) -> Option<InfoView> {
    match f.package_json {
        Some(t) => match json_document(t) {
            Some(doc) => Some(node_info(info, doc)),
            None => None,
        },
        None => None,
    }
}

/// The PHP step: `composer.json` is there and parses.
pub open spec fn step_php(info: InfoView, f: FilesView) -> Option<InfoView> {
    match f.composer_json {
        Some(t) => match json_document(t) {
            Some(doc) => Some(php_info(info, doc)),
            None => None,
        },
        None => None,
    }
}

/// The Python step: `pyproject.toml` is there, parses, and has a project or
/// poetry table.
pub open spec fn step_python(info: InfoView, f: FilesView) -> Option<InfoView> {
    match f.pyproject_toml {
        Some(t) => match toml_document(t) {
            Some(doc) => python_info(info, doc),
            None => None,
        },
        None => None,
    }
}

/// The Dart step: `pubspec.yaml` is there and parses.
pub open spec fn step_dart(info: InfoView, f: FilesView) -> Option<InfoView> {
    match f.pubspec_yaml {
        Some(t) => match yaml_document(t) {
            Some(doc) => Some(dart_info(info, doc)),
            None => None,
        },
        None => None,
    }
}

/// The C# step: a `*.csproj` file is there.
pub open spec fn step_csharp(info: InfoView, f: FilesView) -> Option<InfoView> {
    match f.csproj {
        Some(c) => Some(csharp_info(info, c)),
        None => None,
    }
}

/// The Java step: `pom.xml` is there.
pub open spec fn step_java(info: InfoView, f: FilesView) -> Option<InfoView> {
    match f.pom_xml {
        Some(c) => Some(java_info(info, c)),
        None => None,
    }
}

/// What detection finds: the first step that applies, in the order Rust,
/// Node.js, PHP, Python, Dart, C#, Java; else what the README gives; else
/// the initial description.
pub open spec fn detected(f: FilesView) -> InfoView {
    let info = initial_info(f.folder_name);
    match step_rust(info, f) {
        Some(i) => i,
        None => match step_node(info, f) {
            Some(i) => i,
            None => match step_php(info, f) {
                Some(i) => i,
                None => match step_python(info, f) {
                    Some(i) => i,
                    None => match step_dart(info, f) {
                        Some(i) => i,
                        None => match step_csharp(info, f) {
                            Some(i) => i,
                            None => match step_java(info, f) {
                                Some(i) => i,
                                None => match f.readme_md {
                                    Some(c) => readme_info(info, c),
                                    None => info,
                                },
                            },
                        },
                    },
                },
            },
        },
    }
}

// ---------------------------------------------------------------------------
// Laws of detection
// ---------------------------------------------------------------------------

/// `composer.json`: the author is the `name` of the first entry of
/// `authors`, whatever the later entries hold.
pub proof fn law_composer_first_author(info: InfoView, doc: Node, items: Vec<Node>, n: Seq<char>)
    requires
        node_get(doc, "authors"@) == Some(Node::List(items)),
        items@.len() > 0,
        get_text(items@[0], "name"@) == Some(n),
    ensures
        php_info(info, doc).author == Some(n),
{
}

/// `composer.json` whose `authors` is missing, not a sequence, or empty, or
/// whose first author has no `name`: the author stays as it was. The
/// top-level `name` and `description` replace what was there.
pub proof fn law_composer_fields(info: InfoView, doc: Node)
    ensures
        (node_get(doc, "authors"@) is None || !(node_get(doc, "authors"@)->0 is List))
            ==> php_info(info, doc).author == info.author,
        (node_get(doc, "authors"@) is Some && node_get(doc, "authors"@)->0 is List && (
        node_get(doc, "authors"@)->0->List_0@.len() == 0 || get_text(
            node_get(doc, "authors"@)->0->List_0@[0],
            "name"@,
        ) is None)) ==> php_info(info, doc).author == info.author,
        get_text(doc, "name"@) is Some ==> php_info(info, doc).name == get_text(doc, "name"@)->0,
        get_text(doc, "name"@) is None ==> php_info(info, doc).name == info.name,
        get_text(doc, "description"@) is Some ==> php_info(info, doc).description == get_text(
            doc,
            "description"@,
        )->0,
        get_text(doc, "description"@) is None ==> php_info(info, doc).description
            == info.description,
{
}

/// `pyproject.toml` with a `[project]` table: the author is the `name` of
/// the first entry of its `authors`, whatever the later entries hold.
pub proof fn law_pyproject_first_author(
    info: InfoView,
    doc: Node,
    p: Node,
    items: Vec<Node>,
    n: Seq<char>,
)
    requires
        node_get(doc, "project"@) == Some(p),
        node_get(p, "authors"@) == Some(Node::List(items)),
        items@.len() > 0,
        get_text(items@[0], "name"@) == Some(n),
    ensures
        python_info(info, doc) is Some,
        python_info(info, doc)->0.author == Some(n),
{
}

/// `Cargo.toml` with a `[package]` table: the author is the first string of
/// its `authors`, whatever the later entries hold.
pub proof fn law_cargo_first_author(
    info: InfoView,
    doc: Node,
    p: Node,
    items: Vec<Node>,
    a: String,
)
    requires
        node_get(doc, "package"@) == Some(p),
        node_get(p, "authors"@) == Some(Node::List(items)),
        items@.len() > 0,
        items@[0] == Node::Text(a),
    ensures
        rust_info(info, doc) is Some,
        rust_info(info, doc)->0.author == Some(a@),
{
}

/// A root with no file to read is described by its folder's name, the
/// generic description and no author.
pub proof fn law_detect_nothing(f: FilesView)
    requires
        f.cargo_toml is None,
        f.package_json is None,
        f.composer_json is None,
        f.pyproject_toml is None,
        f.pubspec_yaml is None,
        f.csproj is None,
        f.pom_xml is None,
        f.readme_md is None,
    ensures
        detected(f) == initial_info(f.folder_name),
{
}

/// A `Cargo.toml` with a `[package]` decides, whatever else the root holds.
pub proof fn law_rust_first(f: FilesView)
    requires
        step_rust(initial_info(f.folder_name), f) is Some,
    ensures
        detected(f) == step_rust(initial_info(f.folder_name), f)->0,
{
}

/// The README is read only when no manifest applies.
pub proof fn law_readme_last(f: FilesView)
    requires
        f.readme_md is Some,
        step_rust(initial_info(f.folder_name), f) is None,
        step_node(initial_info(f.folder_name), f) is None,
        step_php(initial_info(f.folder_name), f) is None,
        step_python(initial_info(f.folder_name), f) is None,
        step_dart(initial_info(f.folder_name), f) is None,
        f.csproj is None,
        f.pom_xml is None,
    ensures
        detected(f) == readme_info(initial_info(f.folder_name), f.readme_md->0),
{
}

/// Reading a README never changes the author.
pub proof fn law_readme_has_no_author(state: (InfoView, ReadmePhase), ls: Seq<Seq<char>>)
    ensures
        readme_scan(state, ls).0.author == state.0.author,
    decreases ls.len(),
{
    if ls.len() > 0 {
        law_readme_has_no_author(readme_step(state, ls[0]), ls.drop_first());
    }
}

// ---------------------------------------------------------------------------
// Detection
// ---------------------------------------------------------------------------

/// A copy of an optional string.
fn copy_opt(o: &Option<String>) -> (r: Option<String>)
    ensures
        opt_view(r) == opt_view(*o),
{
    match o {
        Some(s) => Some(s.clone()),
        None => None,
    }
}

/// `found`, else a copy of `old`.
fn keep_or(found: Option<String>, old: &String) -> (r: String)
    ensures
        r@ == or_keep(opt_view(found), old@),
{
    match found {
        Some(v) => v,
        None => old.clone(),
    }
}

/// `found`, else a copy of `old`.
fn keep_or_author(found: Option<String>, old: &Option<String>) -> (r: Option<String>)
    ensures
        opt_view(r) == or_keep_author(opt_view(found), opt_view(*old)),
{
    match found {
        Some(v) => Some(v),
        None => copy_opt(old),
    }
}

fn fill_from_exec(info: &ProjectInfo, table: &Node, author: Option<String>) -> (r: ProjectInfo)
    ensures
        r@ == fill_from(info@, *table, opt_view(author)),
{
    let name = get_text_exec(table, "name");
    let description = get_text_exec(table, "description");
    ProjectInfo {
        name: keep_or(name, &info.name),
        description: keep_or(description, &info.description),
        author: keep_or_author(author, &info.author),
    }
}

fn first_text(n: &Node, key: &str) -> (r: Option<String>)
    ensures
        opt_view(r) == opt_text(get_first(*n, key@)),
{
    match get(n, key) {
        Some(v) => opt_text_exec(first(v)),
        None => None,
    }
}

fn first_name_exec(n: &Node, key: &str) -> (r: Option<String>)
    ensures
        opt_view(r) == first_name(*n, key@),
{
    match get(n, key) {
        Some(v) => match first(v) {
            Some(f) => get_text_exec(f, "name"),
            None => None,
        },
        None => None,
    }
}

/// The description a parsed `Cargo.toml` gives (`None` without `[package]`).
pub fn from_cargo_manifest(info: &ProjectInfo, doc: &Node) -> (r: Option<ProjectInfo>)
    ensures
        opt_info(r) == rust_info(info@, *doc),
{
    match get(doc, "package") {
        Some(p) => {
            let author = first_text(p, "authors");
            Some(fill_from_exec(info, p, author))
        },
        None => None,
    }
}

/// The description a parsed `package.json` gives.
pub fn from_package_json(info: &ProjectInfo, doc: &Node) -> (r: ProjectInfo)
    ensures
        r@ == node_info(info@, *doc),
{
    let author = match get(doc, "author") {
        Some(a) => match as_text(a) {
            Some(s) => Some(s.clone()),
            None => get_text_exec(a, "name"),
        },
        None => None,
    };
    fill_from_exec(info, doc, author)
}

/// The description a parsed `composer.json` gives.
pub fn from_composer_json(info: &ProjectInfo, doc: &Node) -> (r: ProjectInfo)
    ensures
        r@ == php_info(info@, *doc),
{
    let author = first_name_exec(doc, "authors");
    fill_from_exec(info, doc, author)
}

/// The description a parsed `pyproject.toml` gives (`None` without a
/// `[project]` or `[tool.poetry]` table).
pub fn from_pyproject(info: &ProjectInfo, doc: &Node) -> (r: Option<ProjectInfo>)
    ensures
        opt_info(r) == python_info(info@, *doc),
{
    match get(doc, "project") {
        Some(p) => {
            let author = first_name_exec(p, "authors");
            Some(fill_from_exec(info, p, author))
        },
        None => match get(doc, "tool") {
            Some(t) => match get(t, "poetry") {
                Some(p) => {
                    let author = first_text(p, "authors");
                    Some(fill_from_exec(info, p, author))
                },
                None => None,
            },
            None => None,
        },
    }
}

/// The description a parsed `pubspec.yaml` gives.
pub fn from_pubspec(info: &ProjectInfo, doc: &Node) -> (r: ProjectInfo)
    ensures
        r@ == dart_info(info@, *doc),
{
    let author = get_text_exec(doc, "author");
    fill_from_exec(info, doc, author)
}

/// The text between the first `open` marker and the next `close` marker.
fn tag_value_exec(content: &Vec<char>, open: &str, close: &str) -> (r: Option<String>)
    ensures
        opt_view(r) == tag_value(content@, open@, close@),
{
    let o = chars_of(open);
    let c = chars_of(close);
    match find_from_exec(content, &o, 0) {
        Some(s) => {
            proof {
                lemma_find_from(content@, o@, 0);
                assert(occurs_at(content@, o@, s as int));
                assert(s + o@.len() <= content.len());
            }
            let start = s + o.len();
            match find_from_exec(content, &c, start) {
                Some(e) => {
                    proof {
                        lemma_find_from(content@, c@, start as int);
                        assert(occurs_at(content@, c@, e as int));
                    }
                    Some(string_of_range(content, start, e))
                },
                None => None,
            }
        },
        None => None,
    }
}

/// The description a `*.csproj` file gives.
pub fn from_csproj(info: &ProjectInfo, content: &String) -> (r: ProjectInfo)
    ensures
        r@ == csharp_info(info@, content@),
{
    let cv = chars_of(content.as_str());
    let name = tag_value_exec(&cv, "<AssemblyName>", "</AssemblyName>");
    let description = tag_value_exec(&cv, "<Description>", "</Description>");
    let author = tag_value_exec(&cv, "<Authors>", "</Authors>");
    ProjectInfo {
        name: keep_or(name, &info.name),
        description: keep_or(description, &info.description),
        author: keep_or_author(author, &info.author),
    }
}

/// The description a `pom.xml` file gives.
pub fn from_pom(info: &ProjectInfo, content: &String) -> (r: ProjectInfo)
    ensures
        r@ == java_info(info@, content@),
{
    let cv = chars_of(content.as_str());
    let name = tag_value_exec(&cv, "<artifactId>", "</artifactId>");
    let description = match tag_value_exec(&cv, "<description>", "</description>") {
        Some(d) => {
            let dv = chars_of(d.as_str());
            let (a, b) = trim_bounds(&dv, 0, dv.len());
            assert(dv@.subrange(0, dv@.len() as int) =~= dv@);
            string_of_range(&dv, a, b)
        },
        None => info.description.clone(),
    };
    ProjectInfo {
        name: keep_or(name, &info.name),
        description,
        author: copy_opt(&info.author),
    }
}

/// The description a `README.md` gives.
pub fn from_readme(info: ProjectInfo, content: &String) -> (r: ProjectInfo)
    ensures
        r@ == readme_info(info@, content@),
{
    let cv = chars_of(content.as_str());
    let bounds = line_bounds(&cv);
    let ghost ls = lines(cv@);
    let mut cur = info;
    let mut phase = ReadmePhase::Before;
    let mut k: usize = 0;
    assert(ls.skip(0) =~= ls);
    while k < bounds.len()
        invariant
            bounds_hold(cv@, bounds@, ls),
            k <= bounds.len(),
            readme_scan((info@, ReadmePhase::Before), ls) == readme_scan(
                (cur@, phase),
                ls.skip(k as int),
            ),
        decreases bounds.len() - k,
    {
        let (a, b) = bounds[k];
        let (ta, tb) = trim_bounds(&cv, a, b);
        let ghost line = ls[k as int];
        let ghost t = trim(line);
        assert(bounds@[k as int] == (a, b));
        assert(cv@.subrange(ta as int, tb as int) == t);
        let heading = tb - ta >= 2 && cv[ta] == '#' && cv[ta + 1] == ' ';
        let text_line = tb > ta && cv[ta] != '#';
        proof {
            if tb - ta >= 2 {
                assert(t[0] == cv@[ta as int]);
                assert(t[1] == cv@[ta + 1]);
                if heading {
                    assert(t.subrange(0, 2) =~= seq!['#', ' ']);
                } else if starts_with(t, seq!['#', ' ']) {
                    assert(t.subrange(0, 2)[0] == t[0]);
                    assert(t.subrange(0, 2)[1] == t[1]);
                }
            }
            if tb > ta {
                assert(t[0] == cv@[ta as int]);
            }
            assert(text_line == is_text_line(t));
            assert(ls.skip(k as int).drop_first() =~= ls.skip(k + 1));
            assert(ls.skip(k as int)[0] == line);
        }
        let ghost before = (cur@, phase);
        let closed = match phase {
            ReadmePhase::Within => ReadmePhase::After,
            other => other,
        };
        if heading {
            assert(cv@.subrange(ta + 2, tb as int) =~= t.skip(2));
            cur = ProjectInfo {
                name: string_of_range(&cv, ta + 2, tb),
                description: cur.description,
                author: cur.author,
            };
            phase = closed;
        } else if text_line {
            match phase {
                ReadmePhase::Before => {
                    if same_text(&cur.description, "A new project.") {
                        cur = ProjectInfo {
                            name: cur.name,
                            description: string_of_range(&cv, ta, tb),
                            author: cur.author,
                        };
                        phase = ReadmePhase::Within;
                    }
                },
                ReadmePhase::Within => {
                    let piece = string_of_range(&cv, ta, tb);
                    proof {
                        reveal_strlit("\n");
                        assert("\n"@ =~= seq!['\n']);
                    }
                    let ghost d = cur.description@;
                    let joined = cur.description.concat("\n").concat(piece.as_str());
                    assert(joined@ =~= d + seq!['\n'] + t);
                    cur = ProjectInfo { name: cur.name, description: joined, author: cur.author };
                },
                ReadmePhase::After => {},
            }
        } else {
            phase = closed;
        }
        assert(readme_step(before, line) == (cur@, phase));
        k += 1;
    }
    assert(ls.skip(bounds.len() as int) =~= Seq::<Seq<char>>::empty());
    cur
}

/// The name a root directory gives a project, `cwd` being the current
/// directory (`None` when it is unknown).
pub fn get_folder_name(root: &str, cwd: &Option<String>) -> (r: String)
    ensures
        r@ == folder_name(root@, opt_view(*cwd)),
        r@.len() > 0,
{
    proof {
        reveal_strlit("project");
    }
    let dir = if paths_equal(root, ".") {
        match cwd {
            Some(c) => file_name(c.as_str()),
            None => None,
        }
    } else {
        file_name(root)
    };
    match dir {
        Some(n) => n,
        None => String::from_str("project"),
    }
}

/// The description every detection starts from.
pub fn initial_info_of(folder_name: &String) -> (r: ProjectInfo)
    ensures
        r@ == initial_info(folder_name@),
{
    ProjectInfo {
        name: folder_name.clone(),
        description: String::from_str("A new project."),
        author: None,
    }
}

/// Detects the project's name, description and author from the contents of
/// its root's files: the first manifest that applies, in the order
/// `Cargo.toml`, `package.json`, `composer.json`, `pyproject.toml`,
/// `pubspec.yaml`, `*.csproj`, `pom.xml`, then `README.md`.
pub fn detect(files: &ProjectFiles) -> (r: ProjectInfo)
    ensures
        r@ == detected(files@),
{
    let info = initial_info_of(&files.folder_name);
    if let Some(t) = &files.cargo_toml {
        if let Some(doc) = parse_toml(t.as_str()) {
            if let Some(i) = from_cargo_manifest(&info, &doc) {
                return i;
            }
        }
    }
    if let Some(t) = &files.package_json {
        if let Some(doc) = parse_json(t.as_str()) {
            return from_package_json(&info, &doc);
        }
    }
    if let Some(t) = &files.composer_json {
        if let Some(doc) = parse_json(t.as_str()) {
            return from_composer_json(&info, &doc);
        }
    }
    if let Some(t) = &files.pyproject_toml {
        if let Some(doc) = parse_toml(t.as_str()) {
            if let Some(i) = from_pyproject(&info, &doc) {
                return i;
            }
        }
    }
    if let Some(t) = &files.pubspec_yaml {
        if let Some(doc) = parse_yaml(t.as_str()) {
            return from_pubspec(&info, &doc);
        }
    }
    if let Some(c) = &files.csproj {
        return from_csproj(&info, c);
    }
    if let Some(c) = &files.pom_xml {
        return from_pom(&info, c);
    }
    if let Some(c) = &files.readme_md {
        return from_readme(info, c);
    }
    info
}

} // verus!
