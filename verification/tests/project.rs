use license::project::{detect, ProjectFiles, ProjectInfo};

fn no_files() -> ProjectFiles {
    ProjectFiles {
        folder_name: "tmp-root".to_string(),
        cargo_toml: None,
        package_json: None,
        composer_json: None,
        pyproject_toml: None,
        pubspec_yaml: None,
        csproj: None,
        pom_xml: None,
        readme_md: None,
    }
}

#[test]
fn test_rust_detection() {
    let cargo_toml = r#"
            [package]
            name = "test-rust"
            description = "A rust test project"
            authors = ["Rust Author"]
        "#;
    let mut files = no_files();
    files.cargo_toml = Some(cargo_toml.to_string());

    let info = detect(&files);
    assert_eq!(info.name, "test-rust");
    assert_eq!(info.description, "A rust test project");
    assert_eq!(info.author, Some("Rust Author".to_string()));
}

#[test]
fn test_node_detection() {
    let package_json = r#"{
            "name": "test-node",
            "description": "A node test project",
            "author": "Node Author"
        }"#;
    let mut files = no_files();
    files.package_json = Some(package_json.to_string());

    let info = detect(&files);
    assert_eq!(info.name, "test-node");
    assert_eq!(info.description, "A node test project");
    assert_eq!(info.author, Some("Node Author".to_string()));
}

#[test]
fn test_python_poetry_detection() {
    let pyproject_toml = r#"
            [tool.poetry]
            name = "test-python"
            description = "A python test project"
            authors = ["Python Author"]
        "#;
    let mut files = no_files();
    files.pyproject_toml = Some(pyproject_toml.to_string());

    let info = detect(&files);
    assert_eq!(info.name, "test-python");
    assert_eq!(info.description, "A python test project");
    assert_eq!(info.author, Some("Python Author".to_string()));
}

#[test]
fn test_php_detection() {
    let composer_json = r#"{
            "name": "test-php",
            "description": "A php test project",
            "authors": [{"name": "PHP Author"}]
        }"#;
    let mut files = no_files();
    files.composer_json = Some(composer_json.to_string());

    let info = detect(&files);
    assert_eq!(info.name, "test-php");
    assert_eq!(info.description, "A php test project");
    assert_eq!(info.author, Some("PHP Author".to_string()));
}

#[test]
fn test_dart_detection() {
    let pubspec_yaml = "name: test-dart\ndescription: A dart test project\nauthor: Dart Author";
    let mut files = no_files();
    files.pubspec_yaml = Some(pubspec_yaml.to_string());

    let info = detect(&files);
    assert_eq!(info.name, "test-dart");
    assert_eq!(info.description, "A dart test project");
    assert_eq!(info.author, Some("Dart Author".to_string()));
}

#[test]
fn test_csharp_detection() {
    let csproj = r#"<Project Sdk="Microsoft.NET.Sdk">
            <PropertyGroup>
                <AssemblyName>test-csharp</AssemblyName>
                <Description>A csharp test project</Description>
                <Authors>CSharp Author</Authors>
            </PropertyGroup>
        </Project>"#;
    let mut files = no_files();
    files.csproj = Some(csproj.to_string());

    let info = detect(&files);
    assert_eq!(info.name, "test-csharp");
    assert_eq!(info.description, "A csharp test project");
    assert_eq!(info.author, Some("CSharp Author".to_string()));
}

#[test]
fn test_java_detection() {
    let pom_xml = r#"<project>
            <artifactId>test-java</artifactId>
            <description>A java test project</description>
        </project>"#;
    let mut files = no_files();
    files.pom_xml = Some(pom_xml.to_string());

    let info = detect(&files);
    assert_eq!(info.name, "test-java");
    assert_eq!(info.description, "A java test project");
}

#[test]
fn test_readme_fallback() {
    let readme = "# README Name\nThis is a description from README.";
    let mut files = no_files();
    files.readme_md = Some(readme.to_string());

    let info = detect(&files);
    assert_eq!(info.name, "README Name");
    assert_eq!(info.description, "This is a description from README.");
}

fn assert_info(info: &ProjectInfo, name: &str, description: &str, author: Option<&str>) {
    assert_eq!(info.name, name);
    assert_eq!(info.description, description);
    assert_eq!(info.author.as_deref(), author);
}

#[test]
fn detect_without_files_uses_folder_name() {
    let info = detect(&no_files());
    assert_info(&info, "tmp-root", "A new project.", None);

    let mut files = no_files();
    files.folder_name = get_folder_name("/", &None);
    let info = detect(&files);
    assert_info(&info, "project", "A new project.", None);
}

#[test]
fn detect_cargo_takes_precedence() {
    let mut files = no_files();
    files.cargo_toml = Some("[package]\nname = \"from-cargo\"\n".to_string());
    files.package_json = Some("{\"name\": \"from-node\"}".to_string());
    files.readme_md = Some("# From Readme\nText".to_string());
    let info = detect(&files);
    assert_info(&info, "from-cargo", "A new project.", None);
}

#[test]
fn detect_cargo_without_package_falls_through() {
    let mut files = no_files();
    files.cargo_toml = Some("[workspace]\nmembers = []\n".to_string());
    files.package_json = Some("{\"name\": \"from-node\", \"author\": {\"name\": \"Obj Author\"}}".to_string());
    let info = detect(&files);
    assert_info(&info, "from-node", "A new project.", Some("Obj Author"));
}

#[test]
fn detect_invalid_json_falls_through() {
    let mut files = no_files();
    files.package_json = Some("{ not json".to_string());
    files.pom_xml = Some("<artifactId>pom-name</artifactId><description>\n  Padded \n</description>".to_string());
    let info = detect(&files);
    assert_info(&info, "pom-name", "Padded", None);
}

#[test]
fn detect_pep621_project() {
    let mut files = no_files();
    files.pyproject_toml = Some(
        "[project]\nname = \"pep\"\ndescription = \"PEP 621\"\nauthors = [{ name = \"Ada\", email = \"a@b\" }]\n"
            .to_string(),
    );
    let info = detect(&files);
    assert_info(&info, "pep", "PEP 621", Some("Ada"));
}

#[test]
fn detect_pyproject_without_tables_falls_through() {
    let mut files = no_files();
    files.pyproject_toml = Some("[build-system]\nrequires = []\n".to_string());
    files.pubspec_yaml = Some("name: yaml-name\n".to_string());
    let info = detect(&files);
    assert_info(&info, "yaml-name", "A new project.", None);
}

#[test]
fn detect_csproj_partial_tags() {
    let mut files = no_files();
    files.csproj = Some("<Project><AssemblyName>only-name</AssemblyName><Description>unterminated".to_string());
    let info = detect(&files);
    assert_info(&info, "only-name", "A new project.", None);
}

#[test]
fn detect_readme_first_paragraph_and_last_heading() {
    let mut files = no_files();
    files.readme_md = Some(
        "\r\n## Sub heading\n  # First Name  \r\n\n  First line.\nSecond line.\n# Second Name\n".to_string(),
    );
    let info = detect(&files);
    assert_info(&info, "Second Name", "First line.\nSecond line.", None);
}

#[test]
fn detect_node_author_not_string_or_object() {
    let mut files = no_files();
    files.package_json = Some("{\"description\": \"d\", \"author\": 42}".to_string());
    let info = detect(&files);
    assert_info(&info, "tmp-root", "d", None);
}

use license::document::Node;
use license::project::{
    from_cargo_manifest, from_package_json, from_pyproject, get_folder_name, initial_info_of,
};

fn text(s: &str) -> Node {
    Node::Text(s.to_string())
}

fn table(entries: Vec<(&str, Node)>) -> Node {
    Node::Table(entries.into_iter().map(|(k, v)| (Some(k.to_string()), v)).collect())
}

#[test]
fn package_json_tree_author_object() {
    let base = initial_info_of(&"root".to_string());
    let doc = table(vec![
        ("name", text("pkg")),
        ("author", table(vec![("email", text("e")), ("name", text("Obj"))])),
        ("description", Node::Other),
    ]);
    let info = from_package_json(&base, &doc);
    assert_info(&info, "pkg", "A new project.", Some("Obj"));
}

#[test]
fn cargo_tree_needs_package_table() {
    let base = initial_info_of(&"project".to_string());
    assert!(from_cargo_manifest(&base, &table(vec![("name", text("x"))])).is_none());
    let doc = table(vec![(
        "package",
        table(vec![("authors", Node::List(vec![Node::Other, text("second")]))]),
    )]);
    let info = from_cargo_manifest(&base, &doc).unwrap();
    // the first author is not a string: no author
    assert_info(&info, "project", "A new project.", None);
}

#[test]
fn pyproject_tree_project_before_poetry() {
    let base = initial_info_of(&"project".to_string());
    let doc = table(vec![
        ("tool", table(vec![("poetry", table(vec![("name", text("poetry-name"))]))])),
        ("project", table(vec![("name", text("pep-name"))])),
    ]);
    let info = from_pyproject(&base, &doc).unwrap();
    assert_info(&info, "pep-name", "A new project.", None);
    // a key that is not a string never matches
    let doc = Node::Table(vec![(None, text("x"))]);
    assert!(from_pyproject(&base, &doc).is_none());
}

#[test]
fn folder_names() {
    assert_eq!(get_folder_name("/a/b", &None), "b");
    assert_eq!(get_folder_name(".", &Some("/x/proj".to_string())), "proj");
    assert_eq!(get_folder_name("./", &Some("/x/y".to_string())), "y");
    assert_eq!(get_folder_name(".", &None), "project");
    assert_eq!(get_folder_name("/", &None), "project");
    assert_eq!(get_folder_name("a/..", &None), "project");
}

#[test]
fn detect_readme_multi_line_paragraph() {
    let mut files = no_files();
    files.readme_md = Some("# Title\nLine one\nline two\n\nOther para".to_string());
    let info = detect(&files);
    assert_eq!(info.name, "Title");
    assert_eq!(info.description, "Line one\nline two");
    assert!(!info.description.contains("Other para"));
}

#[test]
fn detect_readme_paragraph_ends_at_heading() {
    let mut files = no_files();
    files.readme_md = Some("Intro  \r\n  more\n## Usage\nlater text\n".to_string());
    let info = detect(&files);
    assert_info(&info, "tmp-root", "Intro\nmore", None);
}
