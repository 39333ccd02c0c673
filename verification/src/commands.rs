//! The decisions behind the command-line commands: which license a request
//! names and whether it may be used, who the author is, how a template is
//! filled in, what a file is called, what a listing shows, what a preview
//! shows, and what a configuration request asks for.
use crate::config::{placeholder_author, ResolvedConfig, ResolvedView};
use crate::licenses::{
    text_lt, entry_full_name, entry_name, entry_osi, find_license, found_license, license_count,
    spdx_text, License,
};
use crate::project::opt_view;
use crate::text::{
    bounds_hold, chars_of, contains, contains_exec, join, lemma_replace_absent, line_bounds, lines,
    lowercase, replace_all, replace_all_exec, string_of, to_lowercase,
};
use vstd::prelude::*;

verus! {

broadcast use vstd::string::group_string_axioms;

// ---------------------------------------------------------------------------
// Choosing the license a request names
// ---------------------------------------------------------------------------

/// What a license identifier given on the command line refers to.
pub enum LicenseChoice {
    /// A custom template registered under that name, with its text.
    Custom(String),
    /// A license of the SPDX list.
    Spdx(License),
}

/// Why a license identifier cannot be used.
#[derive(Debug, PartialEq, Eq, Structural)]
pub enum ChoiceError {
    /// It names a custom template while only OSI-approved licenses are allowed.
    CustomNotAllowed,
    /// It names an SPDX license that is not OSI approved, while only those
    /// are allowed.
    NotOsiApproved,
    /// It names neither a custom template nor an SPDX license.
    NotFound,
}

/// The choice for identifier `id`, `custom` being the text of the custom
/// template of that name if there is one: a custom template comes first;
/// then the SPDX license `find_license` gives; the OSI filter refuses custom
/// templates and licenses that are not OSI approved.
pub open spec fn choice_is(
    r: Result<LicenseChoice, ChoiceError>,
    id: Seq<char>,
    custom: Option<Seq<char>>,
    osi_only: bool,
) -> bool {
    match custom {
        Some(t) => if osi_only {
            r == Err::<LicenseChoice, ChoiceError>(ChoiceError::CustomNotAllowed)
        } else {
            r matches Ok(LicenseChoice::Custom(c)) && c@ == t
        },
        None => match found_license(id) {
            Some(i) => if osi_only && !entry_osi(i) {
                r == Err::<LicenseChoice, ChoiceError>(ChoiceError::NotOsiApproved)
            } else {
                r matches Ok(LicenseChoice::Spdx(l)) && l@.index == i
            },
            None => r == Err::<LicenseChoice, ChoiceError>(ChoiceError::NotFound),
        },
    }
}

/// Decides what the identifier `id` refers to, given the text of the custom
/// template of that name (`None` when there is none) and whether only
/// OSI-approved licenses are allowed.
pub fn choose_license(id: &str, custom: Option<String>, osi_only: bool) -> (r: Result<
    LicenseChoice,
    ChoiceError,
>)
    ensures
        choice_is(r, id@, opt_view(custom), osi_only),
{
    match custom {
        Some(t) => {
            if osi_only {
                Err(ChoiceError::CustomNotAllowed)
            } else {
                Ok(LicenseChoice::Custom(t))
            }
        },
        None => match find_license(id) {
            Some(l) => {
                if osi_only && !l.is_osi_approved() {
                    Err(ChoiceError::NotOsiApproved)
                } else {
                    Ok(LicenseChoice::Spdx(l))
                }
            },
            None => Err(ChoiceError::NotFound),
        },
    }
}

/// The text of a chosen license and the name its file is labelled with: a
/// custom template's own text under the identifier asked for; an SPDX
/// license's text from spdx's table (as `LicenseId::text` gives it) under
/// its identifier.
pub fn license_body(choice: LicenseChoice, id: &str) -> (r: (String, String))
    ensures
        choice matches LicenseChoice::Custom(t) ==> r.0@ == t@ && r.1@ == id@,
        choice matches LicenseChoice::Spdx(l) ==> r.0@ == spdx_text(l@.index) && r.1@ == l@.name
            && r.1@ == entry_name(l@.index),
{
    match choice {
        LicenseChoice::Custom(t) => (t, String::from_str(id)),
        LicenseChoice::Spdx(l) => (String::from_str(l.text()), String::from_str(l.name())),
    }
}

/// Under the OSI filter, whatever is accepted is an OSI-approved SPDX
/// license.
pub proof fn law_osi_filter_admits_only_approved(
    r: Result<LicenseChoice, ChoiceError>,
    id: Seq<char>,
    custom: Option<Seq<char>>,
)
    requires
        choice_is(r, id, custom, true),
        r is Ok,
    ensures
        r matches Ok(LicenseChoice::Spdx(l)) && entry_osi(l@.index),
{
}

/// A custom template of the name asked for is preferred to an SPDX license;
/// without the OSI filter it is always accepted.
pub proof fn law_custom_template_first(
    r: Result<LicenseChoice, ChoiceError>,
    id: Seq<char>,
    custom: Seq<char>,
)
    requires
        choice_is(r, id, Some(custom), false),
    ensures
        r matches Ok(LicenseChoice::Custom(t)) && t@ == custom,
{
}

/// Whether only OSI-approved licenses are offered: the configuration asks
/// for it and the command line does not lift it.
pub fn osi_filter(configured: bool, ignore_flag: bool) -> (r: bool)
    ensures
        r == (configured && !ignore_flag),
{
    configured && !ignore_flag
}

// ---------------------------------------------------------------------------
// The author
// ---------------------------------------------------------------------------

/// The copyright holder written into a license: the name given on the
/// command line; else a configured author (with the e-mail in angle
/// brackets when one is set and not empty); else the project's author; else
/// the configured placeholder.
pub open spec fn chosen_author(
    given: Option<Seq<char>>,
    cfg: ResolvedView,
    project_author: Option<Seq<char>>,
) -> Seq<char> {
    match given {
        Some(n) => n,
        None => if cfg.author_name != placeholder_author() {
            match cfg.author_email {
                Some(e) => if e.len() > 0 {
                    cfg.author_name + " <"@ + e + ">"@
                } else {
                    cfg.author_name
                },
                None => cfg.author_name,
            }
        } else {
            match project_author {
                Some(a) => a,
                None => cfg.author_name,
            }
        },
    }
}

/// The author's priority: a name given on the command line wins; a
/// configured author beats the project's author; the project's author beats
/// the unconfigured placeholder.
pub proof fn law_author_priority(
    given: Option<Seq<char>>,
    cfg: ResolvedView,
    project_author: Option<Seq<char>>,
)
    ensures
        given matches Some(n) ==> chosen_author(given, cfg, project_author) == n,
        given is None && cfg.author_name != placeholder_author() && cfg.author_email is None
            ==> chosen_author(given, cfg, project_author) == cfg.author_name,
        given is None && cfg.author_name == placeholder_author() && project_author is Some
            ==> chosen_author(given, cfg, project_author) == project_author->0,
        given is None && cfg.author_name == placeholder_author() && project_author is None
            ==> chosen_author(given, cfg, project_author) == placeholder_author(),
{
}

/// A configured author (not the placeholder) is the holder when no name is
/// given, with its e-mail in angle brackets when that is set and not empty,
/// whatever the project's author is: the project's author never changes the
/// holder then.
pub proof fn law_configured_author(
    cfg: ResolvedView,
    project_author: Option<Seq<char>>,
    other_project_author: Option<Seq<char>>,
)
    requires
        cfg.author_name != placeholder_author(),
    ensures
        cfg.author_email matches Some(e) ==> (e.len() > 0 ==> chosen_author(None, cfg, project_author)
            == cfg.author_name + " <"@ + e + ">"@),
        (cfg.author_email is None || cfg.author_email == Some(Seq::<char>::empty())) ==> chosen_author(
            None,
            cfg,
            project_author,
        ) == cfg.author_name,
        chosen_author(None, cfg, project_author) == chosen_author(None, cfg, other_project_author),
{
}

/// Picks the copyright holder, in the priority of `chosen_author`.
pub fn choose_author(given: Option<String>, cfg: &ResolvedConfig, project_author: &Option<String>) -> (r: String)
    ensures
        r@ == chosen_author(opt_view(given), cfg@, opt_view(*project_author)),
{
    match given {
        Some(n) => n,
        None => {
            let placeholder = String::from_str("Your Name");
            if !cfg.author_name.eq(&placeholder) {
                match &cfg.author_email {
                    Some(e) => {
                        if e.as_str().is_empty() {
                            cfg.author_name.clone()
                        } else {
                            let r = cfg.author_name.clone().concat(" <").concat(e.as_str()).concat(
                                ">",
                            );
                            r
                        }
                    },
                    None => cfg.author_name.clone(),
                }
            } else {
                match project_author {
                    Some(a) => a.clone(),
                    None => cfg.author_name.clone(),
                }
            }
        },
    }
}

// ---------------------------------------------------------------------------
// Filling a template in
// ---------------------------------------------------------------------------

/// The year placeholders filled with `year`.
pub open spec fn fill_year(t: Seq<char>, year: Seq<char>) -> Seq<char> {
    let t = replace_all(t, "<year>"@, year);
    let t = replace_all(t, "[year]"@, year);
    let t = replace_all(t, "[yyyy]"@, year);
    replace_all(t, "{year}"@, year)
}

/// The copyright-holder placeholders filled with `author`.
pub open spec fn fill_owner(t: Seq<char>, author: Seq<char>) -> Seq<char> {
    let t = replace_all(t, "<copyright holders>"@, author);
    let t = replace_all(t, "[name of copyright owner]"@, author);
    let t = replace_all(t, "<name of copyright owner>"@, author);
    let t = replace_all(t, "<name of author>"@, author);
    let t = replace_all(t, "[fullname]"@, author);
    let t = replace_all(t, "[owner]"@, author);
    let t = replace_all(t, "{owner}"@, author);
    replace_all(t, "<owner>"@, author)
}

/// The program placeholders filled with the project's name and description.
pub open spec fn fill_program(t: Seq<char>, name: Seq<char>, description: Seq<char>) -> Seq<char> {
    let t = replace_all(t, "<program>"@, name);
    let t = replace_all(t, "[program]"@, name);
    replace_all(
        t,
        "<one line to give the program's name and a brief idea of what it does.>"@,
        description,
    )
}

/// A license text with its placeholders filled in: years first, then
/// copyright holders, then the program.
pub open spec fn filled(
    t: Seq<char>,
    year: Seq<char>,
    author: Seq<char>,
    name: Seq<char>,
    description: Seq<char>,
) -> Seq<char> {
    fill_program(fill_owner(fill_year(t, year), author), name, description)
}

/// `t` with every occurrence of `pattern` replaced by `value`.
fn replace_in(t: Vec<char>, pattern: &str, value: &Vec<char>) -> (r: Vec<char>)
    ensures
        r@ == replace_all(t@, pattern@, value@),
{
    let p = chars_of(pattern);
    replace_all_exec(&t, &p, value)
}

/// Fills the placeholders of a license text: the year, the copyright holder,
/// the program's name and its one-line description.
pub fn fill_template(text: &str, year: &str, author: &str, name: &str, description: &str) -> (r:
    String)
    ensures
        r@ == filled(text@, year@, author@, name@, description@),
{
    let y = chars_of(year);
    let a = chars_of(author);
    let n = chars_of(name);
    let d = chars_of(description);
    let t = chars_of(text);
    let t = replace_in(t, "<year>", &y);
    let t = replace_in(t, "[year]", &y);
    let t = replace_in(t, "[yyyy]", &y);
    let t = replace_in(t, "{year}", &y);
    let t = replace_in(t, "<copyright holders>", &a);
    let t = replace_in(t, "[name of copyright owner]", &a);
    let t = replace_in(t, "<name of copyright owner>", &a);
    let t = replace_in(t, "<name of author>", &a);
    let t = replace_in(t, "[fullname]", &a);
    let t = replace_in(t, "[owner]", &a);
    let t = replace_in(t, "{owner}", &a);
    let t = replace_in(t, "<owner>", &a);
    let t = replace_in(t, "<program>", &n);
    let t = replace_in(t, "[program]", &n);
    let t = replace_in(
        t,
        "<one line to give the program's name and a brief idea of what it does.>",
        &d,
    );
    string_of(&t)
}

/// The placeholders a license text may hold.
pub open spec fn placeholders() -> Seq<Seq<char>> {
    seq![
        "<year>"@,
        "[year]"@,
        "[yyyy]"@,
        "{year}"@,
        "<copyright holders>"@,
        "[name of copyright owner]"@,
        "<name of copyright owner>"@,
        "<name of author>"@,
        "[fullname]"@,
        "[owner]"@,
        "{owner}"@,
        "<owner>"@,
        "<program>"@,
        "[program]"@,
        "<one line to give the program's name and a brief idea of what it does.>"@,
    ]
}

/// A text that holds no placeholder is left as it is by filling.
pub proof fn law_fill_without_placeholders(
    t: Seq<char>,
    year: Seq<char>,
    author: Seq<char>,
    name: Seq<char>,
    description: Seq<char>,
)
    requires
        forall|k: int| 0 <= k < placeholders().len() ==> !contains(t, #[trigger] placeholders()[k]),
    ensures
        filled(t, year, author, name, description) == t,
{
    let ps = placeholders();
    assert(!contains(t, ps[0]));
    lemma_replace_absent(t, "<year>"@, year);
    assert(!contains(t, ps[1]));
    lemma_replace_absent(t, "[year]"@, year);
    assert(!contains(t, ps[2]));
    lemma_replace_absent(t, "[yyyy]"@, year);
    assert(!contains(t, ps[3]));
    lemma_replace_absent(t, "{year}"@, year);
    assert(!contains(t, ps[4]));
    lemma_replace_absent(t, "<copyright holders>"@, author);
    assert(!contains(t, ps[5]));
    lemma_replace_absent(t, "[name of copyright owner]"@, author);
    assert(!contains(t, ps[6]));
    lemma_replace_absent(t, "<name of copyright owner>"@, author);
    assert(!contains(t, ps[7]));
    lemma_replace_absent(t, "<name of author>"@, author);
    assert(!contains(t, ps[8]));
    lemma_replace_absent(t, "[fullname]"@, author);
    assert(!contains(t, ps[9]));
    lemma_replace_absent(t, "[owner]"@, author);
    assert(!contains(t, ps[10]));
    lemma_replace_absent(t, "{owner}"@, author);
    assert(!contains(t, ps[11]));
    lemma_replace_absent(t, "<owner>"@, author);
    assert(!contains(t, ps[12]));
    lemma_replace_absent(t, "<program>"@, name);
    assert(!contains(t, ps[13]));
    lemma_replace_absent(t, "[program]"@, name);
    assert(!contains(t, ps[14]));
    lemma_replace_absent(
        t,
        "<one line to give the program's name and a brief idea of what it does.>"@,
        description,
    );
}

/// The file a license is written to: `LICENSE` when one license is added,
/// else `LICENSE-<name>`.
pub fn license_filename(count: usize, name: &str) -> (r: String)
    ensures
        count == 1 ==> r@ == "LICENSE"@,
        count != 1 ==> r@ == "LICENSE-"@ + name@,
{
    if count == 1 {
        String::from_str("LICENSE")
    } else {
        String::from_str("LICENSE-").concat(name)
    }
}

/// Whether a license file may be written: it does not exist yet, or
/// overwriting was asked for.
pub fn may_write(present: bool, force: bool) -> (r: bool)
    ensures
        r == (!present || force),
{
    !present || force
}

// ---------------------------------------------------------------------------
// Previews
// ---------------------------------------------------------------------------

/// The number of lines a preview shows.
pub open spec fn preview_lines() -> nat {
    15
}

/// The first lines of `t`, joined by line feeds.
pub open spec fn preview_of(t: Seq<char>) -> Seq<char> {
    let ls = lines(t);
    let shown = if ls.len() < preview_lines() {
        ls.len()
    } else {
        preview_lines()
    };
    join(ls.take(shown as int), seq!['\n'])
}

/// The first fifteen lines of a license text, joined by line feeds, and
/// whether the text has more lines than that.
pub fn preview(text: &str) -> (r: (String, bool))
    ensures
        r.0@ == preview_of(text@),
        r.1 == (lines(text@).len() > preview_lines()),
{
    let cv = chars_of(text);
    let bounds = line_bounds(&cv);
    let ghost ls = lines(cv@);
    let count = if bounds.len() < 15 {
        bounds.len()
    } else {
        15
    };
    let mut out: Vec<char> = Vec::new();
    let mut k: usize = 0;
    while k < count
        invariant
            bounds_hold(cv@, bounds@, ls),
            count <= bounds.len(),
            k <= count,
            out@ == join(ls.take(k as int), seq!['\n']),
        decreases count - k,
    {
        let (a, b) = bounds[k];
        assert(bounds@[k as int] == (a, b));
        let ghost before = out@;
        if k > 0 {
            out.push('\n');
        }
        let mut m = a;
        while m < b
            invariant
                a <= m <= b <= cv.len(),
                k > 0 ==> out@ == before + seq!['\n'] + cv@.subrange(a as int, m as int),
                k == 0 ==> out@ == before + cv@.subrange(a as int, m as int),
            decreases b - m,
        {
            out.push(cv[m]);
            proof {
                if k > 0 {
                    assert(before + seq!['\n'] + cv@.subrange(a as int, m + 1) =~= before + seq![
                        '\n',
                    ] + cv@.subrange(a as int, m as int) + seq![cv@[m as int]]);
                } else {
                    assert(before + cv@.subrange(a as int, m + 1) =~= before + cv@.subrange(
                        a as int,
                        m as int,
                    ) + seq![cv@[m as int]]);
                }
            }
            m += 1;
        }
        proof {
            let t = ls.take(k + 1);
            assert(t.drop_last() =~= ls.take(k as int));
            assert(t.last() == ls[k as int]);
            if k == 0 {
                assert(before =~= Seq::<char>::empty());
                assert(out@ =~= ls[0]);
                assert(t.len() == 1);
            }
        }
        k += 1;
    }
    (string_of(&out), bounds.len() > 15)
}

// ---------------------------------------------------------------------------
// Listings
// ---------------------------------------------------------------------------

/// Whether `text` answers the lowercased query `q` (no query answers
/// everything): `q` occurs in its lowercase form.
pub open spec fn answers(text: Seq<char>, q: Option<Seq<char>>) -> bool {
    match q {
        Some(q) => contains(lowercase(text), q),
        None => true,
    }
}

/// The lowercase form of an optional query.
pub open spec fn lowered(query: Option<Seq<char>>) -> Option<Seq<char>> {
    match query {
        Some(q) => Some(lowercase(q)),
        None => None,
    }
}

/// Whether the license that `find_license` gives for `name` is OSI approved
/// (no license: not approved).
pub open spec fn approved_by_lookup(name: Seq<char>) -> bool {
    match found_license(name) {
        Some(i) => entry_osi(i),
        None => false,
    }
}

/// Whether the license at `i` is listed for query `q` (already lowercased).
pub open spec fn listed_at(i: int, q: Option<Seq<char>>, osi_only: bool) -> bool {
    &&& (!osi_only || approved_by_lookup(entry_name(i)))
    &&& (answers(entry_name(i), q) || answers(entry_full_name(i), q))
}

/// The identifiers and full names of the licenses among the first `k` of the
/// list that are listed, in list order.
pub open spec fn listed_upto(k: int, q: Option<Seq<char>>, osi_only: bool) -> Seq<
    (Seq<char>, Seq<char>),
>
    decreases k,
{
    if k <= 0 {
        seq![]
    } else if listed_at(k - 1, q, osi_only) {
        listed_upto(k - 1, q, osi_only).push((entry_name(k - 1), entry_full_name(k - 1)))
    } else {
        listed_upto(k - 1, q, osi_only)
    }
}

/// The SPDX part of a listing: identifier and full name of each license
/// (the list is in identifier order) that passes the OSI filter and answers
/// the query.
pub open spec fn spdx_listing(query: Option<Seq<char>>, osi_only: bool) -> Seq<
    (Seq<char>, Seq<char>),
> {
    listed_upto(license_count(), lowered(query), osi_only)
}

/// Under the OSI filter, every SPDX license listed is OSI approved (as
/// looked up by its identifier), and no custom template is listed.
pub proof fn law_osi_listing(query: Option<Seq<char>>, names: Seq<Seq<char>>)
    ensures
        forall|k: int|
            0 <= k < spdx_listing(query, true).len() ==> approved_by_lookup(
                #[trigger] spdx_listing(query, true)[k].0,
            ),
        custom_listing(names, query, true).len() == 0,
{
    lemma_listed_approved(license_count(), lowered(query));
}

proof fn lemma_listed_approved(n: int, q: Option<Seq<char>>)
    ensures
        forall|k: int|
            0 <= k < listed_upto(n, q, true).len() ==> approved_by_lookup(
                #[trigger] listed_upto(n, q, true)[k].0,
            ),
    decreases n,
{
    if n > 0 {
        lemma_listed_approved(n - 1, q);
        let prev = listed_upto(n - 1, q, true);
        if listed_at(n - 1, q, true) {
            assert forall|k: int|
                0 <= k < listed_upto(n, q, true).len() implies approved_by_lookup(
                #[trigger] listed_upto(n, q, true)[k].0,
            ) by {
                if k < prev.len() {
                    assert(listed_upto(n, q, true)[k] == prev[k]);
                }
            }
        }
    }
}

proof fn lemma_listed_upto_complete(n: int, q: Option<Seq<char>>, o: bool, i: int)
    requires
        0 <= i < n,
        listed_at(i, q, o),
    ensures
        listed_upto(n, q, o).contains((entry_name(i), entry_full_name(i))),
    decreases n,
{
    let prev = listed_upto(n - 1, q, o);
    if i == n - 1 {
        assert(listed_upto(n, q, o)[prev.len() as int] == (entry_name(i), entry_full_name(i)));
    } else {
        lemma_listed_upto_complete(n - 1, q, o, i);
        let k = choose|k: int| 0 <= k < prev.len() && prev[k] == (entry_name(i), entry_full_name(i));
        if listed_at(n - 1, q, o) {
            assert(listed_upto(n, q, o)[k] == prev[k]);
        }
    }
}

proof fn lemma_listed_upto_sound(n: int, q: Option<Seq<char>>, o: bool, k: int)
    requires
        0 <= k < listed_upto(n, q, o).len(),
    ensures
        exists|i: int|
            0 <= i < n && listed_at(i, q, o) && listed_upto(n, q, o)[k] == (
            #[trigger] entry_name(i),
            entry_full_name(i),
        ),
    decreases n,
{
    if n > 0 {
        let prev = listed_upto(n - 1, q, o);
        if listed_at(n - 1, q, o) && k == prev.len() {
            assert(listed_upto(n, q, o)[k] == (entry_name(n - 1), entry_full_name(n - 1)));
        } else {
            if listed_at(n - 1, q, o) {
                assert(listed_upto(n, q, o)[k] == prev[k]);
            }
            lemma_listed_upto_sound(n - 1, q, o, k);
        }
    }
}

/// Every SPDX license is listed when it passes the OSI filter (the license
/// found for its identifier is OSI approved) and the query, lowercased,
/// occurs in its lowercased identifier or full name; with no query every
/// license that passes the filter is listed.
pub proof fn law_listing_complete(query: Option<Seq<char>>, osi_only: bool, i: int)
    requires
        0 <= i < license_count(),
        !osi_only || (found_license(entry_name(i)) is Some && entry_osi(
            found_license(entry_name(i))->0,
        )),
        query is None || contains(lowercase(entry_name(i)), lowercase(query->0)) || contains(
            lowercase(entry_full_name(i)),
            lowercase(query->0),
        ),
    ensures
        spdx_listing(query, osi_only).contains((entry_name(i), entry_full_name(i))),
{
    lemma_listed_upto_complete(license_count(), lowered(query), osi_only, i);
}

/// Every entry of the SPDX listing is the identifier and full name of a
/// license of the list that passes the OSI filter and whose lowercased
/// identifier or full name holds the lowercased query.
pub proof fn law_listing_sound(query: Option<Seq<char>>, osi_only: bool, k: int)
    requires
        0 <= k < spdx_listing(query, osi_only).len(),
    ensures
        exists|i: int|
            0 <= i < license_count() && spdx_listing(query, osi_only)[k] == (
            #[trigger] entry_name(i),
            entry_full_name(i),
        ) && (!osi_only || (found_license(entry_name(i)) is Some && entry_osi(
            found_license(entry_name(i))->0,
        ))) && (query is None || contains(lowercase(entry_name(i)), lowercase(query->0))
            || contains(lowercase(entry_full_name(i)), lowercase(query->0))),
{
    lemma_listed_upto_sound(license_count(), lowered(query), osi_only, k);
}

/// Every custom template whose lowercased name holds the lowercased query
/// is listed when the OSI filter is off, and only names given are listed.
pub proof fn law_custom_listing(names: Seq<Seq<char>>, query: Option<Seq<char>>, k: int, n: Seq<char>)
    ensures
        0 <= k < names.len() && (query is None || contains(lowercase(names[k]), lowercase(query->0)))
            ==> custom_listing(names, query, false).contains(names[k]),
        custom_listing(names, query, false).contains(n) ==> names.contains(n),
{
    let pred = |m: Seq<char>| answers(m, lowered(query));
    if 0 <= k < names.len() && (query is None || contains(lowercase(names[k]), lowercase(query->0))) {
        names.lemma_filter_contains(pred, k);
    }
    if custom_listing(names, query, false).contains(n) {
        names.lemma_filter_contains_rev(pred, n);
    }
}

/// The text of each pair of strings.
pub open spec fn pairs_view(v: Seq<(String, String)>) -> Seq<(Seq<char>, Seq<char>)> {
    v.map_values(|p: (String, String)| (p.0@, p.1@))
}

/// Whether `text` answers the lowercased query `q`.
fn answers_exec(text: &str, q: &Option<Vec<char>>) -> (r: bool)
    ensures
        r == answers(
            text@,
            match q {
                Some(v) => Some(v@),
                None => None,
            },
        ),
{
    match q {
        Some(qv) => {
            let lower = to_lowercase(text);
            let lv = chars_of(lower.as_str());
            contains_exec(&lv, qv)
        },
        None => true,
    }
}

/// The lowercase characters of an optional query.
fn lowered_exec(query: &Option<String>) -> (r: Option<Vec<char>>)
    ensures
        match r {
            Some(v) => lowered(opt_view(*query)) == Some(v@),
            None => lowered(opt_view(*query)) is None,
        },
{
    match query {
        Some(q) => {
            let l = to_lowercase(q.as_str());
            Some(chars_of(l.as_str()))
        },
        None => None,
    }
}

/// Identifier and full name of each SPDX license to list for `query`, in
/// identifier order, keeping only OSI-approved ones when `osi_only`.
pub fn list_licenses(query: &Option<String>, osi_only: bool) -> (r: Vec<(String, String)>)
    ensures
        pairs_view(r@) == spdx_listing(opt_view(*query), osi_only),
        forall|a: int, b: int| 0 <= a < b < r.len() ==> text_lt(r[a].0@, r[b].0@),
{
    let q = lowered_exec(query);
    let ghost qv = lowered(opt_view(*query));
    let mut out: Vec<(String, String)> = Vec::new();
    let mut i: usize = 0;
    assert(pairs_view(out@) =~= listed_upto(0, qv, osi_only));
    let table = crate::licenses::license_names();
    let ghost mut idx: Seq<int> = seq![];
    while i < table.len()
        invariant
            i <= table.len(),
            forall|a: int, b: int| 0 <= a < b < table.len() ==> text_lt(table[a].0@, table[b].0@),
            idx.len() == out.len(),
            forall|a: int| 0 <= a < idx.len() ==> 0 <= #[trigger] idx[a] < i && out[a].0@ == table[idx[a]].0@,
            forall|a: int, b: int| 0 <= a < b < idx.len() ==> #[trigger] idx[a] < #[trigger] idx[b],
            crate::licenses::is_name_table(table@),
            qv == lowered(opt_view(*query)),
            match q {
                Some(v) => qv == Some(v@),
                None => qv is None,
            },
            pairs_view(out@) == listed_upto(i as int, qv, osi_only),
        decreases table.len() - i,
    {
        let (name, full_name) = table[i];
        let approved = if osi_only {
            match find_license(name) {
                Some(l) => l.is_osi_approved(),
                None => false,
            }
        } else {
            true
        };
        let keep = approved && (answers_exec(name, &q) || answers_exec(full_name, &q));
        if keep {
            out.push((String::from_str(name), String::from_str(full_name)));
            assert(pairs_view(out@) =~= pairs_view(out@.drop_last()).push(
                (entry_name(i as int), entry_full_name(i as int)),
            ));
            proof {
                idx = idx.push(i as int);
            }
        }
        i += 1;
    }
    assert forall|a: int, b: int| 0 <= a < b < out.len() implies text_lt(out[a].0@, out[b].0@) by {
        assert(idx[a] < idx[b]);
    }
    out
}

/// The custom templates to list: none when only OSI-approved licenses are
/// offered, else those whose name answers the query, in the order given.
pub open spec fn custom_listing(names: Seq<Seq<char>>, query: Option<Seq<char>>, osi_only: bool) -> Seq<
    Seq<char>,
> {
    if osi_only {
        seq![]
    } else {
        names.filter(|n: Seq<char>| answers(n, lowered(query)))
    }
}

/// The custom template names to list for `query`.
pub fn list_custom(names: &Vec<String>, query: &Option<String>, osi_only: bool) -> (r: Vec<String>)
    ensures
        r@.map_values(|s: String| s@) == custom_listing(
            names@.map_values(|s: String| s@),
            opt_view(*query),
            osi_only,
        ),
{
    let mut out: Vec<String> = Vec::new();
    if osi_only {
        assert(out@.map_values(|s: String| s@) =~= Seq::<Seq<char>>::empty());
        return out;
    }
    let q = lowered_exec(query);
    let ghost all = names@.map_values(|s: String| s@);
    let ghost pred = |n: Seq<char>| answers(n, lowered(opt_view(*query)));
    let mut i: usize = 0;
    while i < names.len()
        invariant
            i <= names.len(),
            all == names@.map_values(|s: String| s@),
            pred == (|n: Seq<char>| answers(n, lowered(opt_view(*query)))),
            match q {
                Some(v) => lowered(opt_view(*query)) == Some(v@),
                None => lowered(opt_view(*query)) is None,
            },
            out@.map_values(|s: String| s@) == all.take(i as int).filter(pred),
        decreases names.len() - i,
    {
        proof {
            reveal_with_fuel(Seq::filter, 1);
            assert(all.take(i + 1).drop_last() =~= all.take(i as int));
            assert(all.take(i + 1).last() == names@[i as int]@);
        }
        let keep = answers_exec(names[i].as_str(), &q);
        if keep {
            let ghost before = out@;
            out.push(names[i].clone());
            assert(out@.map_values(|s: String| s@) =~= before.map_values(|s: String| s@).push(
                names@[i as int]@,
            ));
        }
        i += 1;
    }
    assert(all.take(names@.len() as int) =~= all);
    out
}

// ---------------------------------------------------------------------------
// Configuration requests
// ---------------------------------------------------------------------------

/// What a `config` command asks for.
#[derive(Debug, PartialEq, Eq)]
pub enum ConfigAction {
    /// Show the stored and the resolved configuration.
    Show,
    /// Show where the configuration file is.
    ShowPath,
    /// Show the stored author name.
    ShowName,
    /// Show the stored author e-mail address.
    ShowEmail,
    /// Show whether only OSI-approved licenses are offered.
    ShowOsiOnly,
    /// Set the author's name.
    SetName(String),
    /// Set the author's e-mail address.
    SetEmail(String),
    /// Set whether only OSI-approved licenses are offered.
    SetOsiOnly(bool),
    /// The value for `osi_approved_only` is neither `true` nor `false`.
    InvalidBool,
    /// The key is not one the configuration has.
    UnknownKey(String),
}

/// The key names the author's name.
pub open spec fn is_name_key(k: Seq<char>) -> bool {
    k == "name"@ || k == "author_name"@
}

/// The key names the author's e-mail address.
pub open spec fn is_email_key(k: Seq<char>) -> bool {
    k == "email"@ || k == "author_email"@
}

/// The action for a `config` request with `key` and `value`: no key shows
/// everything; `path` shows the file's location; a known key alone shows
/// its value, with a value sets it; any other key is unknown.
pub open spec fn config_action_is(r: ConfigAction, key: Option<Seq<char>>, value: Option<Seq<char>>) -> bool {
    match key {
        None => r == ConfigAction::Show,
        Some(k) => if k == "path"@ {
            r == ConfigAction::ShowPath
        } else if is_name_key(k) {
            match value {
                Some(v) => r matches ConfigAction::SetName(s) && s@ == v,
                None => r == ConfigAction::ShowName,
            }
        } else if is_email_key(k) {
            match value {
                Some(v) => r matches ConfigAction::SetEmail(s) && s@ == v,
                None => r == ConfigAction::ShowEmail,
            }
        } else if k == "osi_approved_only"@ {
            match value {
                Some(v) => if v == "true"@ {
                    r == ConfigAction::SetOsiOnly(true)
                } else if v == "false"@ {
                    r == ConfigAction::SetOsiOnly(false)
                } else {
                    r == ConfigAction::InvalidBool
                },
                None => r == ConfigAction::ShowOsiOnly,
            }
        } else {
            r matches ConfigAction::UnknownKey(u) && u@ == k
        },
    }
}

/// Both spellings of a key act alike: `email` and `author_email` show or set
/// the e-mail address, `name` and `author_name` the author's name, whatever
/// the value.
pub proof fn law_config_key_spellings(r: ConfigAction, value: Option<Seq<char>>)
    ensures
        config_action_is(r, Some("email"@), value) ==> (value matches Some(v) ==> r matches ConfigAction::SetEmail(s) && s@ == v),
        config_action_is(r, Some("author_email"@), value) ==> (value matches Some(v) ==> r matches ConfigAction::SetEmail(s) && s@ == v),
        config_action_is(r, Some("email"@), value) && value is None ==> r == ConfigAction::ShowEmail,
        config_action_is(r, Some("author_email"@), value) && value is None ==> r == ConfigAction::ShowEmail,
        config_action_is(r, Some("name"@), value) ==> (value matches Some(v) ==> r matches ConfigAction::SetName(s) && s@ == v),
        config_action_is(r, Some("author_name"@), value) ==> (value matches Some(v) ==> r matches ConfigAction::SetName(s) && s@ == v),
        config_action_is(r, Some("name"@), value) && value is None ==> r == ConfigAction::ShowName,
        config_action_is(r, Some("author_name"@), value) && value is None ==> r == ConfigAction::ShowName,
        config_action_is(r, Some("email"@), value) <==> config_action_is(r, Some("author_email"@), value),
        config_action_is(r, Some("name"@), value) <==> config_action_is(r, Some("author_name"@), value),
{
    reveal_strlit("email");
    reveal_strlit("author_email");
    reveal_strlit("name");
    reveal_strlit("author_name");
    reveal_strlit("path");
    assert("email"@.len() != "path"@.len());
    assert("author_email"@.len() != "path"@.len());
    assert("name"@[0] != "path"@[0]);
    assert("author_name"@ != "path"@);
    assert(!is_name_key("email"@));
    assert(!is_name_key("author_email"@));
}

/// Decides what a `config` request asks for. A value for
/// `osi_approved_only` is read as std reads a `bool`: exactly `true` or
/// `false`.
pub fn config_action(key: Option<String>, value: Option<String>) -> (r: ConfigAction)
    ensures
        config_action_is(r, opt_view(key), opt_view(value)),
{
    match key {
        None => ConfigAction::Show,
        Some(k) => {
            if same(&k, "path") {
                ConfigAction::ShowPath
            } else if same(&k, "name") || same(&k, "author_name") {
                match value {
                    Some(v) => ConfigAction::SetName(v),
                    None => ConfigAction::ShowName,
                }
            } else if same(&k, "email") || same(&k, "author_email") {
                match value {
                    Some(v) => ConfigAction::SetEmail(v),
                    None => ConfigAction::ShowEmail,
                }
            } else if same(&k, "osi_approved_only") {
                match value {
                    Some(v) => {
                        if same(&v, "true") {
                            ConfigAction::SetOsiOnly(true)
                        } else if same(&v, "false") {
                            ConfigAction::SetOsiOnly(false)
                        } else {
                            ConfigAction::InvalidBool
                        }
                    },
                    None => ConfigAction::ShowOsiOnly,
                }
            } else {
                ConfigAction::UnknownKey(k)
            }
        },
    }
}

/// Whether `a` is the text `b`.
fn same(a: &String, b: &str) -> (r: bool)
    ensures
        r == (a@ == b@),
{
    crate::document::same_text(a, b)
}

} // verus!
