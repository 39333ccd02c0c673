//! The user's configuration: the author identity, the OSI filter, and
//! per-directory overrides of the identity, resolved for the current
//! directory.
use crate::paths::{joined_path, join_path, path_has_prefix, path_starts_with};
use crate::project::{opt_view, or_keep, or_keep_author};
use crate::text::{chars_of, starts_with, starts_with_exec, string_of_range};
use vstd::prelude::*;

verus! {

broadcast use vstd::string::group_string_axioms;

/// Identity values that replace the configured ones under a condition.
#[derive(Debug)]
pub struct ConfigOverride {
    pub author_name: Option<String>,
    pub author_email: Option<String>,
}

/// The stored configuration.
///
/// `include_if` pairs a condition with the override it enables; the only
/// condition understood is `dir:<path>`, met when the current directory lies
/// inside `<path>`, compared by whole path components (a leading `~/`
/// standing for the home directory). The
/// entries apply in their order, a later one overriding what an earlier one
/// set. A configuration read from its file lists each condition once
/// (`well_formed`), as the file keeps them in a map; resolution does not
/// rely on it.
#[derive(Debug)]
pub struct Config {
    pub author_name: String,
    pub author_email: Option<String>,
    pub osi_approved_only: bool,
    pub include_if: Vec<(String, ConfigOverride)>,
}

/// The configuration that applies in one directory.
pub struct ResolvedConfig {
    pub author_name: String,
    pub author_email: Option<String>,
    pub osi_approved_only: bool,
}

pub struct OverrideView {
    pub author_name: Option<Seq<char>>,
    pub author_email: Option<Seq<char>>,
}

pub struct ConfigView {
    pub author_name: Seq<char>,
    pub author_email: Option<Seq<char>>,
    pub osi_approved_only: bool,
    pub include_if: Seq<(Seq<char>, OverrideView)>,
}

pub struct ResolvedView {
    pub author_name: Seq<char>,
    pub author_email: Option<Seq<char>>,
    pub osi_approved_only: bool,
}

impl View for ConfigOverride {
    type V = OverrideView;

    open spec fn view(&self) -> OverrideView {
        OverrideView {
            author_name: opt_view(self.author_name),
            author_email: opt_view(self.author_email),
        }
    }
}

impl View for Config {
    type V = ConfigView;

    open spec fn view(&self) -> ConfigView {
        ConfigView {
            author_name: self.author_name@,
            author_email: opt_view(self.author_email),
            osi_approved_only: self.osi_approved_only,
            include_if: self.include_if@.map_values(
                |e: (String, ConfigOverride)| (e.0@, e.1@),
            ),
        }
    }
}

impl View for ResolvedConfig {
    type V = ResolvedView;

    open spec fn view(&self) -> ResolvedView {
        ResolvedView {
            author_name: self.author_name@,
            author_email: opt_view(self.author_email),
            osi_approved_only: self.osi_approved_only,
        }
    }
}

impl Config {
    /// No condition is listed twice, as in the file's map of conditions.
    pub open spec fn well_formed(&self) -> bool {
        forall|i: int, j: int|
            0 <= i < j < self.include_if@.len() ==> self.include_if@[i].0@
                != self.include_if@[j].0@
    }
}

// ---------------------------------------------------------------------------
// Specification of resolution
// ---------------------------------------------------------------------------

/// The name an unconfigured author has.
pub open spec fn placeholder_author() -> Seq<char> {
    "Your Name"@
}

/// A `dir:` pattern with a leading `~/` read against the home directory.
pub open spec fn expanded_pattern(pattern: Seq<char>, home: Option<Seq<char>>) -> Seq<char> {
    if starts_with(pattern, seq!['~', '/']) && home is Some {
        joined_path(home->0, pattern.skip(2))
    } else {
        pattern
    }
}

/// Whether the condition `cond` holds in the directory `cwd`: it is
/// `dir:<pattern>` and `cwd` lies inside the expanded pattern, compared by
/// whole path components (so `/home/u/work` does not hold in
/// `/home/u/workshop`).
pub open spec fn condition_holds(cond: Seq<char>, cwd: Seq<char>, home: Option<Seq<char>>) -> bool {
    &&& starts_with(cond, seq!['d', 'i', 'r', ':'])
    &&& path_has_prefix(cwd, expanded_pattern(cond.skip(4), home))
}

/// The identity after the overrides of `entries`, taken in order: each
/// entry whose condition holds replaces what it sets.
pub open spec fn apply_overrides(
    name: Seq<char>,
    email: Option<Seq<char>>,
    entries: Seq<(Seq<char>, OverrideView)>,
    cwd: Seq<char>,
    home: Option<Seq<char>>,
) -> (Seq<char>, Option<Seq<char>>)
    decreases entries.len(),
{
    if entries.len() == 0 {
        (name, email)
    } else if condition_holds(entries[0].0, cwd, home) {
        apply_overrides(
            or_keep(entries[0].1.author_name, name),
            or_keep_author(entries[0].1.author_email, email),
            entries.drop_first(),
            cwd,
            home,
        )
    } else {
        apply_overrides(name, email, entries.drop_first(), cwd, home)
    }
}

/// The configuration that applies in `cwd` (`None` when the current
/// directory is unknown: then no override applies).
pub open spec fn resolved(c: ConfigView, cwd: Option<Seq<char>>, home: Option<Seq<char>>) -> ResolvedView {
    match cwd {
        Some(d) => {
            let id = apply_overrides(c.author_name, c.author_email, c.include_if, d, home);
            ResolvedView { author_name: id.0, author_email: id.1, osi_approved_only: c.osi_approved_only }
        },
        None => ResolvedView {
            author_name: c.author_name,
            author_email: c.author_email,
            osi_approved_only: c.osi_approved_only,
        },
    }
}

// ---------------------------------------------------------------------------
// Laws of resolution
// ---------------------------------------------------------------------------

/// Resolution never touches the OSI filter, and where the directory is
/// unknown or no override is listed it gives the stored identity.
pub proof fn law_resolve_stored(c: ConfigView, cwd: Option<Seq<char>>, home: Option<Seq<char>>)
    ensures
        resolved(c, cwd, home).osi_approved_only == c.osi_approved_only,
        cwd is None || c.include_if.len() == 0 ==> resolved(c, cwd, home).author_name
            == c.author_name && resolved(c, cwd, home).author_email == c.author_email,
{
}

/// Overrides whose condition does not hold change nothing; in particular a
/// condition that is not `dir:<path>` never applies.
pub proof fn law_unmet_conditions_ignored(
    name: Seq<char>,
    email: Option<Seq<char>>,
    entries: Seq<(Seq<char>, OverrideView)>,
    cwd: Seq<char>,
    home: Option<Seq<char>>,
)
    requires
        forall|k: int| 0 <= k < entries.len() ==> !condition_holds(#[trigger] entries[k].0, cwd, home),
    ensures
        apply_overrides(name, email, entries, cwd, home) == (name, email),
        forall|k: int|
            0 <= k < entries.len() ==> !starts_with(#[trigger] entries[k].0, seq!['d', 'i', 'r', ':'])
                ==> !condition_holds(entries[k].0, cwd, home),
    decreases entries.len(),
{
    if entries.len() > 0 {
        assert forall|k: int| 0 <= k < entries.drop_first().len() implies !condition_holds(
            #[trigger] entries.drop_first()[k].0,
            cwd,
            home,
        ) by {
            assert(entries.drop_first()[k] == entries[k + 1]);
        }
        law_unmet_conditions_ignored(name, email, entries.drop_first(), cwd, home);
    }
}

/// Applying overrides one after another: an added entry acts on what the
/// entries before it gave.
pub proof fn lemma_apply_push(
    name: Seq<char>,
    email: Option<Seq<char>>,
    entries: Seq<(Seq<char>, OverrideView)>,
    e: (Seq<char>, OverrideView),
    cwd: Seq<char>,
    home: Option<Seq<char>>,
)
    ensures
        apply_overrides(name, email, entries.push(e), cwd, home) == ({
            let before = apply_overrides(name, email, entries, cwd, home);
            if condition_holds(e.0, cwd, home) {
                (or_keep(e.1.author_name, before.0), or_keep_author(e.1.author_email, before.1))
            } else {
                before
            }
        }),
    decreases entries.len(),
{
    if entries.len() == 0 {
        let empty = Seq::<(Seq<char>, OverrideView)>::empty();
        assert(entries.push(e).drop_first() =~= empty);
        assert(entries.push(e)[0] == e);
        assert(apply_overrides(name, email, entries, cwd, home) == (name, email));
        let n2 = or_keep(e.1.author_name, name);
        let m2 = or_keep_author(e.1.author_email, email);
        assert(apply_overrides(n2, m2, empty, cwd, home) == (n2, m2));
        assert(apply_overrides(name, email, empty, cwd, home) == (name, email));
    } else {
        assert(entries.push(e).drop_first() =~= entries.drop_first().push(e));
        assert(entries.push(e)[0] == entries[0]);
        if condition_holds(entries[0].0, cwd, home) {
            lemma_apply_push(
                or_keep(entries[0].1.author_name, name),
                or_keep_author(entries[0].1.author_email, email),
                entries.drop_first(),
                e,
                cwd,
                home,
            );
        } else {
            lemma_apply_push(name, email, entries.drop_first(), e, cwd, home);
        }
    }
}

/// The last override that applies wins: an applying entry at the end sets
/// the name and e-mail it carries, whatever came before.
pub proof fn law_last_override_wins(
    name: Seq<char>,
    email: Option<Seq<char>>,
    entries: Seq<(Seq<char>, OverrideView)>,
    e: (Seq<char>, OverrideView),
    cwd: Seq<char>,
    home: Option<Seq<char>>,
)
    requires
        condition_holds(e.0, cwd, home),
    ensures
        e.1.author_name matches Some(n) ==> apply_overrides(name, email, entries.push(e), cwd, home).0
            == n,
        e.1.author_email is Some ==> apply_overrides(name, email, entries.push(e), cwd, home).1
            == e.1.author_email,
{
    lemma_apply_push(name, email, entries, e, cwd, home);
}

// ---------------------------------------------------------------------------
// Executable configuration
// ---------------------------------------------------------------------------

/// Whether only OSI-approved licenses are offered when the stored
/// configuration does not say.
pub fn default_osi_approved() -> (r: bool)
    ensures
        r,
{
    true
}

impl Default for ConfigOverride {
    fn default() -> (r: Self)
        ensures
            r@.author_name is None,
            r@.author_email is None,
    {
        ConfigOverride { author_name: None, author_email: None }
    }
}

impl Default for Config {
    /// The configuration of a user who has set nothing.
    fn default() -> (r: Self)
        ensures
            r@.author_name == placeholder_author(),
            r@.author_email is None,
            r@.osi_approved_only,
            r@.include_if.len() == 0,
            r.well_formed(),
    {
        Config {
            author_name: String::from_str("Your Name"),
            author_email: None,
            osi_approved_only: default_osi_approved(),
            include_if: Vec::new(),
        }
    }
}

/// A copy of an optional string.
fn copy_text(o: &Option<String>) -> (r: Option<String>)
    ensures
        opt_view(r) == opt_view(*o),
{
    match o {
        Some(s) => Some(s.clone()),
        None => None,
    }
}

/// `path` with a leading `~/` replaced by the home directory, when it is
/// known. With no home directory, or one that begins with `/`, expanding
/// again changes nothing.
pub fn expand_home(path: &str, home: &Option<String>) -> (r: String)
    ensures
        r@ == expanded_pattern(path@, opt_view(*home)),
        (home is None || starts_with(home->0@, seq!['/'])) ==> expanded_pattern(
            r@,
            opt_view(*home),
        ) == r@,
{
    let pv = chars_of(path);
    let tilde = vec!['~', '/'];
    assert(tilde@ == seq!['~', '/']);
    if starts_with_exec(&pv, &tilde) {
        if let Some(h) = home {
            let suffix = string_of_range(&pv, 2, pv.len());
            assert(pv@.subrange(2, pv@.len() as int) =~= pv@.skip(2));
            return join_path(h.as_str(), suffix.as_str());
        }
    }
    String::from_str(path)
}

/// Whether the condition `cond` holds in the directory `cwd`.
pub fn condition_holds_exec(cond: &String, cwd: &String, home: &Option<String>) -> (r: bool)
    ensures
        r == condition_holds(cond@, cwd@, opt_view(*home)),
{
    let cv = chars_of(cond.as_str());
    let dir = vec!['d', 'i', 'r', ':'];
    assert(dir@ == seq!['d', 'i', 'r', ':']);
    if !starts_with_exec(&cv, &dir) {
        return false;
    }
    let pattern = string_of_range(&cv, 4, cv.len());
    assert(cv@.subrange(4, cv@.len() as int) =~= cv@.skip(4));
    let expanded = expand_home(pattern.as_str(), home);
    path_starts_with(cwd.as_str(), expanded.as_str())
}

impl Config {
    /// The configuration that applies in the directory `cwd` (`None` when it
    /// could not be determined), `home` being the user's home directory.
    /// Overrides whose condition holds apply in their order, a later one
    /// replacing what an earlier one set.
    pub fn resolve(&self, cwd: &Option<String>, home: &Option<String>) -> (r: ResolvedConfig)
        ensures
            r@ == resolved(self@, opt_view(*cwd), opt_view(*home)),
    {
        let mut name = self.author_name.clone();
        let mut email = copy_text(&self.author_email);
        if let Some(dir) = cwd {
            let ghost entries = self@.include_if;
            let ghost d = dir@;
            let ghost h = opt_view(*home);
            let mut i: usize = 0;
            assert(entries.skip(0) =~= entries);
            while i < self.include_if.len()
                invariant
                    i <= self.include_if@.len(),
                    entries == self@.include_if,
                    d == dir@,
                    h == opt_view(*home),
                    apply_overrides(self@.author_name, self@.author_email, entries, d, h)
                        == apply_overrides(name@, opt_view(email), entries.skip(i as int), d, h),
                decreases self.include_if.len() - i,
            {
                let (cond, ov) = &self.include_if[i];
                proof {
                    assert(entries.skip(i as int).drop_first() =~= entries.skip(i + 1));
                    assert(entries.skip(i as int)[0] == (cond@, ov@));
                }
                if condition_holds_exec(cond, dir, home) {
                    if let Some(n) = &ov.author_name {
                        name = n.clone();
                    }
                    if let Some(e) = &ov.author_email {
                        email = Some(e.clone());
                    }
                }
                i += 1;
            }
            assert(entries.skip(self.include_if@.len() as int) =~= Seq::<
                (Seq<char>, OverrideView),
            >::empty());
        }
        ResolvedConfig { author_name: name, author_email: email, osi_approved_only: self.osi_approved_only }
    }
}

} // verus!
