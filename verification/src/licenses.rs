//! The SPDX license list: looking a license up by identifier, with or
//! without regard to case, its text, and the filtered listing of the list.
use crate::text::{lowercase, to_lowercase};
use vstd::prelude::*;

verus! {

broadcast use vstd::string::group_string_axioms;

// ---------------------------------------------------------------------------
// The list
// ---------------------------------------------------------------------------

/// The entry at `index` of the SPDX license list that the `spdx` crate
/// carries: identifier, full name and flags; `None` outside the list.
pub uninterp spec fn spdx_entry(index: int) -> Option<(Seq<char>, Seq<char>, u8)>;

/// What the `spdx` crate's text table (`spdx::text::LICENSE_TEXTS`) holds at
/// `index`, the text that its `LicenseId::text` gives for the license at
/// that index of the list. The table is the crate's data, taken as it is:
/// nothing here states that each entry is the text of the license named at
/// the same index.
pub uninterp spec fn spdx_text(index: int) -> Seq<char>;

/// `a` comes before `b` in the order of `str` (code point by code point).
pub open spec fn text_lt(a: Seq<char>, b: Seq<char>) -> bool
    decreases a.len(),
{
    if a.len() == 0 {
        b.len() > 0
    } else if b.len() == 0 {
        false
    } else if a[0] != b[0] {
        (a[0] as u32) < (b[0] as u32)
    } else {
        text_lt(a.drop_first(), b.drop_first())
    }
}

/// Nothing comes before itself.
pub proof fn lemma_text_lt_irreflexive(a: Seq<char>)
    ensures
        !text_lt(a, a),
    decreases a.len(),
{
    if a.len() > 0 {
        lemma_text_lt_irreflexive(a.drop_first());
    }
}

/// The list has `n` entries, at the positions `0..n`.
pub open spec fn list_length_is(n: int) -> bool {
    0 <= n && forall|i: int| (spdx_entry(i) is Some <==> 0 <= i < n)
}

/// The number of licenses in the list.
pub open spec fn license_count() -> int {
    choose|n: int| #[trigger] list_length_is(n)
}

/// The identifier of the license at `i`.
pub open spec fn entry_name(i: int) -> Seq<char> {
    match spdx_entry(i) {
        Some(e) => e.0,
        None => Seq::empty(),
    }
}

/// The full name of the license at `i`.
pub open spec fn entry_full_name(i: int) -> Seq<char> {
    match spdx_entry(i) {
        Some(e) => e.1,
        None => Seq::empty(),
    }
}

/// Whether the license at `i` is OSI approved: its flag `0x2`, as
/// `LicenseId::is_osi_approved` reads it.
pub open spec fn entry_osi(i: int) -> bool {
    match spdx_entry(i) {
        Some(e) => e.2 & 2 != 0,
        None => false,
    }
}

/// No two identifiers of the list are equal but for case.
pub open spec fn identifiers_caseless_distinct() -> bool {
    forall|i: int, j: int|
        #![trigger lowercase(entry_name(i)), lowercase(entry_name(j))]
        spdx_entry(i) is Some && spdx_entry(j) is Some && lowercase(entry_name(i)) == lowercase(
            entry_name(j),
        ) ==> i == j
}

/// The whole license list, in its order. The list is kept sorted by
/// identifier, strictly (so no identifier occurs twice): `spdx::license_id`
/// relies on this for its binary search. Its identifiers are ASCII, and no
/// two of them are equal but for case.
#[verifier::external_body]
fn license_table() -> (r: Vec<(&'static str, &'static str, u8)>)
    ensures
        forall|i: int|
            0 <= i < r.len() ==> spdx_entry(i) == Some((r[i].0@, r[i].1@, r[i].2)),
        forall|i: int| (i < 0 || i >= r.len()) ==> spdx_entry(i) is None,
        forall|i: int, j: int| 0 <= i < j < r.len() ==> text_lt(r[i].0@, r[j].0@),
        forall|i: int, j: int|
            0 <= i < r.len() && 0 <= j < r.len() && lowercase(r[i].0@) == lowercase(r[j].0@)
                ==> i == j,
{
    spdx::identifiers::LICENSES.iter().map(|l| (l.name, l.full_name, l.flags)).collect()
}

/// What the list is, as the table shows it.
proof fn lemma_table(r: Seq<(&'static str, &'static str, u8)>)
    requires
        forall|i: int| 0 <= i < r.len() ==> spdx_entry(i) == Some((r[i].0@, r[i].1@, r[i].2)),
        forall|i: int| (i < 0 || i >= r.len()) ==> spdx_entry(i) is None,
        forall|i: int, j: int| 0 <= i < j < r.len() ==> text_lt(r[i].0@, r[j].0@),
        forall|i: int, j: int|
            0 <= i < r.len() && 0 <= j < r.len() && lowercase(r[i].0@) == lowercase(r[j].0@)
                ==> i == j,
    ensures
        identifiers_caseless_distinct(),
        license_count() == r.len(),
        forall|i: int, j: int|
            0 <= i < license_count() && 0 <= j < license_count() && entry_name(i) == entry_name(j)
                ==> i == j,
{
    let n = r.len() as int;
    assert forall|i: int, j: int|
        spdx_entry(i) is Some && spdx_entry(j) is Some && lowercase(entry_name(i)) == lowercase(
            entry_name(j),
        ) implies i == j by {
        assert(entry_name(i) == r[i].0@ && entry_name(j) == r[j].0@);
    }
    assert(list_length_is(n));
    let m = license_count();
    assert(forall|i: int| (spdx_entry(i) is Some <==> 0 <= i < m));
    if m < n {
        assert(spdx_entry(m) is Some);
    } else if m > n {
        assert(spdx_entry(n) is Some);
    }
    assert forall|i: int, j: int|
        0 <= i < license_count() && 0 <= j < license_count() && entry_name(i) == entry_name(
            j,
        ) implies i == j by {
        if i < j {
            assert(text_lt(r[i].0@, r[j].0@));
            lemma_text_lt_irreflexive(r[i].0@);
        } else if j < i {
            assert(text_lt(r[j].0@, r[i].0@));
            lemma_text_lt_irreflexive(r[j].0@);
        }
    }
}

/// `s` without its trailing `'+'` characters.
pub open spec fn trim_plus(s: Seq<char>) -> Seq<char>
    decreases s.len(),
{
    if s.len() > 0 && s.last() == '+' {
        trim_plus(s.drop_last())
    } else {
        s
    }
}

/// The license at `i` has the identifier `t`.
pub open spec fn named(i: int, t: Seq<char>) -> bool {
    spdx_entry(i) is Some && entry_name(i) == t
}

/// `spdx::license_id`: the position of the license whose identifier is
/// `name` with its trailing `'+'` characters removed, found by binary search
/// in the sorted list; `None` when no identifier is that.
#[verifier::external_body]
fn license_id(name: &str) -> (r: Option<usize>)
    ensures
        r matches Some(i) ==> named(i as int, trim_plus(name@)),
        r is None ==> forall|i: int| !named(i, trim_plus(name@)),
{
    spdx::license_id(name).map(|l| l.index)
}

/// `LicenseId::text`: the entry at `index` of spdx's text table, which holds
/// as many entries as the list, so the index is in range.
#[verifier::external_body]
fn license_text(index: usize) -> (r: &'static str)
    requires
        spdx_entry(index as int) is Some,
    ensures
        r@ == spdx_text(index as int),
{
    spdx::text::LICENSE_TEXTS[index].1
}

// ---------------------------------------------------------------------------
// Lookup
// ---------------------------------------------------------------------------

/// A license of the SPDX list.
pub struct License {
    index: usize,
    name: String,
    full_name: String,
    osi_approved: bool,
}

/// A license as its position in the list, identifier, full name and OSI
/// approval.
pub struct LicenseView {
    pub index: int,
    pub name: Seq<char>,
    pub full_name: Seq<char>,
    pub osi_approved: bool,
}

/// `v` is the license at its position of the list.
pub open spec fn is_listed(v: LicenseView) -> bool {
    &&& spdx_entry(v.index) is Some
    &&& v.name == entry_name(v.index)
    &&& v.full_name == entry_full_name(v.index)
    &&& v.osi_approved == entry_osi(v.index)
}

impl View for License {
    type V = LicenseView;

    closed spec fn view(&self) -> LicenseView {
        LicenseView {
            index: self.index as int,
            name: self.name@,
            full_name: self.full_name@,
            osi_approved: self.osi_approved,
        }
    }
}

impl License {
    /// A license value is always one of the list, as it stands there.
    #[verifier::type_invariant]
    closed spec fn listed(self) -> bool {
        is_listed(self@)
    }

    /// Its position in the SPDX list.
    pub fn index(&self) -> (r: usize)
        ensures
            r == self@.index,
            is_listed(self@),
    {
        proof {
            use_type_invariant(self);
        }
        self.index
    }

    /// Its short identifier, such as `MIT`.
    pub fn name(&self) -> (r: &str)
        ensures
            r@ == self@.name,
            is_listed(self@),
    {
        proof {
            use_type_invariant(self);
        }
        self.name.as_str()
    }

    /// Its full name, such as `MIT License`.
    pub fn full_name(&self) -> (r: &str)
        ensures
            r@ == self@.full_name,
            is_listed(self@),
    {
        proof {
            use_type_invariant(self);
        }
        self.full_name.as_str()
    }

    /// Whether it is OSI approved.
    pub fn is_osi_approved(&self) -> (r: bool)
        ensures
            r == self@.osi_approved,
            is_listed(self@),
    {
        proof {
            use_type_invariant(self);
        }
        self.osi_approved
    }

    /// Its text as spdx's `LicenseId::text` gives it: the entry of spdx's
    /// text table at the license's index.
    pub fn text(&self) -> (r: &'static str)
        ensures
            r@ == spdx_text(self@.index),
            is_listed(self@),
    {
        proof {
            use_type_invariant(self);
        }
        license_text(self.index)
    }
}

/// The position of the license whose identifier is exactly `t`.
pub open spec fn exact_index(t: Seq<char>) -> Option<int> {
    if exists|i: int| named(i, t) {
        Some(choose|i: int| named(i, t))
    } else {
        None
    }
}

/// The identifier at `i` is, in lowercase, `lower`.
pub open spec fn lowercase_at(i: int, lower: Seq<char>) -> bool {
    spdx_entry(i) is Some && lowercase(entry_name(i)) == lower
}

/// `i` is the first position whose identifier is, in lowercase, `lower`.
pub open spec fn first_lowercase_at(i: int, lower: Seq<char>) -> bool {
    lowercase_at(i, lower) && forall|j: int| 0 <= j < i ==> !lowercase_at(j, lower)
}

/// The first position whose identifier is, in lowercase, `lower`.
pub open spec fn first_caseless(lower: Seq<char>) -> Option<int> {
    if exists|i: int| first_lowercase_at(i, lower) {
        Some(choose|i: int| first_lowercase_at(i, lower))
    } else {
        None
    }
}

/// The license `find_license` picks for `id`: the one that `spdx::license_id`
/// gives for `id`; else, for the first identifier equal to `id` but for case,
/// the one that `spdx::license_id` gives for that identifier.
pub open spec fn found_license(id: Seq<char>) -> Option<int> {
    match exact_index(trim_plus(id)) {
        Some(i) => Some(i),
        None => match first_caseless(lowercase(id)) {
            Some(k) => exact_index(trim_plus(entry_name(k))),
            None => None,
        },
    }
}

/// The position of the license that `r` is.
pub open spec fn license_index(r: Option<License>) -> Option<int> {
    match r {
        Some(l) => Some(l@.index),
        None => None,
    }
}

/// The license at position `i`.
fn license_at(table: &Vec<(&'static str, &'static str, u8)>, i: usize) -> (r: License)
    requires
        i < table.len(),
        spdx_entry(i as int) == Some((table[i as int].0@, table[i as int].1@, table[i as int].2)),
    ensures
        r@.index == i,
        is_listed(r@),
{
    let (name, full_name, flags) = table[i];
    License {
        index: i,
        name: String::from_str(name),
        full_name: String::from_str(full_name),
        osi_approved: flags & 2 != 0,
    }
}

/// An exact match of `t` is the position that `exact_index` names.
proof fn lemma_exact(t: Seq<char>, i: int)
    requires
        named(i, t),
        forall|a: int, b: int|
            0 <= a < license_count() && 0 <= b < license_count() && entry_name(a) == entry_name(b)
                ==> a == b,
        forall|a: int| (spdx_entry(a) is Some <==> 0 <= a < license_count()),
    ensures
        exact_index(t) == Some(i),
{
    let c = choose|a: int| named(a, t);
    assert(named(c, t));
}

/// Looks up an SPDX license by identifier: first exactly (as
/// `spdx::license_id` does, ignoring trailing `'+'`), then ignoring case.
pub fn find_license(id: &str) -> (r: Option<License>)
    ensures
        license_index(r) == found_license(id@),
        r matches Some(l) ==> is_listed(l@),
        forall|i: int| named(i, trim_plus(id@)) ==> license_index(r) == Some(i),
        identifiers_caseless_distinct(),
{
    let table = license_table();
    proof {
        lemma_table(table@);
    }
    let n = table.len();
    if let Some(i) = license_id(id) {
        proof {
            lemma_exact(trim_plus(id@), i as int);
        }
        return Some(license_at(&table, i));
    }
    let lower_id = to_lowercase(id);
    let mut k: usize = 0;
    while k < n
        invariant
            n == table.len() == license_count(),
            k <= n,
            lower_id@ == lowercase(id@),
            forall|j: int| 0 <= j < k ==> !lowercase_at(j, lower_id@),
            forall|i: int|
                0 <= i < table.len() ==> spdx_entry(i) == Some(
                    (table[i].0@, table[i].1@, table[i].2),
                ),
            forall|a: int| (spdx_entry(a) is Some <==> 0 <= a < license_count()),
            forall|a: int, b: int|
                0 <= a < license_count() && 0 <= b < license_count() && entry_name(a)
                    == entry_name(b) ==> a == b,
            exact_index(trim_plus(id@)) is None,
            identifiers_caseless_distinct(),
        decreases n - k,
    {
        let lower = to_lowercase(table[k].0);
        if lower.eq(&lower_id) {
            proof {
                assert(first_lowercase_at(k as int, lower_id@));
                let c = choose|i: int| first_lowercase_at(i, lower_id@);
                assert(first_lowercase_at(c, lower_id@));
                if c < k {
                } else if c > k {
                    assert(!lowercase_at(k as int, lower_id@));
                }
                assert(first_caseless(lower_id@) == Some(k as int));
            }
            match license_id(table[k].0) {
                Some(i) => {
                    proof {
                        lemma_exact(trim_plus(entry_name(k as int)), i as int);
                    }
                    return Some(license_at(&table, i));
                },
                None => {
                    return None;
                },
            }
        }
        k += 1;
    }
    proof {
        assert forall|i: int| !first_lowercase_at(i, lower_id@) by {
            if 0 <= i < n {
            } else {
                assert(!lowercase_at(i, lower_id@));
            }
        }
    }
    None
}

/// `t` holds identifier and full name of every license of the list, in
/// list order.
pub open spec fn is_name_table(t: Seq<(&'static str, &'static str)>) -> bool {
    &&& t.len() == license_count()
    &&& forall|j: int|
        #![trigger t[j]]
        0 <= j < t.len() ==> spdx_entry(j) is Some && t[j].0@ == entry_name(j) && t[j].1@
            == entry_full_name(j)
}

/// Identifier and full name of every license of the list, in list order
/// (which is identifier order).
pub fn license_names() -> (r: Vec<(&'static str, &'static str)>)
    ensures
        is_name_table(r@),
        forall|i: int, j: int| 0 <= i < j < r.len() ==> text_lt(r[i].0@, r[j].0@),
        identifiers_caseless_distinct(),
{
    let table = license_table();
    proof {
        lemma_table(table@);
    }
    let mut r: Vec<(&'static str, &'static str)> = Vec::new();
    let mut k: usize = 0;
    while k < table.len()
        invariant
            k <= table.len(),
            r.len() == k,
            forall|i: int|
                0 <= i < table.len() ==> spdx_entry(i) == Some(
                    (table[i].0@, table[i].1@, table[i].2),
                ),
            forall|i: int, j: int| 0 <= i < j < table.len() ==> text_lt(table[i].0@, table[j].0@),
            forall|j: int| 0 <= j < k ==> r[j].0 == table[j].0 && r[j].1 == table[j].1,
        decreases table.len() - k,
    {
        r.push((table[k].0, table[k].1));
        k += 1;
    }
    assert forall|i: int, j: int| 0 <= i < j < r.len() implies text_lt(r[i].0@, r[j].0@) by {
        assert(r[i].0 == table[i].0 && r[j].0 == table[j].0);
    }
    r
}

/// `s` does not end in `'+'`, the character `spdx::license_id` drops.
pub open spec fn no_trailing_plus(s: Seq<char>) -> bool {
    !(s.len() > 0 && s.last() == '+')
}

/// With an identifier `x` of the list at `i`, every `y` equal to it but for
/// case finds `i`.
proof fn lemma_caseless_partner(x: Seq<char>, y: Seq<char>, i: int)
    requires
        identifiers_caseless_distinct(),
        lowercase(x) == lowercase(y),
        no_trailing_plus(x),
        no_trailing_plus(y),
        named(i, x),
    ensures
        found_license(x) == Some(i),
        found_license(y) == Some(i),
{
    assert(trim_plus(x) == x);
    assert(trim_plus(y) == y);
    let c = choose|c: int| named(c, x);
    assert(named(c, x));
    assert(lowercase(entry_name(c)) == lowercase(entry_name(i)));
    assert(exact_index(x) == Some(i));
    let l = lowercase(y);
    if exists|j: int| named(j, y) {
        let d = choose|j: int| named(j, y);
        assert(named(d, y));
        assert(lowercase(entry_name(d)) == lowercase(entry_name(i)));
    } else {
        assert forall|j: int| 0 <= j < i implies !lowercase_at(j, l) by {
            if lowercase_at(j, l) {
                assert(lowercase(entry_name(j)) == lowercase(entry_name(i)));
            }
        }
        assert(first_lowercase_at(i, l));
        let e = choose|k: int| first_lowercase_at(k, l);
        assert(first_lowercase_at(e, l));
        assert(lowercase(entry_name(e)) == lowercase(entry_name(i)));
        assert(first_caseless(l) == Some(i));
    }
}

/// Lookup ignores case: two identifiers that differ only in case (neither
/// ending in `'+'`) find the same license. The list fact it rests on is
/// ensured by `find_license` and `license_names`.
pub proof fn law_lookup_ignores_case(a: Seq<char>, b: Seq<char>)
    requires
        identifiers_caseless_distinct(),
        lowercase(a) == lowercase(b),
        no_trailing_plus(a),
        no_trailing_plus(b),
    ensures
        found_license(a) == found_license(b),
{
    if exists|i: int| named(i, trim_plus(a)) {
        let i = choose|i: int| named(i, trim_plus(a));
        assert(trim_plus(a) == a);
        lemma_caseless_partner(a, b, i);
    } else if exists|i: int| named(i, trim_plus(b)) {
        let i = choose|i: int| named(i, trim_plus(b));
        assert(trim_plus(b) == b);
        lemma_caseless_partner(b, a, i);
    }
}

/// What is found for `id` is named `id` (without trailing `'+'`), or is what
/// an identifier equal to `id` but for case names.
pub proof fn law_found_is_named(id: Seq<char>)
    ensures
        found_license(id) matches Some(i) ==> (named(i, trim_plus(id)) || exists|k: int|
            lowercase_at(k, lowercase(id)) && named(i, trim_plus(entry_name(k)))),
{
    if let Some(i) = found_license(id) {
        if exact_index(trim_plus(id)) is Some {
        } else {
            let k = first_caseless(lowercase(id))->0;
            assert(first_lowercase_at(k, lowercase(id)));
        }
    }
}

} // verus!
