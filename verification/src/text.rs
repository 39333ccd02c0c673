//! Character-level text operations with their mathematical meaning:
//! searching, replacing, trimming and splitting into lines.
use vstd::prelude::*;

verus! {

broadcast use vstd::string::group_string_axioms;

// ---------------------------------------------------------------------------
// Specifications
// ---------------------------------------------------------------------------

/// `p` occurs in `s` starting at position `i`.
pub open spec fn occurs_at(s: Seq<char>, p: Seq<char>, i: int) -> bool {
    0 <= i && i + p.len() <= s.len() && s.subrange(i, i + p.len()) == p
}

/// `s` begins with `p`.
pub open spec fn starts_with(s: Seq<char>, p: Seq<char>) -> bool {
    occurs_at(s, p, 0)
}

/// `p` occurs somewhere in `s`.
pub open spec fn contains(s: Seq<char>, p: Seq<char>) -> bool {
    exists|i: int| occurs_at(s, p, i)
}

/// The first position at or after `i` where `p` occurs in `s`.
pub open spec fn find_from(s: Seq<char>, p: Seq<char>, i: int) -> Option<int>
    decreases s.len() - i,
{
    if i < 0 || i + p.len() > s.len() {
        None
    } else if occurs_at(s, p, i) {
        Some(i)
    } else if i + p.len() == s.len() {
        None
    } else {
        find_from(s, p, i + 1)
    }
}

/// The first position where `p` occurs in `s`.
pub open spec fn find(s: Seq<char>, p: Seq<char>) -> Option<int> {
    find_from(s, p, 0)
}

/// Every non-overlapping occurrence of the pattern `p` in `s`, scanned from
/// left to right, replaced by `r`; an empty pattern leaves `s` as it is.
pub open spec fn replace_all(s: Seq<char>, p: Seq<char>, r: Seq<char>) -> Seq<char>
    decreases s.len(),
{
    if p.len() == 0 || s.len() < p.len() {
        s
    } else if s.take(p.len() as int) == p {
        r + replace_all(s.skip(p.len() as int), p, r)
    } else {
        seq![s[0]] + replace_all(s.skip(1), p, r)
    }
}

/// Unicode `White_Space` characters, the ones `char::is_whitespace` accepts.
pub open spec fn is_white_space(c: char) -> bool {
    let n = c as u32;
    ||| 0x09 <= n <= 0x0d
    ||| n == 0x20
    ||| n == 0x85
    ||| n == 0xa0
    ||| n == 0x1680
    ||| 0x2000 <= n <= 0x200a
    ||| n == 0x2028
    ||| n == 0x2029
    ||| n == 0x202f
    ||| n == 0x205f
    ||| n == 0x3000
}

/// `s` without its leading white space.
pub open spec fn trim_start(s: Seq<char>) -> Seq<char>
    decreases s.len(),
{
    if s.len() > 0 && is_white_space(s[0]) {
        trim_start(s.skip(1))
    } else {
        s
    }
}

/// `s` without its trailing white space.
pub open spec fn trim_end(s: Seq<char>) -> Seq<char>
    decreases s.len(),
{
    if s.len() > 0 && is_white_space(s.last()) {
        trim_end(s.drop_last())
    } else {
        s
    }
}

/// `s` without leading and trailing white space.
pub open spec fn trim(s: Seq<char>) -> Seq<char> {
    trim_end(trim_start(s))
}

/// A line as it comes out of a split at `'\n'`, with one `'\r'` before the
/// line feed removed.
pub open spec fn strip_cr(line: Seq<char>) -> Seq<char> {
    if line.len() > 0 && line.last() == '\r' {
        line.drop_last()
    } else {
        line
    }
}

/// The lines of `s`: split at each `'\n'` (a `"\r\n"` ending counts as one),
/// with no empty line after a final line ending.
pub open spec fn lines(s: Seq<char>) -> Seq<Seq<char>>
    decreases s.len(),
{
    if s.len() == 0 {
        seq![]
    } else {
        match find(s, seq!['\n']) {
            Some(i) => if 0 <= i < s.len() {
                seq![strip_cr(s.take(i))] + lines(s.skip(i + 1))
            } else {
                seq![s]
            },
            None => seq![s],
        }
    }
}

/// The pieces of `parts` with `sep` between each two of them.
pub open spec fn join(parts: Seq<Seq<char>>, sep: Seq<char>) -> Seq<char>
    decreases parts.len(),
{
    if parts.len() == 0 {
        seq![]
    } else if parts.len() == 1 {
        parts[0]
    } else {
        join(parts.drop_last(), sep) + sep + parts.last()
    }
}

// ---------------------------------------------------------------------------
// Lemmas
// ---------------------------------------------------------------------------

/// `find_from` finds an occurrence, and no earlier one from its start.
pub proof fn lemma_find_from(s: Seq<char>, p: Seq<char>, i: int)
    requires
        0 <= i,
    ensures
        find_from(s, p, i) matches Some(k) ==> i <= k && occurs_at(s, p, k) && forall|j: int|
            i <= j < k ==> !occurs_at(s, p, j),
        find_from(s, p, i) is None ==> forall|j: int| i <= j ==> !occurs_at(s, p, j),
    decreases s.len() - i,
{
    if i + p.len() > s.len() {
    } else if occurs_at(s, p, i) {
    } else if i + p.len() == s.len() {
    } else {
        lemma_find_from(s, p, i + 1);
    }
}

/// An occurrence at `k` with none between `i` and `k` is what `find_from`
/// finds from `i`.
pub proof fn lemma_find_from_is(s: Seq<char>, p: Seq<char>, i: int, k: int)
    requires
        0 <= i <= k,
        occurs_at(s, p, k),
        forall|j: int| i <= j < k ==> !occurs_at(s, p, j),
    ensures
        find_from(s, p, i) == Some(k),
    decreases k - i,
{
    if i < k {
        lemma_find_from_is(s, p, i + 1, k);
    }
}

/// With no occurrence from `i` on, `find_from` finds nothing.
pub proof fn lemma_find_from_none(s: Seq<char>, p: Seq<char>, i: int)
    requires
        0 <= i,
        forall|j: int| i <= j ==> !occurs_at(s, p, j),
    ensures
        find_from(s, p, i) is None,
    decreases s.len() - i,
{
    if i + p.len() > s.len() {
    } else if i + p.len() == s.len() {
    } else {
        lemma_find_from_none(s, p, i + 1);
    }
}

/// A one-character pattern occurs exactly where that character stands.
pub proof fn lemma_occurs_single(s: Seq<char>, c: char, j: int)
    ensures
        occurs_at(s, seq![c], j) <==> (0 <= j < s.len() && s[j] == c),
{
    if 0 <= j < s.len() && s[j] == c {
        assert(s.subrange(j, j + 1) =~= seq![c]);
    }
    if occurs_at(s, seq![c], j) {
        assert(s.subrange(j, j + 1)[0] == s[j]);
    }
}

/// Replacing a pattern that does not occur changes nothing.
pub proof fn lemma_replace_absent(s: Seq<char>, p: Seq<char>, r: Seq<char>)
    requires
        !contains(s, p),
    ensures
        replace_all(s, p, r) == s,
    decreases s.len(),
{
    if p.len() == 0 || s.len() < p.len() {
    } else if s.take(p.len() as int) == p {
        assert(s.subrange(0, p.len() as int) =~= s.take(p.len() as int));
        assert(occurs_at(s, p, 0));
    } else {
        let t = s.skip(1);
        assert forall|j: int| !occurs_at(t, p, j) by {
            if occurs_at(t, p, j) {
                assert(s.subrange(j + 1, j + 1 + p.len()) =~= t.subrange(j, j + p.len()));
                assert(occurs_at(s, p, j + 1));
            }
        }
        lemma_replace_absent(t, p, r);
        assert(seq![s[0]] + t =~= s);
    }
}

/// `p` is contained in `s` exactly when `find` locates it.
pub proof fn lemma_contains_find(s: Seq<char>, p: Seq<char>)
    ensures
        contains(s, p) <==> find(s, p) is Some,
{
    lemma_find_from(s, p, 0);
}

/// Replacing leaves a prefix alone when no occurrence of the pattern starts
/// inside it: the scan goes on in what follows.
pub proof fn lemma_replace_clean_prefix(a: Seq<char>, c: Seq<char>, p: Seq<char>, r: Seq<char>)
    requires
        p.len() > 0,
        forall|j: int| 0 <= j < a.len() ==> !occurs_at(a + c, p, j),
    ensures
        replace_all(a + c, p, r) == a + replace_all(c, p, r),
    decreases a.len(),
{
    let s = a + c;
    if a.len() == 0 {
        assert(s =~= c);
        assert(a + replace_all(c, p, r) =~= replace_all(c, p, r));
    } else if s.len() < p.len() {
        assert(c.len() < p.len());
    } else {
        assert(!occurs_at(s, p, 0));
        assert(s.subrange(0, p.len() as int) =~= s.take(p.len() as int));
        let a1 = a.skip(1);
        assert(s.skip(1) =~= a1 + c);
        assert forall|j: int| 0 <= j < a1.len() implies !occurs_at(a1 + c, p, j) by {
            if occurs_at(a1 + c, p, j) {
                assert((a1 + c).subrange(j, j + p.len()) =~= s.subrange(j + 1, j + 1 + p.len()));
                assert(occurs_at(s, p, j + 1));
            }
        }
        lemma_replace_clean_prefix(a1, c, p, r);
        assert(seq![s[0]] + (a1 + replace_all(c, p, r)) =~= a + replace_all(c, p, r));
    }
}

/// Every occurrence is replaced, not only the first: where the first
/// occurrence of a non-empty pattern `p` in a text starts right after `a`,
/// the text before it is kept, that occurrence becomes `r`, and the rest
/// `b` is replaced in the same way, all of its occurrences included.
pub proof fn law_replace_first_then_rest(a: Seq<char>, b: Seq<char>, p: Seq<char>, r: Seq<char>)
    requires
        p.len() > 0,
        forall|j: int| 0 <= j < a.len() ==> !occurs_at(a + p + b, p, j),
    ensures
        replace_all(a, p, r) == a,
        replace_all(a + p + b, p, r) == a + r + replace_all(b, p, r),
        replace_all(a + p + b, p, r) == replace_all(a, p, r) + r + replace_all(b, p, r),
{
    let s = a + p + b;
    assert(s =~= a + (p + b));
    lemma_replace_clean_prefix(a, p + b, p, r);
    let t = p + b;
    assert(t.take(p.len() as int) =~= p);
    assert(t.skip(p.len() as int) =~= b);
    assert(replace_all(t, p, r) == r + replace_all(b, p, r));
    assert(a + (r + replace_all(b, p, r)) =~= a + r + replace_all(b, p, r));
    assert forall|j: int| !occurs_at(a, p, j) by {
        if occurs_at(a, p, j) {
            assert(s.subrange(j, j + p.len()) =~= a.subrange(j, j + p.len()));
            assert(occurs_at(s, p, j));
        }
    }
    lemma_replace_absent(a, p, r);
}

/// Replacing a pattern of which the text holds exactly two occurrences,
/// neither overlapping the other, replaces both.
pub proof fn law_replace_both_occurrences(
    a: Seq<char>,
    m: Seq<char>,
    b: Seq<char>,
    p: Seq<char>,
    r: Seq<char>,
)
    requires
        p.len() > 0,
        !contains(a, p),
        !contains(m, p),
        !contains(b, p),
        forall|j: int| 0 <= j < a.len() ==> !occurs_at(a + p + (m + p + b), p, j),
        forall|j: int| 0 <= j < m.len() ==> !occurs_at(m + p + b, p, j),
    ensures
        replace_all(a + p + m + p + b, p, r) == a + r + m + r + b,
{
    law_replace_first_then_rest(a, m + p + b, p, r);
    law_replace_first_then_rest(m, b, p, r);
    lemma_replace_absent(b, p, r);
    assert(a + p + m + p + b =~= a + p + (m + p + b));
    assert(a + r + (m + r + b) =~= a + r + m + r + b);
}

// ---------------------------------------------------------------------------
// Executable operations
// ---------------------------------------------------------------------------

/// The characters of `s`, one by one.
pub fn chars_of(s: &str) -> (r: Vec<char>)
    ensures
        r@ == s@,
{
    let mut v: Vec<char> = Vec::new();
    for c in it: s.chars()
        invariant
            v@ == it.seq().take(it.index() as int),
    {
        v.push(c);
    }
    v
}

/// The text std's `str::to_lowercase` makes of `s`: each character mapped
/// by Unicode's lowercase mapping (a final capital sigma by its own rule).
pub uninterp spec fn lowercase(s: Seq<char>) -> Seq<char>;

/// std's `str::to_lowercase`. The contract claims only that the result is a
/// function of the text, named `lowercase`.
#[verifier::external_body]
pub(crate) fn to_lowercase(s: &str) -> (r: String)
    ensures
        r@ == lowercase(s@),
{
    s.to_lowercase()
}

/// Appends one character to a string; std's `String::push`.
#[verifier::external_body]
fn push_char(s: &mut String, c: char)
    ensures
        final(s)@ == old(s)@.push(c),
{
    s.push(c)
}

/// The string made of `v[from..to]`.
pub fn string_of_range(v: &Vec<char>, from: usize, to: usize) -> (r: String)
    requires
        from <= to <= v.len(),
    ensures
        r@ == v@.subrange(from as int, to as int),
{
    let mut r = String::new();
    let mut i = from;
    while i < to
        invariant
            from <= i <= to <= v.len(),
            r@ == v@.subrange(from as int, i as int),
        decreases to - i,
    {
        push_char(&mut r, v[i]);
        i += 1;
    }
    r
}

/// The string made of the characters of `v`.
pub fn string_of(v: &Vec<char>) -> (r: String)
    ensures
        r@ == v@,
{
    let r = string_of_range(v, 0, v.len());
    assert(v@.subrange(0, v@.len() as int) == v@);
    r
}

/// Whether `p` occurs in `s` at position `i`.
pub fn occurs_at_exec(s: &Vec<char>, p: &Vec<char>, i: usize) -> (r: bool)
    ensures
        r == occurs_at(s@, p@, i as int),
{
    if i > s.len() || p.len() > s.len() - i {
        return false;
    }
    let mut k: usize = 0;
    while k < p.len()
        invariant
            i + p.len() <= s.len(),
            k <= p.len(),
            forall|j: int| 0 <= j < k ==> s@[i + j] == p@[j],
        decreases p.len() - k,
    {
        if s[i + k] != p[k] {
            assert(s@.subrange(i as int, i + p.len())[k as int] != p@[k as int]);
            return false;
        }
        k += 1;
    }
    assert(s@.subrange(i as int, i + p.len()) =~= p@);
    true
}

/// Whether `s` begins with `p`.
pub fn starts_with_exec(s: &Vec<char>, p: &Vec<char>) -> (r: bool)
    ensures
        r == starts_with(s@, p@),
{
    occurs_at_exec(s, p, 0)
}

/// The first position at or after `from` where `p` occurs in `s`.
pub fn find_from_exec(s: &Vec<char>, p: &Vec<char>, from: usize) -> (r: Option<usize>)
    ensures
        r matches Some(k) ==> find_from(s@, p@, from as int) == Some(k as int),
        r is None ==> find_from(s@, p@, from as int) is None,
{
    let mut i = from;
    while p.len() <= s.len() && i <= s.len() - p.len()
        invariant
            from <= i,
            find_from(s@, p@, from as int) == find_from(s@, p@, i as int),
        decreases s.len() - i,
    {
        if occurs_at_exec(s, p, i) {
            return Some(i);
        }
        if i == s.len() - p.len() {
            return None;
        }
        i += 1;
    }
    None
}

/// Whether `p` occurs anywhere in `s`.
pub fn contains_exec(s: &Vec<char>, p: &Vec<char>) -> (r: bool)
    ensures
        r == contains(s@, p@),
{
    proof {
        lemma_contains_find(s@, p@);
    }
    find_from_exec(s, p, 0).is_some()
}

/// A copy of `s`.
pub fn copy_chars(s: &Vec<char>) -> (r: Vec<char>)
    ensures
        r@ == s@,
{
    let mut r: Vec<char> = Vec::new();
    let mut i: usize = 0;
    while i < s.len()
        invariant
            i <= s.len(),
            r@ == s@.take(i as int),
        decreases s.len() - i,
    {
        r.push(s[i]);
        i += 1;
    }
    assert(s@.take(s@.len() as int) =~= s@);
    r
}

/// `s` with every non-overlapping occurrence of `p`, from the left, replaced
/// by `r`. For a non-empty `p` this is what std's `str::replace` does; an
/// empty `p` leaves `s` as it is, where std would put `r` between every two
/// characters (the library never passes an empty pattern).
pub fn replace_all_exec(s: &Vec<char>, p: &Vec<char>, r: &Vec<char>) -> (out: Vec<char>)
    ensures
        out@ == replace_all(s@, p@, r@),
{
    if p.len() == 0 {
        return copy_chars(s);
    }
    let mut out: Vec<char> = Vec::new();
    let mut i: usize = 0;
    assert(s@.skip(0) =~= s@);
    while i < s.len()
        invariant
            p.len() > 0,
            i <= s.len(),
            out@ + replace_all(s@.skip(i as int), p@, r@) == replace_all(s@, p@, r@),
        decreases s.len() - i,
    {
        let ghost rest = s@.skip(i as int);
        if occurs_at_exec(s, p, i) {
            assert(rest.take(p@.len() as int) =~= s@.subrange(i as int, i + p@.len()));
            assert(rest.skip(p@.len() as int) =~= s@.skip(i + p@.len()));
            let mut k: usize = 0;
            let ghost before = out@;
            while k < r.len()
                invariant
                    k <= r.len(),
                    out@ == before + r@.take(k as int),
                decreases r.len() - k,
            {
                out.push(r[k]);
                k += 1;
            }
            assert(r@.take(r@.len() as int) =~= r@);
            assert(out@ + replace_all(s@.skip(i + p@.len()), p@, r@) =~= before + replace_all(
                rest,
                p@,
                r@,
            ));
            i += p.len();
        } else {
            if s.len() - i >= p.len() {
                assert(rest.take(p@.len() as int) != p@) by {
                    if rest.take(p@.len() as int) == p@ {
                        assert(s@.subrange(i as int, i + p@.len()) =~= rest.take(
                            p@.len() as int,
                        ));
                    }
                }
                assert(rest.skip(1) =~= s@.skip(i + 1));
                let ghost before = out@;
                out.push(s[i]);
                assert(out@ + replace_all(s@.skip(i + 1), p@, r@) =~= before + replace_all(
                    rest,
                    p@,
                    r@,
                ));
                i += 1;
            } else {
                let ghost before = out@;
                let mut k = i;
                while k < s.len()
                    invariant
                        i <= k <= s.len(),
                        out@ == before + s@.subrange(i as int, k as int),
                    decreases s.len() - k,
                {
                    out.push(s[k]);
                    k += 1;
                }
                assert(s@.subrange(i as int, s@.len() as int) =~= rest);
                assert(s@.skip(s@.len() as int) =~= Seq::<char>::empty());
                i = s.len();
            }
        }
    }
    assert(s@.skip(s@.len() as int) =~= Seq::<char>::empty());
    out
}

/// Each `(a, b)` in `r` bounds in `s` the piece at the same place in `parts`.
pub open spec fn bounds_hold(s: Seq<char>, r: Seq<(usize, usize)>, parts: Seq<Seq<char>>) -> bool {
    &&& r.len() == parts.len()
    &&& forall|k: int|
        #![trigger r[k]]
        0 <= k < r.len() ==> r[k].0 <= r[k].1 <= s.len() && s.subrange(r[k].0 as int, r[k].1 as int)
            == parts[k]
}

proof fn lemma_bounds_push(
    s: Seq<char>,
    r: Seq<(usize, usize)>,
    parts: Seq<Seq<char>>,
    a: usize,
    b: usize,
    piece: Seq<char>,
)
    requires
        bounds_hold(s, r, parts),
        a <= b <= s.len(),
        s.subrange(a as int, b as int) == piece,
    ensures
        bounds_hold(s, r.push((a, b)), parts.push(piece)),
{
    let r2 = r.push((a, b));
    assert forall|k: int| 0 <= k < r2.len() implies r2[k].0 <= r2[k].1 <= s.len() && s.subrange(
        r2[k].0 as int,
        r2[k].1 as int,
    ) == parts.push(piece)[k] by {
        if k < r.len() {
            assert(r2[k] == r[k]);
        }
    }
}

/// Bounds `(a, b)` of the lines of `s`: `s[a..b]` is the `k`-th of `lines(s)`.
pub fn line_bounds(s: &Vec<char>) -> (r: Vec<(usize, usize)>)
    ensures
        bounds_hold(s@, r@, lines(s@)),
{
    let mut r: Vec<(usize, usize)> = Vec::new();
    let ghost mut acc: Seq<Seq<char>> = seq![];
    let mut i: usize = 0;
    assert(s@.skip(0) =~= s@);
    while i < s.len()
        invariant
            i <= s.len(),
            bounds_hold(s@, r@, acc),
            lines(s@) == acc + lines(s@.skip(i as int)),
        decreases s.len() - i,
    {
        let ghost t = s@.skip(i as int);
        let ghost nl = seq!['\n'];
        let mut j = i;
        while j < s.len() && s[j] != '\n'
            invariant
                i <= j <= s.len(),
                forall|m: int| i <= m < j ==> s@[m] != '\n',
            decreases s.len() - j,
        {
            j += 1;
        }
        if j < s.len() {
            let end = if j > i && s[j - 1] == '\r' {
                j - 1
            } else {
                j
            };
            proof {
                assert forall|m: int| 0 <= m < j - i implies !occurs_at(t, nl, m) by {
                    lemma_occurs_single(t, '\n', m);
                }
                lemma_occurs_single(t, '\n', j - i);
                lemma_find_from_is(t, nl, 0, j - i);
                assert(t.take(j - i) =~= s@.subrange(i as int, j as int));
                assert(t.skip(j - i + 1) =~= s@.skip(j + 1));
                assert(s@.subrange(i as int, end as int) =~= strip_cr(t.take(j - i)));
                assert(lines(t) == seq![strip_cr(t.take(j - i))] + lines(s@.skip(j + 1)));
                lemma_bounds_push(s@, r@, acc, i, end, strip_cr(t.take(j - i)));
                assert(acc.push(strip_cr(t.take(j - i))) + lines(s@.skip(j + 1)) =~= acc
                    + lines(t));
                acc = acc.push(strip_cr(t.take(j - i)));
            }
            r.push((i, end));
            i = j + 1;
        } else {
            proof {
                assert forall|m: int| 0 <= m implies !occurs_at(t, nl, m) by {
                    lemma_occurs_single(t, '\n', m);
                }
                lemma_find_from_none(t, nl, 0);
                assert(s@.subrange(i as int, s.len() as int) =~= t);
                assert(lines(t) == seq![t]);
                assert(s@.skip(s.len() as int) =~= Seq::<char>::empty());
                lemma_bounds_push(s@, r@, acc, i, s.len(), t);
                assert(acc.push(t) + lines(Seq::<char>::empty()) =~= acc + lines(t));
                acc = acc.push(t);
            }
            r.push((i, s.len()));
            i = s.len();
        }
    }
    assert(s@.skip(s.len() as int) =~= Seq::<char>::empty());
    assert(acc + lines(Seq::<char>::empty()) =~= acc);
    r
}

/// Whether `c` is Unicode white space; the set `char::is_whitespace` accepts.
pub fn is_white_space_exec(c: char) -> (r: bool)
    ensures
        r == is_white_space(c),
{
    let n = c as u32;
    (0x09 <= n && n <= 0x0d) || n == 0x20 || n == 0x85 || n == 0xa0 || n == 0x1680 || (0x2000
        <= n && n <= 0x200a) || n == 0x2028 || n == 0x2029 || n == 0x202f || n == 0x205f || n
        == 0x3000
}

proof fn lemma_trim_start_skip(s: Seq<char>, i: int)
    requires
        0 <= i <= s.len(),
        forall|j: int| 0 <= j < i ==> is_white_space(s[j]),
    ensures
        trim_start(s) == trim_start(s.skip(i)),
    decreases i,
{
    if i > 0 {
        lemma_trim_start_skip(s.skip(1), i - 1);
        assert(s.skip(1).skip(i - 1) =~= s.skip(i));
    } else {
        assert(s.skip(0) =~= s);
    }
}

proof fn lemma_trim_end_take(s: Seq<char>, i: int)
    requires
        0 <= i <= s.len(),
        forall|j: int| i <= j < s.len() ==> is_white_space(s[j]),
    ensures
        trim_end(s) == trim_end(s.take(i)),
    decreases s.len() - i,
{
    if i < s.len() {
        lemma_trim_end_take(s.drop_last(), i);
        assert(s.drop_last().take(i) =~= s.take(i));
    } else {
        assert(s.take(i) =~= s);
    }
}

/// Positions `(a, b)` such that `s[a..b]` is `s` trimmed; std's `str::trim`.
pub fn trim_bounds(s: &Vec<char>, from: usize, to: usize) -> (r: (usize, usize))
    requires
        from <= to <= s.len(),
    ensures
        from <= r.0 <= r.1 <= to,
        s@.subrange(r.0 as int, r.1 as int) == trim(s@.subrange(from as int, to as int)),
{
    let ghost t = s@.subrange(from as int, to as int);
    let mut a = from;
    while a < to && is_white_space_exec(s[a])
        invariant
            from <= a <= to <= s.len(),
            forall|j: int| from <= j < a ==> is_white_space(s@[j]),
        decreases to - a,
    {
        a += 1;
    }
    proof {
        lemma_trim_start_skip(t, a - from);
        let u = t.skip(a - from);
        assert(u =~= s@.subrange(a as int, to as int));
        if u.len() > 0 {
            assert(u[0] == s@[a as int]);
        }
        assert(trim_start(t) == u);
    }
    let mut b = to;
    while b > a && is_white_space_exec(s[b - 1])
        invariant
            from <= a <= b <= to <= s.len(),
            forall|j: int| b <= j < to ==> is_white_space(s@[j]),
        decreases b - a,
    {
        b -= 1;
    }
    proof {
        let u = s@.subrange(a as int, to as int);
        lemma_trim_end_take(u, b - a);
        let w = u.take(b - a);
        assert(w =~= s@.subrange(a as int, b as int));
        if w.len() > 0 {
            assert(w.last() == s@[b - 1]);
        }
    }
    (a, b)
}

} // verus!
