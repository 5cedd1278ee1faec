//! Strings as sequences of characters: the small vocabulary of suffix,
//! prefix and ordering facts that the rest of the crate is stated in.

use vstd::prelude::*;

verus! {

/// `s` ends with `suffix`.
pub open spec fn has_suffix(s: Seq<char>, suffix: Seq<char>) -> bool {
    suffix.len() <= s.len() && s.skip(s.len() - suffix.len()) == suffix
}

/// `s` starts with `prefix`.
pub open spec fn has_prefix(s: Seq<char>, prefix: Seq<char>) -> bool {
    prefix.len() <= s.len() && s.take(prefix.len() as int) == prefix
}

/// `needle` occurs in `s` starting at position `at`.
pub open spec fn occurs_at(s: Seq<char>, needle: Seq<char>, at: int) -> bool {
    0 <= at && at + needle.len() <= s.len() && s.subrange(at, at + needle.len()) == needle
}

/// `needle` occurs somewhere in `s`.
pub open spec fn has_infix(s: Seq<char>, needle: Seq<char>) -> bool {
    exists|at: int| occurs_at(s, needle, at)
}

/// `s` with every trailing repetition of `suffix` removed.
pub open spec fn without_trailing(s: Seq<char>, suffix: Seq<char>) -> Seq<char>
    decreases s.len(),
{
    if suffix.len() > 0 && has_suffix(s, suffix) {
        without_trailing(s.take(s.len() - suffix.len()), suffix)
    } else {
        s
    }
}

/// Lexicographic order on character sequences, characters compared by code
/// point; a proper prefix comes before the longer sequence.
pub open spec fn lex_le(a: Seq<char>, b: Seq<char>) -> bool
    decreases a.len(),
{
    if a.len() == 0 {
        true
    } else if b.len() == 0 {
        false
    } else if a[0] == b[0] {
        lex_le(a.skip(1), b.skip(1))
    } else {
        (a[0] as u32) < (b[0] as u32)
    }
}

/// The lowercase form of a string as the standard library's Unicode case
/// mapping gives it.
pub uninterp spec fn lowercase(s: Seq<char>) -> Seq<char>;

/// Calls `str::to_lowercase`, whose documentation describes the result as
/// the lowercase equivalent of the string under the Unicode `Lowercase`
/// property. The contract only names that result.
#[verifier::external_body]
pub(crate) fn to_lowercase(s: &str) -> (r: String)
    ensures
        r@ == lowercase(s@),
{
    s.to_lowercase()
}

/// Whether the standard library counts `c` as alphanumeric.
pub uninterp spec fn alphanumeric(c: char) -> bool;

/// Calls `char::is_alphanumeric`, which goes by the Unicode properties
/// `Alphabetic` and the numeric general categories. The contract only
/// names the answer.
#[verifier::external_body]
pub(crate) fn is_alphanumeric(c: char) -> (r: bool)
    ensures
        r == alphanumeric(c),
{
    c.is_alphanumeric()
}

/// Calls `String::push`, which appends the character to the end of the
/// string.
#[verifier::external_body]
pub(crate) fn push_char(s: &mut String, c: char)
    ensures
        final(s)@ == old(s)@.push(c),
{
    s.push(c)
}

/// The characters of `s`, in order.
pub fn chars_of(s: &str) -> (v: Vec<char>)
    ensures
        v@ == s@,
{
    let mut v: Vec<char> = Vec::new();
    for c in it: s.chars()
        invariant
            v@ == s@.take(it.index() as int),
            it.seq() == s@,
    {
        v.push(c);
    }
    v
}

/// An owned copy of `s`.
pub fn owned(s: &str) -> (r: String)
    ensures
        r@ == s@,
{
    s.to_owned()
}

/// `a` followed by `b`.
pub fn catenate(a: &str, b: &str) -> (r: String)
    ensures
        r@ == a@ + b@,
{
    let mut r = a.to_owned();
    r.append(b);
    r
}

/// Whether two strings hold the same characters.
pub fn str_eq(a: &str, b: &str) -> (r: bool)
    ensures
        r == (a@ == b@),
{
    let x = a.to_owned();
    let y = b.to_owned();
    x == y
}

/// Whether the `len` characters of `a` from `from_a` equal those of `b` from
/// `from_b`.
fn same_run(a: &Vec<char>, from_a: usize, b: &Vec<char>, from_b: usize, len: usize) -> (r: bool)
    requires
        from_a + len <= a.len(),
        from_b + len <= b.len(),
    ensures
        r == (a@.subrange(from_a as int, from_a + len) == b@.subrange(from_b as int, from_b + len)),
{
    let mut i: usize = 0;
    while i < len
        invariant
            i <= len,
            from_a + len <= a.len(),
            from_b + len <= b.len(),
            a@.subrange(from_a as int, from_a + i) == b@.subrange(from_b as int, from_b + i),
        decreases len - i,
    {
        if a[from_a + i] != b[from_b + i] {
            proof {
                let x = a@.subrange(from_a as int, from_a + len);
                let y = b@.subrange(from_b as int, from_b + len);
                assert(x[i as int] != y[i as int]);
            }
            return false;
        }
        proof {
            let x = a@.subrange(from_a as int, from_a + i);
            let y = b@.subrange(from_b as int, from_b + i);
            assert(a@.subrange(from_a as int, from_a + i + 1) =~= x.push(a@[from_a + i]));
            assert(b@.subrange(from_b as int, from_b + i + 1) =~= y.push(b@[from_b + i]));
        }
        i += 1;
    }
    true
}

/// Whether `s` ends with `suffix`.
pub fn ends_with(s: &str, suffix: &str) -> (r: bool)
    ensures
        r == has_suffix(s@, suffix@),
{
    let a = chars_of(s);
    let b = chars_of(suffix);
    if b.len() > a.len() {
        return false;
    }
    let r = same_run(&a, a.len() - b.len(), &b, 0, b.len());
    proof {
        assert(b@.subrange(0, b.len() as int) =~= b@);
        assert(a@.subrange(a.len() - b.len(), a.len() as int) =~= a@.skip(a.len() - b.len()));
    }
    r
}

/// Whether `s` starts with `prefix`.
pub fn starts_with(s: &str, prefix: &str) -> (r: bool)
    ensures
        r == has_prefix(s@, prefix@),
{
    let a = chars_of(s);
    let b = chars_of(prefix);
    if b.len() > a.len() {
        return false;
    }
    let r = same_run(&a, 0, &b, 0, b.len());
    proof {
        assert(b@.subrange(0, b.len() as int) =~= b@);
        assert(a@.subrange(0, b.len() as int) =~= a@.take(b.len() as int));
    }
    r
}

/// The first position at which `needle` occurs in `s`, if it occurs at all.
pub fn find(s: &str, needle: &str) -> (r: Option<usize>)
    ensures
        r is Some <==> has_infix(s@, needle@),
        r matches Some(at) ==> occurs_at(s@, needle@, at as int) && forall|k: int|
            0 <= k < at ==> !occurs_at(s@, needle@, k),
{
    let a = chars_of(s);
    let b = chars_of(needle);
    if b.len() > a.len() {
        assert forall|at: int| !occurs_at(s@, needle@, at) by {}
        return None;
    }
    let last: usize = a.len() - b.len();
    let mut i: usize = 0;
    loop
        invariant
            i <= last,
            last == a.len() - b.len(),
            a@ == s@,
            b@ == needle@,
            forall|k: int| 0 <= k < i ==> !occurs_at(s@, needle@, k),
        decreases last - i,
    {
        let hit = same_run(&a, i, &b, 0, b.len());
        proof {
            assert(b@.subrange(0, b.len() as int) =~= b@);
        }
        if hit {
            assert(occurs_at(s@, needle@, i as int));
            return Some(i);
        }
        if i == last {
            assert forall|at: int| !occurs_at(s@, needle@, at) by {}
            return None;
        }
        i += 1;
    }
}

/// Whether `needle` occurs in `s`.
pub fn contains(s: &str, needle: &str) -> (r: bool)
    ensures
        r == has_infix(s@, needle@),
{
    find(s, needle).is_some()
}

/// `s` with every trailing repetition of `suffix` removed.
pub fn strip_trailing(s: &str, suffix: &str) -> (r: String)
    ensures
        r@ == without_trailing(s@, suffix@),
{
    let a = chars_of(s);
    let b = chars_of(suffix);
    let mut end: usize = a.len();
    assert(s@.take(end as int) =~= s@);
    if b.len() > 0 {
        while end >= b.len() && same_run(&a, end - b.len(), &b, 0, b.len())
            invariant
                end <= a.len(),
                b.len() > 0,
                a@ == s@,
                b@ == suffix@,
                without_trailing(s@, suffix@) == without_trailing(s@.take(end as int), suffix@),
            decreases end,
        {
            proof {
                let cur = s@.take(end as int);
                assert(b@.subrange(0, b.len() as int) =~= b@);
                assert(a@.subrange(end - b.len(), end as int) =~= cur.skip(cur.len() - b.len()));
                assert(has_suffix(cur, suffix@));
                assert(cur.take(cur.len() - b.len()) =~= s@.take(end - b.len()));
            }
            end -= b.len();
        }
        proof {
            let cur = s@.take(end as int);
            if end >= b.len() {
                assert(b@.subrange(0, b.len() as int) =~= b@);
                assert(a@.subrange(end - b.len(), end as int) =~= cur.skip(cur.len() - b.len()));
            }
            assert(!has_suffix(cur, suffix@));
        }
    }
    let r = s.substring_char(0, end);
    assert(s@.subrange(0, end as int) =~= s@.take(end as int));
    owned(r)
}

/// Whether `a` comes before or equals `b` in lexicographic order.
pub fn lex_at_most(a: &str, b: &str) -> (r: bool)
    ensures
        r == lex_le(a@, b@),
{
    let x = chars_of(a);
    let y = chars_of(b);
    let mut i: usize = 0;
    assert(a@.skip(0) =~= a@ && b@.skip(0) =~= b@);
    while i < x.len() && i < y.len()
        invariant
            i <= x.len(),
            i <= y.len(),
            x@ == a@,
            y@ == b@,
            lex_le(a@, b@) == lex_le(a@.skip(i as int), b@.skip(i as int)),
        decreases x.len() - i,
    {
        let p = x[i];
        let q = y[i];
        proof {
            let sa = a@.skip(i as int);
            let sb = b@.skip(i as int);
            assert(sa[0] == p && sb[0] == q);
            assert(sa.skip(1) =~= a@.skip(i + 1));
            assert(sb.skip(1) =~= b@.skip(i + 1));
        }
        if p != q {
            return (p as u32) < (q as u32);
        }
        i += 1;
    }
    i == x.len()
}


/// The first position from `from` on at which `needle` occurs in `s`.
pub open spec fn first_occurrence(s: Seq<char>, needle: Seq<char>, from: int) -> Option<int>
    decreases s.len() - from,
{
    if from < 0 || from + needle.len() > s.len() {
        None
    } else if occurs_at(s, needle, from) {
        Some(from)
    } else if from >= s.len() {
        None
    } else {
        first_occurrence(s, needle, from + 1)
    }
}

/// A position at which `needle` occurs, with no occurrence between `from`
/// and it, is the first occurrence from `from` on; where there is no
/// occurrence from `from` on, there is no first one.
pub proof fn lemma_first_occurrence(s: Seq<char>, needle: Seq<char>, from: int, found: Option<int>)
    requires
        0 <= from,
        match found {
            Some(at) => from <= at && occurs_at(s, needle, at) && forall|k: int|
                from <= k < at ==> !occurs_at(s, needle, k),
            None => forall|k: int| from <= k ==> !occurs_at(s, needle, k),
        },
    ensures
        first_occurrence(s, needle, from) == found,
    decreases s.len() - from,
{
    if from + needle.len() <= s.len() && !occurs_at(s, needle, from) && from < s.len() {
        lemma_first_occurrence(s, needle, from + 1, found);
    }
}

/// `s` with every occurrence of `pattern` replaced by `with`, the
/// occurrences taken from the left and not overlapping.
pub open spec fn replaced(s: Seq<char>, pattern: Seq<char>, with: Seq<char>) -> Seq<char>
    decreases s.len(),
{
    if pattern.len() == 0 {
        s
    } else {
        match first_occurrence(s, pattern, 0) {
            Some(at) => if 0 <= at && at + pattern.len() <= s.len() {
                s.take(at) + with + replaced(s.skip(at + pattern.len()), pattern, with)
            } else {
                s
            },
            None => s,
        }
    }
}

/// What follows the last occurrence of `pattern` in `s`, the occurrences
/// taken from the left and not overlapping; all of `s` where there is
/// none.
pub open spec fn after_last(s: Seq<char>, pattern: Seq<char>) -> Seq<char>
    decreases s.len(),
{
    if pattern.len() == 0 {
        s
    } else {
        match first_occurrence(s, pattern, 0) {
            Some(at) => if 0 <= at && at + pattern.len() <= s.len() {
                after_last(s.skip(at + pattern.len()), pattern)
            } else {
                s
            },
            None => s,
        }
    }
}

/// The first position at which `needle` occurs in `s`.
pub fn position_of(s: &str, needle: &str) -> (r: Option<usize>)
    ensures
        r.is_some() == has_infix(s@, needle@),
        match r {
            Some(at) => first_occurrence(s@, needle@, 0) == Some(at as int) && at + needle@.len()
                <= s@.len(),
            None => first_occurrence(s@, needle@, 0) is None,
        },
{
    let r = find(s, needle);
    proof {
        match r {
            Some(at) => lemma_first_occurrence(s@, needle@, 0, Some(at as int)),
            None => lemma_first_occurrence(s@, needle@, 0, None),
        }
    }
    r
}

/// The characters of `s` from position `from` on; none where `s` is
/// shorter than that.
pub fn tail(s: &str, from: usize) -> (r: String)
    ensures
        from <= s@.len() ==> r@ == s@.skip(from as int),
        from > s@.len() ==> r@ == Seq::<char>::empty(),
{
    let end: usize = s.unicode_len();
    let start: usize = if from <= end {
        from
    } else {
        end
    };
    let rest = s.substring_char(start, end);
    assert(s@.subrange(start as int, end as int) =~= s@.skip(start as int));
    assert(s@.skip(end as int) =~= Seq::<char>::empty());
    owned(rest)
}

/// The first `to` characters of `s`; all of `s` where it is shorter than
/// that.
pub fn head(s: &str, to: usize) -> (r: String)
    ensures
        to <= s@.len() ==> r@ == s@.take(to as int),
        to > s@.len() ==> r@ == s@,
{
    let end: usize = s.unicode_len();
    let stop: usize = if to <= end {
        to
    } else {
        end
    };
    let part = s.substring_char(0, stop);
    assert(s@.subrange(0, stop as int) =~= s@.take(stop as int));
    assert(s@.take(end as int) =~= s@);
    owned(part)
}

/// Replaces every occurrence of `pattern` in `s` by `with`.
pub fn replace_all(s: &str, pattern: &str, with: &str) -> (r: String)
    ensures
        r@ == replaced(s@, pattern@, with@),
{
    let pattern_len: usize = pattern.unicode_len();
    if pattern_len == 0 {
        return owned(s);
    }
    let mut done = owned("");
    let mut rest = owned(s);
    proof {
        reveal_strlit("");
        assert(done@ + replaced(rest@, pattern@, with@) =~= replaced(s@, pattern@, with@));
    }
    loop
        invariant
            pattern_len == pattern@.len(),
            pattern_len > 0,
            done@ + replaced(rest@, pattern@, with@) == replaced(s@, pattern@, with@),
        decreases rest@.len(),
    {
        match position_of(rest.as_str(), pattern) {
            Some(at) => {
                let ghost before = rest@;
                let ghost done_before = done@;
                let total: usize = rest.as_str().unicode_len();
                let kept = head(rest.as_str(), at);
                done.append(kept.as_str());
                done.append(with);
                let next = tail(rest.as_str(), at + pattern_len);
                rest = next;
                proof {
                    assert(done_before + (before.take(at as int) + with@ + replaced(
                        rest@,
                        pattern@,
                        with@,
                    )) =~= done@ + replaced(rest@, pattern@, with@));
                }
            },
            None => {
                done.append(rest.as_str());
                return done;
            },
        }
    }
}

/// What follows the last occurrence of `pattern` in `s`.
pub fn last_after(s: &str, pattern: &str) -> (r: String)
    ensures
        r@ == after_last(s@, pattern@),
{
    let pattern_len: usize = pattern.unicode_len();
    let mut rest = owned(s);
    if pattern_len == 0 {
        return rest;
    }
    loop
        invariant
            pattern_len == pattern@.len(),
            pattern_len > 0,
            after_last(rest@, pattern@) == after_last(s@, pattern@),
        decreases rest@.len(),
    {
        match position_of(rest.as_str(), pattern) {
            Some(at) => {
                let total: usize = rest.as_str().unicode_len();
                let next = tail(rest.as_str(), at + pattern_len);
                rest = next;
            },
            None => {
                return rest;
            },
        }
    }
}

/// The ten digits.
pub open spec fn digits() -> Seq<char> {
    seq!['0', '1', '2', '3', '4', '5', '6', '7', '8', '9']
}

/// `n` in decimal digits.
pub open spec fn decimal(n: nat) -> Seq<char>
    decreases n,
{
    if n < 10 {
        seq![digits()[n as int]]
    } else {
        decimal(n / 10).push(digits()[(n % 10) as int])
    }
}

fn write_decimal(out: &mut String, n: usize)
    ensures
        final(out)@ == old(out)@ + decimal(n as nat),
    decreases n,
{
    let table: [char; 10] = ['0', '1', '2', '3', '4', '5', '6', '7', '8', '9'];
    assert(table@ =~= digits());
    if n >= 10 {
        write_decimal(out, n / 10);
    }
    push_char(out, table[n % 10]);
    assert(out@ =~= old(out)@ + decimal(n as nat));
}

/// Writes `n` in decimal digits.
pub fn to_decimal(n: usize) -> (r: String)
    ensures
        r@ == decimal(n as nat),
{
    let mut out = owned("");
    proof {
        reveal_strlit("");
    }
    write_decimal(&mut out, n);
    assert(out@ =~= decimal(n as nat));
    out
}

/// A string without the white space at its two ends, as the standard
/// library takes it off.
pub uninterp spec fn trimmed(s: Seq<char>) -> Seq<char>;

/// Calls `str::trim`, which takes off leading and trailing characters of
/// the Unicode property `White_Space`. The contract only names the
/// result.
#[verifier::external_body]
pub(crate) fn trim(s: &str) -> (r: String)
    ensures
        r@ == trimmed(s@),
{
    s.trim().to_owned()
}

} // verus!
