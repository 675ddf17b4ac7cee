//! Verified character-level text utilities: the rest of the crate states its
//! contracts over `Seq<char>` views, and these functions bridge between
//! `&str` / `String` values and those views.

use vstd::prelude::*;
use vstd::string::StrSliceExecFns;

verus! {

/// `needle` occurs as a contiguous run inside `hay`.
pub open spec fn seq_contains(hay: Seq<char>, needle: Seq<char>) -> bool {
    exists|i: int|
        0 <= i && i + needle.len() <= hay.len() && #[trigger] hay.subrange(i, i + needle.len())
            == needle
}

/// `suffix` ends `s`.
pub open spec fn seq_ends_with(s: Seq<char>, suffix: Seq<char>) -> bool {
    suffix.len() <= s.len() && s.subrange(s.len() - suffix.len(), s.len() as int) == suffix
}

/// `prefix` begins `s`.
pub open spec fn seq_starts_with(s: Seq<char>, prefix: Seq<char>) -> bool {
    prefix.len() <= s.len() && s.subrange(0, prefix.len() as int) == prefix
}

/// Whitespace, as far as the condition grammar is concerned.
pub open spec fn is_ws(c: char) -> bool {
    c == ' ' || c == '\t' || c == '\r' || c == '\n'
}

/// Whitespace test, the executable face of `is_ws`.
pub fn ws(c: char) -> (r: bool)
    ensures
        r == is_ws(c),
{
    c == ' ' || c == '\t' || c == '\r' || c == '\n'
}

/// The characters of `s`, one by one.
pub fn chars_of(s: &str) -> (r: Vec<char>)
    ensures
        r@ == s@,
{
    let n = s.unicode_len();
    let mut r: Vec<char> = Vec::new();
    let mut i: usize = 0;
    while i < n
        invariant
            i <= n,
            n == s@.len(),
            r@ == s@.take(i as int),
        decreases n - i,
    {
        r.push(s.get_char(i));
        i = i + 1;
        proof {
            assert(r@ =~= s@.take(i as int));
        }
    }
    proof {
        assert(s@.take(n as int) =~= s@);
    }
    r
}

/// Relies on `String::push`: appends exactly the given character.
#[verifier::external_body]
pub fn push_char(s: &mut String, c: char)
    ensures
        final(s)@ == old(s)@.push(c),
{
    s.push(c);
}

/// A `String` holding exactly the given characters.
pub fn string_of(cs: &Vec<char>) -> (r: String)
    ensures
        r@ == cs@,
{
    let mut r = String::new();
    let mut i: usize = 0;
    while i < cs.len()
        invariant
            i <= cs@.len(),
            r@ == cs@.take(i as int),
        decreases cs@.len() - i,
    {
        push_char(&mut r, cs[i]);
        i = i + 1;
        proof {
            assert(r@ =~= cs@.take(i as int));
        }
    }
    proof {
        assert(cs@.take(cs@.len() as int) =~= cs@);
    }
    r
}

/// The characters of `cs` between `from` (inclusive) and `to` (exclusive).
pub fn subvec(cs: &Vec<char>, from: usize, to: usize) -> (r: Vec<char>)
    requires
        from <= to <= cs@.len(),
    ensures
        r@ == cs@.subrange(from as int, to as int),
{
    let mut r: Vec<char> = Vec::new();
    let mut i: usize = from;
    while i < to
        invariant
            from <= i <= to <= cs@.len(),
            r@ == cs@.subrange(from as int, i as int),
        decreases to - i,
    {
        r.push(cs[i]);
        i = i + 1;
        proof {
            assert(r@ =~= cs@.subrange(from as int, i as int));
        }
    }
    r
}

/// Character-for-character equality of two vectors.
pub fn vec_eq(a: &Vec<char>, b: &Vec<char>) -> (r: bool)
    ensures
        r == (a@ == b@),
{
    if a.len() != b.len() {
        return false;
    }
    let mut i: usize = 0;
    while i < a.len()
        invariant
            i <= a@.len(),
            a@.len() == b@.len(),
            forall|k: int| 0 <= k < i ==> a@[k] == b@[k],
        decreases a@.len() - i,
    {
        if a[i] != b[i] {
            return false;
        }
        i = i + 1;
    }
    proof {
        assert(a@ =~= b@);
    }
    true
}

/// Character-for-character equality of two string slices.
pub fn str_eq(a: &str, b: &str) -> (r: bool)
    ensures
        r == (a@ == b@),
{
    let ca = chars_of(a);
    let cb = chars_of(b);
    vec_eq(&ca, &cb)
}

/// Whether `w` occurs in `cs` starting at position `i`.
pub fn occurs_at(cs: &Vec<char>, i: usize, w: &Vec<char>) -> (r: bool)
    requires
        i <= cs@.len(),
    ensures
        r == (i + w@.len() <= cs@.len() && cs@.subrange(i as int, i + w@.len()) == w@),
{
    let n = cs.len();
    let m = w.len();
    if n - i < m {
        return false;
    }
    let mut j: usize = 0;
    while j < m
        invariant
            j <= m,
            m == w@.len(),
            n == cs@.len(),
            i + m <= n,
            forall|k: int| 0 <= k < j ==> cs@[i + k] == w@[k],
        decreases m - j,
    {
        if cs[i + j] != w[j] {
            proof {
                assert(cs@.subrange(i as int, i + w@.len())[j as int] == cs@[i + j]);
            }
            return false;
        }
        j = j + 1;
    }
    proof {
        assert(cs@.subrange(i as int, i + w@.len()) =~= w@);
    }
    true
}

/// Whether `w` begins the suffix of `cs` that starts at `i`.
pub fn starts_with_at(cs: &Vec<char>, i: usize, w: &Vec<char>) -> (r: bool)
    requires
        i <= cs@.len(),
    ensures
        r == seq_starts_with(cs@.skip(i as int), w@),
{
    if cs.len() - i < w.len() {
        return false;
    }
    let r = occurs_at(cs, i, w);
    proof {
        assert(cs@.skip(i as int).subrange(0, w@.len() as int) =~= cs@.subrange(
            i as int,
            i + w@.len(),
        ));
    }
    r
}

/// Substring search: whether `needle` occurs anywhere in `hay`.
pub fn vec_contains_sub(hay: &Vec<char>, needle: &Vec<char>) -> (r: bool)
    ensures
        r == seq_contains(hay@, needle@),
{
    if needle.len() == 0 {
        proof {
            assert(hay@.subrange(0, 0 + needle@.len() as int) =~= needle@);
        }
        return true;
    }
    if needle.len() > hay.len() {
        return false;
    }
    let n = hay.len();
    let mut i: usize = 0;
    while i < n
        invariant
            n == hay@.len(),
            needle@.len() >= 1,
            i <= n,
            forall|k: int|
                0 <= k < i ==> !(k + needle@.len() <= hay@.len() && #[trigger] hay@.subrange(
                    k,
                    k + needle@.len(),
                ) == needle@),
        decreases n - i,
    {
        if occurs_at(hay, i, needle) {
            return true;
        }
        i = i + 1;
    }
    false
}

/// Substring search over string slices.
pub fn str_contains(hay: &str, needle: &str) -> (r: bool)
    ensures
        r == seq_contains(hay@, needle@),
{
    let h = chars_of(hay);
    let n = chars_of(needle);
    vec_contains_sub(&h, &n)
}

/// Suffix test over string slices.
pub fn str_ends_with(s: &str, suffix: &str) -> (r: bool)
    ensures
        r == seq_ends_with(s@, suffix@),
{
    let cs = chars_of(s);
    let ce = chars_of(suffix);
    if ce.len() > cs.len() {
        return false;
    }
    let tail = subvec(&cs, cs.len() - ce.len(), cs.len());
    vec_eq(&tail, &ce)
}

/// Prefix test over character vectors.
pub fn vec_starts_with(s: &Vec<char>, prefix: &Vec<char>) -> (r: bool)
    ensures
        r == seq_starts_with(s@, prefix@),
{
    if prefix.len() > s.len() {
        return false;
    }
    let head = subvec(s, 0, prefix.len());
    vec_eq(&head, prefix)
}

/// Splitting on a separator, where each separator occurrence ends a segment;
/// the result always holds one more segment than there are separators.
pub open spec fn spec_split(s: Seq<char>, sep: char) -> Seq<Seq<char>>
    decreases s.len(),
{
    if s.len() == 0 {
        seq![Seq::<char>::empty()]
    } else if s[0] == sep {
        seq![Seq::<char>::empty()] + spec_split(s.drop_first(), sep)
    } else {
        let r = spec_split(s.drop_first(), sep);
        seq![seq![s[0]] + r[0]] + r.drop_first()
    }
}

pub proof fn lemma_spec_split_len(s: Seq<char>, sep: char)
    ensures
        spec_split(s, sep).len() >= 1,
    decreases s.len(),
{
    if s.len() > 0 {
        lemma_spec_split_len(s.drop_first(), sep);
    }
}

/// Splits the characters of `cs` from position `i` on, on `sep`.
fn split_rec(cs: &Vec<char>, i: usize, sep: char) -> (r: Vec<Vec<char>>)
    requires
        i <= cs@.len(),
    ensures
        r@.len() == spec_split(cs@.skip(i as int), sep).len(),
        forall|k: int|
            0 <= k < r@.len() ==> r@[k]@ == spec_split(cs@.skip(i as int), sep)[k],
    decreases cs@.len() - i,
{
    proof {
        lemma_spec_split_len(cs@.skip(i as int), sep);
    }
    if i == cs.len() {
        let mut r: Vec<Vec<char>> = Vec::new();
        r.push(Vec::new());
        proof {
            assert(cs@.skip(i as int) =~= Seq::<char>::empty());
        }
        r
    } else {
        let c = cs[i];
        let mut rest = split_rec(cs, i + 1, sep);
        proof {
            assert(cs@.skip(i as int).drop_first() =~= cs@.skip(i + 1));
            assert(cs@.skip(i as int)[0] == cs@[i as int]);
            lemma_spec_split_len(cs@.skip(i + 1), sep);
        }
        if c == sep {
            rest.insert(0, Vec::new());
            proof {
                let full = spec_split(cs@.skip(i as int), sep);
                assert(forall|k: int|
                    1 <= k < full.len() ==> full[k] == spec_split(cs@.skip(i + 1), sep)[k - 1]);
            }
            rest
        } else {
            let mut head = rest.remove(0);
            head.insert(0, c);
            rest.insert(0, head);
            proof {
                let full = spec_split(cs@.skip(i as int), sep);
                let sub = spec_split(cs@.skip(i + 1), sep);
                assert(full[0] == seq![cs@[i as int]] + sub[0]);
                assert(rest@[0]@ =~= seq![cs@[i as int]] + sub[0]);
                assert(forall|k: int| 1 <= k < full.len() ==> full[k] == sub[k]);
            }
            rest
        }
    }
}

/// Splits a string slice on a separator character.
pub fn split_str(s: &str, sep: char) -> (r: Vec<Vec<char>>)
    ensures
        r@.len() == spec_split(s@, sep).len(),
        forall|k: int| 0 <= k < r@.len() ==> r@[k]@ == spec_split(s@, sep)[k],
        r@.len() >= 1,
{
    let cs = chars_of(s);
    proof {
        assert(cs@.skip(0) =~= cs@);
        lemma_spec_split_len(cs@, sep);
    }
    split_rec(&cs, 0, sep)
}

} // verus!
