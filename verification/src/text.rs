//! Case-insensitive substring matching on entry names.
//!
//! Lower-casing is delegated to the standard library and named by the
//! uninterpreted function [`lower_of`]; the substring search itself is
//! verified here, character by character.

use vstd::prelude::*;
use vstd::string::StrSliceExecFns;

verus! {

/// The sequence of characters that `str::to_lowercase` produces for `s`.
/// The result depends on the characters of `s` alone.
pub uninterp spec fn lower_of(s: Seq<char>) -> Seq<char>;

/// Relies on `str::to_lowercase`: the lower-case equivalent of `s`, a pure
/// function of the characters of `s`.
#[verifier::external_body]
pub fn to_lower(s: &str) -> (r: String)
    ensures
        r@ == lower_of(s@),
{
    s.to_lowercase()
}

/// The characters of `s`, collected into a vector.
pub fn chars_vec(s: &str) -> (r: Vec<char>)
    ensures
        r@ == s@,
{
    let n = s.unicode_len();
    let mut r: Vec<char> = Vec::new();
    let mut i: usize = 0;
    while i < n
        invariant
            i <= n,
            n == s@.len(),
            r@ == s@.take(i as int),
        decreases n - i,
    {
        let c = s.get_char(i);
        r.push(c);
        proof {
            assert(r@ =~= s@.take(i as int + 1));
        }
        i += 1;
    }
    proof {
        assert(r@ =~= s@);
    }
    r
}

/// The lower-cased characters of `s`.
pub fn lower_chars(s: &str) -> (r: Vec<char>)
    ensures
        r@ == lower_of(s@),
{
    let low = to_lower(s);
    chars_vec(low.as_str())
}

/// Relies on `String::push`: appends the character at the end of the string.
#[verifier::external_body]
pub fn push_char(s: &mut String, c: char)
    ensures
        final(s)@ == old(s)@.push(c),
{
    s.push(c)
}

/// Relies on `String::pop`: removes the last character and returns it, or
/// returns `None` and leaves the string alone when it is empty.
#[verifier::external_body]
pub fn pop_char(s: &mut String) -> (r: Option<char>)
    ensures
        old(s)@.len() == 0 ==> final(s)@ == old(s)@ && r is None,
        old(s)@.len() > 0 ==> final(s)@ == old(s)@.drop_last() && r == Some(old(s)@.last()),
{
    s.pop()
}

/// `k` occurs in `t` starting at position `i`.
pub open spec fn contains_at(t: Seq<char>, k: Seq<char>, i: int) -> bool {
    0 <= i && i + k.len() <= t.len() && t.subrange(i, i + k.len()) == k
}

/// `k` is a contiguous substring of `t`. The empty sequence is a substring of
/// everything.
pub open spec fn is_substring(k: Seq<char>, t: Seq<char>) -> bool {
    exists|i: int| contains_at(t, k, i)
}

/// Whether `k` occurs as a contiguous substring of `t`.
pub fn contains_chars(t: &Vec<char>, k: &Vec<char>) -> (r: bool)
    ensures
        r == is_substring(k@, t@),
{
    let n = t.len();
    let m = k.len();
    if m == 0 {
        proof {
            assert(t@.subrange(0, 0) =~= k@);
            assert(contains_at(t@, k@, 0));
        }
        return true;
    }
    if m > n {
        proof {
            assert(forall|i: int| !contains_at(t@, k@, i));
        }
        return false;
    }
    let mut i: usize = 0;
    while i <= n - m
        invariant
            1 <= m <= n,
            n == t@.len(),
            m == k@.len(),
            i <= n - m + 1,
            forall|p: int| 0 <= p < i ==> !contains_at(t@, k@, p),
        decreases n - m + 1 - i,
    {
        let mut j: usize = 0;
        let mut matched = true;
        while j < m
            invariant
                m <= n,
                n == t@.len(),
                m == k@.len(),
                i <= n - m,
                j <= m,
                matched ==> forall|l: int| 0 <= l < j ==> t@[i + l] == k@[l],
                !matched ==> !contains_at(t@, k@, i as int),
            decreases m - j,
        {
            if t[i + j] != k[j] {
                proof {
                    if contains_at(t@, k@, i as int) {
                        assert(t@.subrange(i as int, i + m)[j as int] == k@[j as int]);
                    }
                }
                matched = false;
                j = m;
            } else {
                j += 1;
            }
        }
        if matched {
            proof {
                assert(forall|l: int| 0 <= l < m ==> #[trigger] t@.subrange(i as int, i + m)[l] == t@[i + l]);
                assert(t@.subrange(i as int, i + m) =~= k@);
                assert(contains_at(t@, k@, i as int));
            }
            return true;
        }
        i += 1;
    }
    proof {
        assert(forall|p: int| !contains_at(t@, k@, p));
    }
    false
}

} // verus!
