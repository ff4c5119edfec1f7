//! Character-level helpers over string views.
use vstd::prelude::*;
use vstd::string::StrSliceExecFns;

verus! {

/// ASCII lower case of one character; every other character is kept.
pub open spec fn ascii_lower(c: char) -> char {
    if 'A' <= c && c <= 'Z' {
        ((c as u8) + 32u8) as u8 as char
    } else {
        c
    }
}

/// ASCII lower case of a whole string.
pub open spec fn lower_seq(s: Seq<char>) -> Seq<char> {
    Seq::new(s.len(), |i: int| ascii_lower(s[i]))
}

/// `suf` is a suffix of `s`.
pub open spec fn ends_with(s: Seq<char>, suf: Seq<char>) -> bool {
    suf.len() <= s.len() && s.subrange(s.len() - suf.len(), s.len() as int) == suf
}

/// `pre` is a prefix of `s`.
pub open spec fn starts_with(s: Seq<char>, pre: Seq<char>) -> bool {
    pre.len() <= s.len() && s.subrange(0, pre.len() as int) == pre
}

/// Relies on `str::to_ascii_lowercase`: each of 'A'..='Z' becomes its lower
/// case letter, every other character is kept.
#[verifier::external_body]
pub(crate) fn to_ascii_lowercase(s: &str) -> (r: String)
    ensures
        r@ == lower_seq(s@),
{
    s.to_ascii_lowercase()
}

/// Whether `s` ends with `t` with its first `skip` characters left out.
pub fn ends_with_from(s: &str, t: &str, skip: usize) -> (r: bool)
    requires
        skip <= t@.len(),
    ensures
        r == ends_with(s@, t@.subrange(skip as int, t@.len() as int)),
{
    let n = s.unicode_len();
    let m = t.unicode_len();
    let k = m - skip;
    if k > n {
        return false;
    }
    let base = n - k;
    let mut i: usize = 0;
    while i < k
        invariant
            n == s@.len(),
            m == t@.len(),
            k == m - skip,
            base == n - k,
            skip <= m,
            k <= n,
            i <= k,
            forall|j: int| 0 <= j < i ==> #[trigger] s@[base + j] == t@[skip + j],
        decreases k - i,
    {
        if s.get_char(base + i) != t.get_char(skip + i) {
            proof {
                let suf = t@.subrange(skip as int, m as int);
                assert(s@.subrange(base as int, n as int)[i as int] != suf[i as int]);
            }
            return false;
        }
        i = i + 1;
    }
    proof {
        let suf = t@.subrange(skip as int, m as int);
        assert forall|j: int| 0 <= j < k implies s@.subrange(base as int, n as int)[j] == suf[j] by {
            assert(s@[base + j] == t@[skip + j]);
        }
        assert(s@.subrange(base as int, n as int) =~= suf);
    }
    true
}

/// Whether `s` is `t` with one more label in front: it ends with `"." + t`.
pub fn ends_with_dot_label(s: &str, t: &str) -> (r: bool)
    ensures
        r == ends_with(s@, seq!['.'] + t@),
{
    let n = s.unicode_len();
    let m = t.unicode_len();
    if m >= n {
        proof {
            assert((seq!['.'] + t@).len() > s@.len());
        }
        return false;
    }
    let dot = s.get_char(n - m - 1) == '.';
    let tail = ends_with_from(s, t, 0);
    proof {
        let w = seq!['.'] + t@;
        assert(t@.subrange(0, m as int) =~= t@);
        let sub = s@.subrange(n - m - 1, n as int);
        if dot && tail {
            assert(sub =~= w) by {
                assert forall|j: int| 0 <= j < w.len() implies sub[j] == w[j] by {
                    if j > 0 {
                        assert(s@.subrange(n - m, n as int)[j - 1] == t@[j - 1]);
                    }
                }
            }
        }
        if sub == w {
            assert(sub[0] == '.');
            assert(s@.subrange(n - m, n as int) =~= t@) by {
                assert forall|j: int| 0 <= j < m implies s@.subrange(n - m, n as int)[j] == t@[j] by {
                    assert(sub[j + 1] == w[j + 1]);
                }
            }
        }
    }
    dot && tail
}

} // verus!

verus! {

/// Whether two strings hold the same characters.
pub fn same_text(a: &str, b: &str) -> (r: bool)
    ensures
        r == (a@ == b@),
{
    let n = a.unicode_len();
    if n != b.unicode_len() {
        return false;
    }
    let mut i: usize = 0;
    while i < n
        invariant
            n == a@.len(),
            n == b@.len(),
            i <= n,
            forall|j: int| 0 <= j < i ==> #[trigger] a@[j] == b@[j],
        decreases n - i,
    {
        if a.get_char(i) != b.get_char(i) {
            return false;
        }
        i = i + 1;
    }
    proof {
        assert(a@ =~= b@);
    }
    true
}

/// A suffix of `a + b` that is at least as long as `b` ends with `b`.
pub proof fn lemma_ends_with_concat(s: Seq<char>, a: Seq<char>, b: Seq<char>)
    requires
        ends_with(s, a + b),
    ensures
        ends_with(s, b),
{
    let w = a + b;
    let n = s.len();
    assert forall|j: int| 0 <= j < b.len() implies s.subrange(n - b.len(), n as int)[j] == b[j] by {
        assert(s.subrange(n - w.len(), n as int)[a.len() + j] == w[a.len() + j]);
    }
    assert(s.subrange(n - b.len(), n as int) =~= b);
}

} // verus!

verus! {

/// ASCII lower case changes nothing the second time.
pub proof fn lemma_lower_idempotent(s: Seq<char>)
    ensures
        lower_seq(lower_seq(s)) == lower_seq(s),
{
    assert forall|i: int| 0 <= i < s.len() implies #[trigger] ascii_lower(ascii_lower(s[i])) == ascii_lower(s[i]) by {
        let c = s[i];
        if 'A' <= c && c <= 'Z' {
            let x = ((c as u8) + 32u8) as u8;
            assert(x >= 97 && x <= 122);
            assert((x as char) as u32 == x as u32);
        }
    }
    assert(lower_seq(lower_seq(s)) =~= lower_seq(s));
}

} // verus!

verus! {

/// A character with the Unicode `White_Space` property, as
/// `char::is_whitespace` tests it.
pub open spec fn is_white(c: char) -> bool {
    ('\u{9}' <= c && c <= '\u{d}') || c == ' ' || c == '\u{85}' || c == '\u{a0}' || c == '\u{1680}'
        || ('\u{2000}' <= c && c <= '\u{200a}') || c == '\u{2028}' || c == '\u{2029}'
        || c == '\u{202f}' || c == '\u{205f}' || c == '\u{3000}'
}

/// `s` without its leading white space.
pub open spec fn trim_start_seq(s: Seq<char>) -> Seq<char>
    decreases s.len(),
{
    if s.len() > 0 && is_white(s[0]) {
        trim_start_seq(s.drop_first())
    } else {
        s
    }
}

/// `s` without its trailing white space.
pub open spec fn trim_end_seq(s: Seq<char>) -> Seq<char>
    decreases s.len(),
{
    if s.len() > 0 && is_white(s.last()) {
        trim_end_seq(s.drop_last())
    } else {
        s
    }
}

/// `s` without leading and trailing white space.
pub open spec fn trimmed(s: Seq<char>) -> Seq<char> {
    trim_end_seq(trim_start_seq(s))
}

/// Relies on `str::trim`: the text without the leading and trailing
/// characters for which `char::is_whitespace` holds.
#[verifier::external_body]
pub(crate) fn trim_text(s: &str) -> (r: &str)
    ensures
        r@ == trimmed(s@),
{
    s.trim()
}

} // verus!
