//! Appending path segments to a URL held as text.
use vstd::prelude::*;
use vstd::string::{StrSliceExecFns, StringExecFns};

verus! {

/// Index of the first `?` in `s`.
pub open spec fn first_question(s: Seq<char>) -> Option<nat>
    decreases s.len(),
{
    if s.len() == 0 {
        None
    } else if s[0] == '?' {
        Some(0)
    } else {
        match first_question(s.drop_first()) {
            Some(k) => Some(k + 1),
            None => None,
        }
    }
}

/// Number of `/` at the start of `s`.
pub open spec fn leading_slashes(s: Seq<char>) -> nat
    decreases s.len(),
{
    if s.len() > 0 && s[0] == '/' {
        1 + leading_slashes(s.drop_first())
    } else {
        0
    }
}

/// `base`, a `/` unless it already ends with one, and `segment` without its
/// leading slashes.
pub open spec fn joined_path(base: Seq<char>, segment: Seq<char>) -> Seq<char> {
    let seg = segment.subrange(leading_slashes(segment) as int, segment.len() as int);
    if base.len() > 0 && base.last() == '/' {
        base + seg
    } else {
        base + seq!['/'] + seg
    }
}

/// The URL text with one segment appended to its path: the part before the
/// first `?` gets the segment, and a non-empty query after that `?` is put
/// back after it.
pub open spec fn with_segment(url: Seq<char>, segment: Seq<char>) -> Seq<char> {
    match first_question(url) {
        None => joined_path(url, segment),
        Some(q) => {
            let path = url.subrange(0, q as int);
            let query = url.subrange(q as int + 1, url.len() as int);
            if query.len() == 0 {
                joined_path(path, segment)
            } else {
                joined_path(path, segment) + seq!['?'] + query
            }
        },
    }
}

/// The URL text with the segments appended in order.
pub open spec fn with_segments(url: Seq<char>, segments: Seq<Seq<char>>) -> Seq<char>
    decreases segments.len(),
{
    if segments.len() == 0 {
        url
    } else {
        with_segment(with_segments(url, segments.drop_last()), segments.last())
    }
}

pub open spec fn str_views(ss: Seq<&str>) -> Seq<Seq<char>> {
    ss.map_values(|s: &str| s@)
}

proof fn lemma_first_question(s: Seq<char>, i: int)
    requires
        0 <= i <= s.len(),
        forall|j: int| 0 <= j < i ==> s[j] != '?',
        i < s.len() ==> s[i] == '?',
    ensures
        first_question(s) == if i < s.len() { Some(i as nat) } else { None },
    decreases i,
{
    if i > 0 {
        let t = s.drop_first();
        assert forall|j: int| 0 <= j < i - 1 implies t[j] != '?' by {
            assert(t[j] == s[j + 1]);
        }
        if i < s.len() {
            assert(t[i - 1] == s[i]);
        }
        lemma_first_question(t, i - 1);
    }
}

proof fn lemma_leading_slashes(s: Seq<char>, i: int)
    requires
        0 <= i <= s.len(),
        forall|j: int| 0 <= j < i ==> s[j] == '/',
        i < s.len() ==> s[i] != '/',
    ensures
        leading_slashes(s) == i,
    decreases i,
{
    if i > 0 {
        let t = s.drop_first();
        assert forall|j: int| 0 <= j < i - 1 implies t[j] == '/' by {
            assert(t[j] == s[j + 1]);
        }
        if i < s.len() {
            assert(t[i - 1] == s[i]);
        }
        lemma_leading_slashes(t, i - 1);
    }
}

/// `base` joined with `segment` as a path.
fn join_path(base: &str, segment: &str) -> (r: String)
    ensures
        r@ == joined_path(base@, segment@),
{
    let n = segment.unicode_len();
    let mut k: usize = 0;
    while k < n && segment.get_char(k) == '/'
        invariant
            n == segment@.len(),
            k <= n,
            forall|j: int| 0 <= j < k ==> segment@[j] == '/',
        decreases n - k,
    {
        k = k + 1;
    }
    proof {
        lemma_leading_slashes(segment@, k as int);
    }
    let seg = segment.substring_char(k, n);
    let b = base.unicode_len();
    let mut out = String::from_str(base);
    if !(b > 0 && base.get_char(b - 1) == '/') {
        out.append("/");
    }
    out.append(seg);
    proof {
        reveal_strlit("/");
        assert(out@ =~= joined_path(base@, segment@));
    }
    out
}

/// Appends one segment to the path of the URL text `url`.
pub fn add_segment(url: &str, segment: &str) -> (r: String)
    ensures
        r@ == with_segment(url@, segment@),
{
    let n = url.unicode_len();
    let mut i: usize = 0;
    while i < n && url.get_char(i) != '?'
        invariant
            n == url@.len(),
            i <= n,
            forall|j: int| 0 <= j < i ==> url@[j] != '?',
        decreases n - i,
    {
        i = i + 1;
    }
    proof {
        lemma_first_question(url@, i as int);
    }
    if i == n {
        join_path(url, segment)
    } else {
        let path = url.substring_char(0, i);
        let query = url.substring_char(i + 1, n);
        let mut out = join_path(path, segment);
        if query.unicode_len() > 0 {
            out.append("?");
            out.append(query);
            proof {
                reveal_strlit("?");
            }
        }
        proof {
            assert(out@ =~= with_segment(url@, segment@));
        }
        out
    }
}

/// Appends the segments in order to the path of the URL text `url`.
pub fn add_segments(url: &str, segments: &[&str]) -> (r: String)
    ensures
        r@ == with_segments(url@, str_views(segments@)),
{
    let mut out = String::from_str(url);
    let mut i: usize = 0;
    while i < segments.len()
        invariant
            i <= segments@.len(),
            out@ == with_segments(url@, str_views(segments@).subrange(0, i as int)),
        decreases segments@.len() - i,
    {
        proof {
            let pre = str_views(segments@).subrange(0, i as int + 1);
            assert(pre.drop_last() =~= str_views(segments@).subrange(0, i as int));
            assert(pre.last() == segments@[i as int]@);
        }
        out = add_segment(out.as_str(), segments[i]);
        i = i + 1;
    }
    proof {
        assert(str_views(segments@).subrange(0, segments@.len() as int) =~= str_views(segments@));
    }
    out
}

/// Appends path segments to a URL held as text.
pub trait StringUrlBuilderTrait: Sized {
    /// The text of the URL.
    spec fn url_text(&self) -> Seq<char>;

    /// Appends a segment to the path, before any query: a `/` goes between
    /// unless the path already ends with one, and the segment's own leading
    /// slashes are dropped.
    fn add_url_segment(self, segment: &str) -> (r: String)
        ensures
            r@ == with_segment(self.url_text(), segment@),
    ;

    /// Appends the segments in order.
    fn add_url_segments(self, segments: &[&str]) -> (r: String)
        ensures
            r@ == with_segments(self.url_text(), str_views(segments@)),
    ;
}

impl StringUrlBuilderTrait for String {
    open spec fn url_text(&self) -> Seq<char> {
        self@
    }

    fn add_url_segment(self, segment: &str) -> (r: String) {
        add_segment(self.as_str(), segment)
    }

    fn add_url_segments(self, segments: &[&str]) -> (r: String) {
        add_segments(self.as_str(), segments)
    }
}

impl<'a> StringUrlBuilderTrait for &'a str {
    open spec fn url_text(&self) -> Seq<char> {
        (*self)@
    }

    fn add_url_segment(self, segment: &str) -> (r: String) {
        add_segment(self, segment)
    }

    fn add_url_segments(self, segments: &[&str]) -> (r: String) {
        add_segments(self, segments)
    }
}

} // verus!
