//! Root-certificate input handling.
//!
//! A root-certificate source is classified once, at construction from a
//! string: if the trimmed content starts with a PEM `BEGIN CERTIFICATE`
//! marker and contains a matching `END CERTIFICATE` marker, the string is
//! the certificate itself; otherwise it is taken as a filesystem path whose
//! contents are decoded at load time. Classification never fails: a
//! malformed PEM string still resolves to a path and fails later, where I/O
//! errors surface.

use vstd::prelude::*;
use vstd::string::StrSliceExecFns;

verus! {

/// A character that trimming removes at either end of the input: the
/// Unicode `White_Space` set.
pub open spec fn is_ws_char(c: char) -> bool {
    let u = c as u32;
    u == 0x09 || u == 0x0A || u == 0x0B || u == 0x0C || u == 0x0D || u == 0x20 || u == 0x85
        || u == 0xA0 || u == 0x1680 || (0x2000 <= u && u <= 0x200A) || u == 0x2028 || u == 0x2029
        || u == 0x202F || u == 0x205F || u == 0x3000
}

/// The characters of the PEM header marker.
pub open spec fn begin_marker() -> Seq<char> {
    "-----BEGIN CERTIFICATE-----"@
}

/// The characters of the PEM footer marker.
pub open spec fn end_marker() -> Seq<char> {
    "-----END CERTIFICATE-----"@
}

/// The UTF-8 bytes of a string value.
pub open spec fn str_bytes_of(s: Seq<char>) -> Seq<u8> {
    vstd::utf8::encode_utf8(s)
}

/// `lo..hi` is the window that trimming whitespace from both ends of `s`
/// leaves. The empty window is pinned to `0..0` so the bounds are unique.
pub open spec fn spec_trim_ok(s: Seq<char>, lo: int, hi: int) -> bool {
    &&& 0 <= lo <= hi <= s.len()
    &&& forall|i: int| 0 <= i < lo ==> is_ws_char(s[i])
    &&& forall|i: int| hi <= i < s.len() ==> is_ws_char(s[i])
    &&& lo < hi ==> !is_ws_char(s[lo]) && !is_ws_char(s[hi - 1])
    &&& lo == hi ==> lo == 0
}

/// The content of `s` with whitespace trimmed from both ends.
pub open spec fn spec_trimmed(s: Seq<char>) -> Seq<char> {
    let (lo, hi) = choose|lo: int, hi: int| spec_trim_ok(s, lo, hi);
    s.subrange(lo, hi)
}

/// `p` is a prefix of `s`.
pub open spec fn spec_starts_with(s: Seq<char>, p: Seq<char>) -> bool {
    p.len() <= s.len() && s.subrange(0, p.len() as int) == p
}

/// `p` occurs somewhere inside `s`.
pub open spec fn spec_contains_seq(s: Seq<char>, p: Seq<char>) -> bool {
    exists|i: int| 0 <= i && i + p.len() <= s.len() && #[trigger] s.subrange(i, i + p.len() as int)
        == p
}

/// The classification heuristic: the trimmed content starts with the PEM
/// header marker and contains the footer marker.
pub open spec fn spec_is_inline_pem(s: Seq<char>) -> bool {
    spec_starts_with(spec_trimmed(s), begin_marker()) && spec_contains_seq(
        spec_trimmed(s),
        end_marker(),
    )
}

/// The trim window of a character sequence is unique.
proof fn lemma_trim_unique(s: Seq<char>, lo1: int, hi1: int, lo2: int, hi2: int)
    requires
        spec_trim_ok(s, lo1, hi1),
        spec_trim_ok(s, lo2, hi2),
    ensures
        lo1 == lo2,
        hi1 == hi2,
{
    if lo1 == hi1 && lo2 == hi2 {
    } else if lo1 == hi1 {
        assert(!is_ws_char(s[lo2]));
        assert(is_ws_char(s[lo2]));
    } else if lo2 == hi2 {
        assert(!is_ws_char(s[lo1]));
        assert(is_ws_char(s[lo1]));
    } else {
        if lo1 < lo2 {
            assert(is_ws_char(s[lo1]));
            assert(!is_ws_char(s[lo1]));
        }
        if lo2 < lo1 {
            assert(is_ws_char(s[lo2]));
            assert(!is_ws_char(s[lo2]));
        }
        if hi1 < hi2 {
            assert(is_ws_char(s[hi2 - 1]));
            assert(!is_ws_char(s[hi2 - 1]));
        }
        if hi2 < hi1 {
            assert(is_ws_char(s[hi1 - 1]));
            assert(!is_ws_char(s[hi1 - 1]));
        }
    }
}

/// A trim window pins down `spec_trimmed`.
proof fn lemma_trimmed_is(s: Seq<char>, lo: int, hi: int)
    requires
        spec_trim_ok(s, lo, hi),
    ensures
        spec_trimmed(s) == s.subrange(lo, hi),
{
    let (lo2, hi2) = choose|lo2: int, hi2: int| spec_trim_ok(s, lo2, hi2);
    lemma_trim_unique(s, lo, hi, lo2, hi2);
}

fn is_ws_char_exec(c: char) -> (r: bool)
    ensures
        r == is_ws_char(c),
{
    let u = c as u32;
    u == 0x09 || u == 0x0A || u == 0x0B || u == 0x0C || u == 0x0D || u == 0x20 || u == 0x85
        || u == 0xA0 || u == 0x1680 || (0x2000 <= u && u <= 0x200A) || u == 0x2028 || u == 0x2029
        || u == 0x202F || u == 0x205F || u == 0x3000
}

/// The characters of a string, in order.
fn chars_of(s: &str) -> (r: Vec<char>)
    ensures
        r@ == s@,
{
    let n = s.unicode_len();
    let mut r: Vec<char> = Vec::new();
    let mut i: usize = 0;
    while i < n
        invariant
            n == s@.len(),
            i <= n,
            r@ == s@.take(i as int),
        decreases n - i,
    {
        let c = s.get_char(i);
        r.push(c);
        proof {
            assert(r@ =~= s@.take(i + 1));
        }
        i = i + 1;
    }
    proof {
        assert(r@ =~= s@);
    }
    r
}

fn first_non_ws(v: &[char]) -> (r: usize)
    ensures
        r <= v@.len(),
        forall|i: int| 0 <= i < r ==> is_ws_char(v@[i]),
        r < v@.len() ==> !is_ws_char(v@[r as int]),
{
    let n = v.len();
    let mut i: usize = 0;
    while i < n
        invariant
            n == v@.len(),
            i <= n,
            forall|j: int| 0 <= j < i ==> is_ws_char(v@[j]),
        decreases n - i,
    {
        if !is_ws_char_exec(v[i]) {
            return i;
        }
        i = i + 1;
    }
    i
}

fn last_non_ws(v: &[char]) -> (r: usize)
    ensures
        r <= v@.len(),
        forall|i: int| r <= i < v@.len() ==> is_ws_char(v@[i]),
        r > 0 ==> !is_ws_char(v@[r - 1]),
{
    let n = v.len();
    let mut i: usize = n;
    while i > 0
        invariant
            n == v@.len(),
            i <= n,
            forall|j: int| i <= j < n ==> is_ws_char(v@[j]),
        decreases i,
    {
        if !is_ws_char_exec(v[i - 1]) {
            return i;
        }
        i = i - 1;
    }
    i
}

/// Whether `needle` occurs in `hay` exactly at offset `at`.
fn match_at(hay: &[char], at: usize, needle: &[char]) -> (r: bool)
    requires
        at + needle@.len() <= hay@.len(),
    ensures
        r == (hay@.subrange(at as int, at + needle@.len()) == needle@),
{
    let n = needle.len();
    let hlen = hay.len();
    let mut j: usize = 0;
    while j < n
        invariant
            n == needle@.len(),
            hlen == hay@.len(),
            at + n <= hlen,
            j <= n,
            forall|k: int| 0 <= k < j ==> hay@[at + k] == needle@[k],
        decreases n - j,
    {
        if hay[at + j] != needle[j] {
            assert(hay@.subrange(at as int, at + needle@.len())[j as int] != needle@[j as int]);
            return false;
        }
        j = j + 1;
    }
    assert(hay@.subrange(at as int, at + needle@.len()) =~= needle@);
    true
}

/// Whether the window `lo..hi` of `hay` starts with `needle`.
fn window_starts_with(hay: &[char], lo: usize, hi: usize, needle: &[char]) -> (r: bool)
    requires
        lo <= hi <= hay@.len(),
    ensures
        r == spec_starts_with(hay@.subrange(lo as int, hi as int), needle@),
{
    let n = needle.len();
    if n > hi - lo {
        return false;
    }
    let r = match_at(hay, lo, needle);
    proof {
        assert(hay@.subrange(lo as int, hi as int).subrange(0, n as int) =~= hay@.subrange(
            lo as int,
            lo + n,
        ));
    }
    r
}

/// Whether the window `lo..hi` of `hay` contains `needle`.
fn window_contains(hay: &[char], lo: usize, hi: usize, needle: &[char]) -> (r: bool)
    requires
        lo <= hi <= hay@.len(),
    ensures
        r == spec_contains_seq(hay@.subrange(lo as int, hi as int), needle@),
{
    let n = needle.len();
    let ghost w = hay@.subrange(lo as int, hi as int);
    if n > hi - lo {
        return false;
    }
    if n == 0 {
        proof {
            assert(w.subrange(0, 0 + needle@.len() as int) =~= needle@);
            assert(spec_contains_seq(w, needle@));
        }
        return true;
    }
    let bound = hi - n;
    let mut i: usize = lo;
    while i <= bound
        invariant
            lo <= i,
            i <= bound + 1,
            bound == hi - n,
            hi <= hay@.len(),
            n == needle@.len(),
            1 <= n <= hi - lo,
            w == hay@.subrange(lo as int, hi as int),
            forall|j: int| lo <= j < i ==> #[trigger] hay@.subrange(j, j + n) != needle@,
        decreases bound + 1 - i,
    {
        if match_at(hay, i, needle) {
            proof {
                let k = i - lo;
                assert(w.subrange(k, k + n) =~= hay@.subrange(i as int, i + n));
                assert(0 <= k && k + needle@.len() <= w.len() && w.subrange(k, k + needle@.len())
                    == needle@);
            }
            return true;
        }
        i = i + 1;
    }
    proof {
        assert forall|k: int| 0 <= k && k + needle@.len() <= w.len() implies #[trigger] w.subrange(
            k,
            k + needle@.len(),
        ) != needle@ by {
            assert(w.subrange(k, k + n) =~= hay@.subrange(lo + k, lo + k + n));
            assert(hay@.subrange(lo + k, lo + k + n) != needle@);
        }
    }
    false
}

/// Whether the trimmed content of `s` is an inline PEM certificate.
pub fn is_inline_pem(s: &str) -> (r: bool)
    ensures
        r == spec_is_inline_pem(s@),
{
    let chars = chars_of(s);
    let cs: &[char] = chars.as_slice();
    let mut lo = first_non_ws(cs);
    let mut hi = last_non_ws(cs);
    if lo >= hi {
        lo = 0;
        hi = 0;
    }
    proof {
        assert(spec_trim_ok(s@, lo as int, hi as int));
        lemma_trimmed_is(s@, lo as int, hi as int);
    }
    let begin = chars_of("-----BEGIN CERTIFICATE-----");
    let end = chars_of("-----END CERTIFICATE-----");
    window_starts_with(cs, lo, hi, begin.as_slice()) && window_contains(
        cs,
        lo,
        hi,
        end.as_slice(),
    )
}

/// X.509 certificate input: either inline PEM-encoded certificate bytes or
/// the path of a file containing PEM-encoded certificates.
#[derive(Clone, Debug)]
pub enum CertificateInput {
    /// PEM encoded certificate(s).
    Inline(Vec<u8>),
    /// Path of a file containing PEM encoded certificate(s).
    File(String),
}

impl CertificateInput {
    /// Classify a root-certificate source string.
    ///
    /// A string whose whitespace-trimmed content carries the PEM
    /// certificate markers is the certificate itself, stored as its
    /// original, untrimmed bytes; any other string is a file path.
    /// Classification never fails.
    pub fn from(value: String) -> (r: Self)
        ensures
            spec_is_inline_pem(value@) ==> (r matches CertificateInput::Inline(v) && v@
                == str_bytes_of(value@)),
            !spec_is_inline_pem(value@) ==> (r matches CertificateInput::File(p) && p@ == value@),
    {
        let inline = is_inline_pem(value.as_str());
        if inline {
            CertificateInput::Inline(value.as_str().as_bytes_vec())
        } else {
            CertificateInput::File(value)
        }
    }

    /// The certificate bytes, where no I/O is needed to produce them.
    ///
    /// An `Inline` input holds its bytes and returns exactly them; a `File`
    /// input returns `None`, and loading the file is its caller's concern.
    pub fn inline_data(&self) -> (r: Option<Vec<u8>>)
        ensures
            match self {
                CertificateInput::Inline(v) => r matches Some(d) && d@ == v@,
                CertificateInput::File(_) => r is None,
            },
    {
        match self {
            CertificateInput::Inline(v) => Some(vstd::slice::slice_to_vec(v.as_slice())),
            CertificateInput::File(_) => None,
        }
    }
}

} // verus!
