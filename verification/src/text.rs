//! Character-level helpers shared by the protocol code: whitespace trimming,
//! splitting on a separator, UTF-8 decoding and string building.
use vstd::prelude::*;
use vstd::utf8::*;
use vstd::string::StringSliceAdditionalSpecFns;

verus! {

broadcast use vstd::string::group_string_axioms;

/// The Unicode `White_Space` property, which is what `char::is_whitespace`
/// and `str::trim` go by.
pub open spec fn is_ws(c: char) -> bool {
    let u = c as u32;
    ||| 0x09 <= u <= 0x0D
    ||| u == 0x20
    ||| u == 0x85
    ||| u == 0xA0
    ||| u == 0x1680
    ||| 0x2000 <= u <= 0x200A
    ||| u == 0x2028
    ||| u == 0x2029
    ||| u == 0x202F
    ||| u == 0x205F
    ||| u == 0x3000
}

/// Drops leading whitespace.
pub open spec fn trim_start(s: Seq<char>) -> Seq<char>
    decreases s.len(),
{
    if s.len() > 0 && is_ws(s[0]) {
        trim_start(s.drop_first())
    } else {
        s
    }
}

/// Drops trailing whitespace.
pub open spec fn trim_end(s: Seq<char>) -> Seq<char>
    decreases s.len(),
{
    if s.len() > 0 && is_ws(s.last()) {
        trim_end(s.drop_last())
    } else {
        s
    }
}

/// Drops leading and trailing whitespace, as `str::trim` does.
pub open spec fn trim(s: Seq<char>) -> Seq<char> {
    trim_end(trim_start(s))
}

/// `sep` occurs in `s` at index `i`.
pub open spec fn occurs_at(s: Seq<char>, sep: Seq<char>, i: int) -> bool {
    0 <= i && i + sep.len() <= s.len() && s.subrange(i, i + sep.len()) == sep
}

/// Index of the first occurrence of `sep` in `s`, if any.
#[verifier::opaque]
pub open spec fn first_occurrence(s: Seq<char>, sep: Seq<char>) -> Option<int> {
    if exists|i: int| occurs_at(s, sep, i) {
        Some(choose|i: int| occurs_at(s, sep, i) && forall|j: int| 0 <= j < i ==> !occurs_at(s, sep, j))
    } else {
        None
    }
}

/// Splits `s` around the first occurrence of `sep`, as `str::split_once` does.
pub open spec fn split_once(s: Seq<char>, sep: Seq<char>) -> Option<(Seq<char>, Seq<char>)> {
    match first_occurrence(s, sep) {
        Some(i) => Some((s.subrange(0, i), s.subrange(i + sep.len(), s.len() as int))),
        None => None,
    }
}

pub fn is_whitespace(c: char) -> (r: bool)
    ensures
        r == is_ws(c),
{
    let u = c as u32;
    (0x09 <= u && u <= 0x0D) || u == 0x20 || u == 0x85 || u == 0xA0 || u == 0x1680 || (0x2000
        <= u && u <= 0x200A) || u == 0x2028 || u == 0x2029 || u == 0x202F || u == 0x205F || u
        == 0x3000
}

proof fn lemma_trim_start_len(s: Seq<char>)
    ensures
        trim_start(s).len() <= s.len(),
        s.len() > 0 && is_ws(s[0]) ==> trim_start(s).len() < s.len(),
    decreases s.len(),
{
    if s.len() > 0 && is_ws(s[0]) {
        lemma_trim_start_len(s.drop_first());
    }
}

proof fn lemma_trim_end_len(s: Seq<char>)
    ensures
        trim_end(s).len() <= s.len(),
        s.len() > 0 && is_ws(s.last()) ==> trim_end(s).len() < s.len(),
    decreases s.len(),
{
    if s.len() > 0 && is_ws(s.last()) {
        lemma_trim_end_len(s.drop_last());
    }
}

/// Text that trimming leaves as it is starts and ends with a character
/// that is not whitespace.
pub(crate) proof fn lemma_trimmed_ends(s: Seq<char>)
    requires
        trim(s) == s,
        s.len() > 0,
    ensures
        !is_ws(s[0]),
        !is_ws(s.last()),
{
    lemma_trim_start_len(s);
    lemma_trim_end_len(trim_start(s));
    if is_ws(s[0]) {
        assert(trim(s).len() < s.len());
    }
    if trim_start(s) == s {
        if is_ws(s.last()) {
            assert(trim_end(s).len() < s.len());
        }
    } else {
        assert(trim_start(s).len() < s.len()) by {
            assert(!is_ws(s[0]));
        }
    }
}

proof fn lemma_trim_start_skip(s: Seq<char>, i: int)
    requires
        0 <= i <= s.len(),
        forall|k: int| 0 <= k < i ==> is_ws(#[trigger] s[k]),
    ensures
        trim_start(s) == trim_start(s.subrange(i, s.len() as int)),
    decreases i,
{
    if i > 0 {
        assert(s.drop_first() == s.subrange(1, s.len() as int));
        let t = s.drop_first();
        assert forall|k: int| 0 <= k < i - 1 implies is_ws(#[trigger] t[k]) by {
            assert(t[k] == s[k + 1]);
        }
        lemma_trim_start_skip(t, i - 1);
        assert(t.subrange(i - 1, t.len() as int) == s.subrange(i, s.len() as int));
    } else {
        assert(s.subrange(0, s.len() as int) == s);
    }
}

proof fn lemma_trim_end_skip(s: Seq<char>, j: int)
    requires
        0 <= j <= s.len(),
        forall|k: int| j <= k < s.len() ==> is_ws(#[trigger] s[k]),
    ensures
        trim_end(s) == trim_end(s.subrange(0, j)),
    decreases s.len() - j,
{
    if j < s.len() {
        let t = s.drop_last();
        assert forall|k: int| j <= k < t.len() implies is_ws(#[trigger] t[k]) by {
            assert(t[k] == s[k]);
        }
        lemma_trim_end_skip(t, j);
        assert(t.subrange(0, j) == s.subrange(0, j));
    } else {
        assert(s.subrange(0, j) == s);
    }
}

/// Bounds `(a, b)` such that `s[a..b]` is `s` without its leading and trailing
/// whitespace.
pub fn trim_bounds(s: &Vec<char>) -> (r: (usize, usize))
    ensures
        r.0 <= r.1 <= s.len(),
        s@.subrange(r.0 as int, r.1 as int) == trim(s@),
{
    let n = s.len();
    let mut a: usize = 0;
    while a < n && is_whitespace(s[a])
        invariant
            a <= n == s.len(),
            forall|k: int| 0 <= k < a ==> is_ws(#[trigger] s@[k]),
        decreases n - a,
    {
        a = a + 1;
    }
    proof {
        lemma_trim_start_skip(s@, a as int);
        if a < n {
            let t = s@.subrange(a as int, n as int);
            assert(t[0] == s@[a as int]);
        } else {
            assert(s@.subrange(a as int, n as int).len() == 0);
        }
    }
    let ghost t = s@.subrange(a as int, n as int);
    assert(trim_start(s@) == t);
    let mut b: usize = n;
    while b > a && is_whitespace(s[b - 1])
        invariant
            a <= b <= n == s.len(),
            t == s@.subrange(a as int, n as int),
            forall|k: int| b <= k < n ==> is_ws(#[trigger] s@[k]),
        decreases b - a,
    {
        b = b - 1;
    }
    proof {
        let bt = (b - a) as int;
        assert forall|k: int| bt <= k < t.len() implies is_ws(#[trigger] t[k]) by {
            assert(t[k] == s@[k + a]);
        }
        lemma_trim_end_skip(t, bt);
        let u = t.subrange(0, bt);
        assert(u == s@.subrange(a as int, b as int));
        if bt > 0 {
            assert(u.last() == s@[b - 1]);
        }
    }
    (a, b)
}

/// The characters of a string slice, in order.
pub fn str_chars(s: &str) -> (r: Vec<char>)
    ensures
        r@ == s@,
{
    let mut out: Vec<char> = Vec::new();
    for c in it: s.chars()
        invariant
            out@ == it.seq().take(it.index() as int),
    {
        out.push(c);
    }
    out
}

/// A copy of `s[a..b]`.
pub fn sub_chars(s: &Vec<char>, a: usize, b: usize) -> (r: Vec<char>)
    requires
        a <= b <= s.len(),
    ensures
        r@ == s@.subrange(a as int, b as int),
{
    let mut out: Vec<char> = Vec::new();
    let mut i = a;
    while i < b
        invariant
            a <= i <= b <= s.len(),
            out@ == s@.subrange(a as int, i as int),
        decreases b - i,
    {
        out.push(s[i]);
        i = i + 1;
    }
    out
}

pub(crate) proof fn lemma_first_occurrence(s: Seq<char>, sep: Seq<char>, i: int)
    requires
        occurs_at(s, sep, i),
        forall|j: int| 0 <= j < i ==> !occurs_at(s, sep, j),
    ensures
        first_occurrence(s, sep) == Some(i),
{
    reveal(first_occurrence);
    let k = choose|k: int| occurs_at(s, sep, k) && forall|j: int| 0 <= j < k ==> !occurs_at(s, sep, j);
    assert(occurs_at(s, sep, k) && forall|j: int| 0 <= j < k ==> !occurs_at(s, sep, j));
    if k < i {
        assert(!occurs_at(s, sep, k));
    } else if k > i {
        assert(!occurs_at(s, sep, i));
    }
}

/// Finds the first occurrence of the two-character separator `c0 c1`.
pub fn find_pair(s: &Vec<char>, c0: char, c1: char) -> (r: Option<usize>)
    ensures
        r is None <==> first_occurrence(s@, seq![c0, c1]) is None,
        r matches Some(i) ==> first_occurrence(s@, seq![c0, c1]) == Some(i as int) && i + 2
            <= s.len(),
{
    let ghost sep = seq![c0, c1];
    let n = s.len();
    if n < 2 {
        proof {
            reveal(first_occurrence);
            assert forall|k: int| !occurs_at(s@, sep, k) by {}
        }
        return None;
    }
    let mut i: usize = 0;
    while i < n - 1
        invariant
            n == s.len(),
            n >= 2,
            i <= n - 1,
            sep == seq![c0, c1],
            forall|j: int| 0 <= j < i ==> !occurs_at(s@, sep, j),
        decreases n - i,
    {
        let ghost w = s@.subrange(i as int, i + 2);
        assert(w[0] == s@[i as int] && w[1] == s@[i + 1]);
        if s[i] == c0 && s[i + 1] == c1 {
            proof {
                assert(sep.len() == 2 && sep[0] == c0 && sep[1] == c1);
                assert(w.len() == 2);
                assert(w =~= sep);
                lemma_first_occurrence(s@, sep, i as int);
            }
            return Some(i);
        }
        i = i + 1;
    }
    proof {
        reveal(first_occurrence);
        assert forall|k: int| !occurs_at(s@, sep, k) by {
            if 0 <= k < i {
            } else if k >= i && occurs_at(s@, sep, k) {
                assert(k + 2 <= n);
            }
        }
    }
    None
}

/// Drops trailing `/` characters, as `str::trim_end_matches('/')` does.
pub open spec fn trim_end_slashes(s: Seq<char>) -> Seq<char>
    decreases s.len(),
{
    if s.len() > 0 && s.last() == '/' {
        trim_end_slashes(s.drop_last())
    } else {
        s
    }
}

proof fn lemma_trim_end_slashes_skip(s: Seq<char>, j: int)
    requires
        0 <= j <= s.len(),
        forall|k: int| j <= k < s.len() ==> #[trigger] s[k] == '/',
    ensures
        trim_end_slashes(s) == trim_end_slashes(s.subrange(0, j)),
    decreases s.len() - j,
{
    if j < s.len() {
        let t = s.drop_last();
        assert forall|k: int| j <= k < t.len() implies #[trigger] t[k] == '/' by {
            assert(t[k] == s[k]);
        }
        lemma_trim_end_slashes_skip(t, j);
        assert(t.subrange(0, j) == s.subrange(0, j));
    } else {
        assert(s.subrange(0, j) == s);
    }
}

/// `base` without trailing slashes, followed by `path`: the URL of an
/// endpoint below a server.
pub fn endpoint_url(base: &str, path: &str) -> (r: String)
    ensures
        r@ == trim_end_slashes(base@) + path@,
{
    let chars = str_chars(base);
    let mut j = chars.len();
    while j > 0 && chars[j - 1] == '/'
        invariant
            j <= chars@.len(),
            forall|k: int| j <= k < chars@.len() ==> #[trigger] chars@[k] == '/',
        decreases j,
    {
        j = j - 1;
    }
    proof {
        lemma_trim_end_slashes_skip(chars@, j as int);
        let t = chars@.subrange(0, j as int);
        if j > 0 {
            assert(t.last() == chars@[j - 1]);
        }
    }
    let mut url = string_from_chars(&sub_chars(&chars, 0, j));
    url.append(path);
    url
}

/// Builds a `String` from its characters (`String: FromIterator<char>`).
#[verifier::external_body]
pub(crate) fn string_from_chars(chars: &Vec<char>) -> (r: String)
    ensures
        r@ == chars@,
{
    chars.iter().collect()
}

/// Checks UTF-8 and borrows the bytes as a string slice (`std::str::from_utf8`).
/// Claims that it succeeds exactly on well-formed UTF-8, and that the slice
/// has the given bytes.
#[verifier::external_body]
pub(crate) fn str_from_utf8(bytes: &[u8]) -> (r: Option<&str>)
    ensures
        r is Some <==> valid_utf8(bytes@),
        r matches Some(s) ==> s.spec_bytes() == bytes@,
{
    std::str::from_utf8(bytes).ok()
}

/// What `String::from_utf8_lossy` makes of a byte sequence: its UTF-8
/// decoding with each ill-formed subsequence replaced by U+FFFD.
pub uninterp spec fn utf8_lossy(bytes: Seq<u8>) -> Seq<char>;

/// The text of a byte sequence read as UTF-8: its plain decoding when it is
/// well-formed, else what lossy decoding makes of it.
pub open spec fn lossy_text(bytes: Seq<u8>) -> Seq<char> {
    if valid_utf8(bytes) {
        decode_utf8(bytes)
    } else {
        utf8_lossy(bytes)
    }
}

/// Decodes bytes as UTF-8, replacing ill-formed subsequences
/// (`String::from_utf8_lossy`). Claims that the result is `utf8_lossy` of the
/// bytes, and that on well-formed UTF-8 it is the plain decoding.
#[verifier::external_body]
pub(crate) fn string_from_utf8_lossy(bytes: &[u8]) -> (r: String)
    ensures
        r@ == utf8_lossy(bytes@),
        valid_utf8(bytes@) ==> r@ == decode_utf8(bytes@),
{
    String::from_utf8_lossy(bytes).into_owned()
}

} // verus!
