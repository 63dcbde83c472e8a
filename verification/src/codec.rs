//! A small, deliberately permissive HTTP/1.1 line codec for SSDP datagrams.
//!
//! Messages are encoded as a request line `METHOD SP TARGET SP VERSION CRLF`,
//! followed by one `NAME: VALUE CRLF` line per header with the name
//! upper-cased, closed by an empty line. The decoder scans a buffer for
//! `CRLF CRLF` boundaries, parses each block it finds, silently skips
//! malformed lines, and drains the consumed bytes from the buffer in place.

use vstd::prelude::*;
use vstd::string::StrSliceExecFns;

verus! {

/// The bytes an ASCII-whitespace trim removes: space, tab, line feed, form
/// feed and carriage return.
pub open spec fn is_ascii_ws(b: u8) -> bool {
    b == 32 || b == 9 || b == 10 || b == 12 || b == 13
}

/// Returns whether `b` counts as ASCII whitespace for trimming.
pub fn byte_is_ascii_ws(b: u8) -> (r: bool)
    ensures
        r == is_ascii_ws(b),
{
    b == 32 || b == 9 || b == 10 || b == 12 || b == 13
}

/// The pattern `pat` occurs in `data` starting at index `i`.
pub open spec fn occurs_at(data: Seq<u8>, pat: Seq<u8>, i: int) -> bool {
    &&& 0 <= i
    &&& i + pat.len() <= data.len()
    &&& forall|k: int| 0 <= k < pat.len() ==> data[i + k] == pat[k]
}

/// The index of the first occurrence of `pat` in `data`, if any.
pub open spec fn spec_find(data: Seq<u8>, pat: Seq<u8>) -> Option<int>
    decreases data.len(),
{
    if data.len() < pat.len() {
        None
    } else if occurs_at(data, pat, 0) {
        Some(0int)
    } else {
        match spec_find(data.drop_first(), pat) {
            None => None,
            Some(i) => Some(i + 1),
        }
    }
}

/// `spec_find` returns the first occurrence: a hit occurs where it points and
/// nowhere earlier, and a miss means the pattern occurs nowhere.
pub proof fn lemma_find_first(data: Seq<u8>, pat: Seq<u8>)
    requires
        pat.len() > 0,
    ensures
        match spec_find(data, pat) {
            Some(i) => occurs_at(data, pat, i) && (forall|j: int|
                0 <= j < i ==> !occurs_at(data, pat, j)),
            None => forall|j: int| !occurs_at(data, pat, j),
        },
    decreases data.len(),
{
    if data.len() < pat.len() {
        assert forall|j: int| !occurs_at(data, pat, j) by {
            if 0 <= j && j + pat.len() <= data.len() {
                assert(data.len() >= pat.len());
            }
        }
    } else if occurs_at(data, pat, 0) {
    } else {
        let tail = data.drop_first();
        lemma_find_first(tail, pat);
        assert forall|j: int| 1 <= j implies occurs_at(data, pat, j) == occurs_at(
            tail,
            pat,
            j - 1,
        ) by {
            if occurs_at(data, pat, j) {
                assert forall|k: int| 0 <= k < pat.len() implies tail[j - 1 + k] == pat[k] by {
                    assert(tail[j - 1 + k] == data[j + k]);
                }
            }
            if occurs_at(tail, pat, j - 1) {
                assert forall|k: int| 0 <= k < pat.len() implies data[j + k] == pat[k] by {
                    assert(tail[j - 1 + k] == data[j + k]);
                }
            }
        }
        match spec_find(tail, pat) {
            None => {
                assert forall|j: int| !occurs_at(data, pat, j) by {
                    if 1 <= j {
                        assert(!occurs_at(tail, pat, j - 1));
                    }
                }
            },
            Some(i) => {
                assert(occurs_at(data, pat, i + 1));
                assert forall|j: int| 0 <= j < i + 1 implies !occurs_at(data, pat, j) by {
                    if 1 <= j {
                        assert(!occurs_at(tail, pat, j - 1));
                    }
                }
            },
        }
    }
}

/// Returns whether `pat` occurs in `data` at index `i`.
fn matches_at(data: &[u8], pat: &[u8], i: usize) -> (r: bool)
    requires
        i + pat@.len() <= data@.len(),
    ensures
        r == occurs_at(data@, pat@, i as int),
{
    let dlen: usize = data.len();
    let plen: usize = pat.len();
    let mut k: usize = 0;
    while k < plen
        invariant
            0 <= k <= plen,
            plen == pat@.len(),
            dlen == data@.len(),
            i + plen <= dlen,
            forall|m: int| 0 <= m < k ==> data@[i + m] == pat@[m],
        decreases plen - k,
    {
        if data[i + k] != pat[k] {
            return false;
        }
        k += 1;
    }
    true
}

/// Finds the first occurrence of `pat` in `data`.
pub fn find_bytes(data: &[u8], pat: &[u8]) -> (r: Option<usize>)
    requires
        pat@.len() > 0,
    ensures
        match r {
            Some(i) => spec_find(data@, pat@) == Some(i as int),
            None => spec_find(data@, pat@) is None,
        },
{
    proof {
        lemma_find_first(data@, pat@);
    }
    if data.len() < pat.len() {
        return None;
    }
    let end: usize = data.len() - pat.len();
    let mut i: usize = 0;
    while i <= end
        invariant
            0 <= i <= end + 1,
            end == data@.len() - pat@.len(),
            end < usize::MAX,
            pat@.len() > 0,
            forall|j: int| 0 <= j < i ==> !occurs_at(data@, pat@, j),
        decreases end + 1 - i,
    {
        if matches_at(data, pat, i) {
            proof {
                lemma_find_first(data@, pat@);
                match spec_find(data@, pat@) {
                    Some(m) => {
                        if m < i as int {
                            assert(!occurs_at(data@, pat@, m));
                        }
                        if (i as int) < m {
                            assert(!occurs_at(data@, pat@, i as int));
                        }
                    },
                    None => {
                        assert(!occurs_at(data@, pat@, i as int));
                    },
                }
            }
            return Some(i);
        }
        i += 1;
    }
    proof {
        lemma_find_first(data@, pat@);
        if let Some(m) = spec_find(data@, pat@) {
            assert(occurs_at(data@, pat@, m));
            assert(m <= data@.len() - pat@.len());
            assert(!occurs_at(data@, pat@, m));
        }
    }
    None
}

/// `s` with leading ASCII whitespace removed.
pub open spec fn spec_trim_front(s: Seq<u8>) -> Seq<u8>
    decreases s.len(),
{
    if s.len() > 0 && is_ascii_ws(s[0]) {
        spec_trim_front(s.drop_first())
    } else {
        s
    }
}

/// `s` with trailing ASCII whitespace removed.
pub open spec fn spec_trim_back(s: Seq<u8>) -> Seq<u8>
    decreases s.len(),
{
    if s.len() > 0 && is_ascii_ws(s[s.len() - 1]) {
        spec_trim_back(s.drop_last())
    } else {
        s
    }
}

/// `s` with leading and trailing ASCII whitespace removed.
pub open spec fn spec_trim(s: Seq<u8>) -> Seq<u8> {
    spec_trim_back(spec_trim_front(s))
}

proof fn lemma_trim_front_skip(s: Seq<u8>, n: int)
    requires
        0 <= n <= s.len(),
        forall|j: int| 0 <= j < n ==> is_ascii_ws(s[j]),
        n < s.len() ==> !is_ascii_ws(s[n]),
    ensures
        spec_trim_front(s) == s.skip(n),
    decreases n,
{
    if n == 0 {
        assert(s.skip(0) =~= s);
    } else {
        let tail = s.drop_first();
        lemma_trim_front_skip(tail, n - 1);
        assert(tail.skip(n - 1) =~= s.skip(n));
    }
}

proof fn lemma_trim_back_take(s: Seq<u8>, n: int)
    requires
        0 <= n <= s.len(),
        forall|j: int| n <= j < s.len() ==> is_ascii_ws(s[j]),
        n > 0 ==> !is_ascii_ws(s[n - 1]),
    ensures
        spec_trim_back(s) == s.take(n),
    decreases s.len() - n,
{
    if n == s.len() {
        assert(s.take(n) =~= s);
    } else {
        let head = s.drop_last();
        lemma_trim_back_take(head, n);
        assert(head.take(n) =~= s.take(n));
    }
}

/// Copies `s` with leading and trailing ASCII whitespace removed.
pub fn trim_bytes(s: &[u8]) -> (r: Vec<u8>)
    ensures
        r@ == spec_trim(s@),
{
    let mut start: usize = 0;
    let mut end: usize = s.len();
    while start < s.len() && byte_is_ascii_ws(s[start])
        invariant
            0 <= start <= s@.len(),
            forall|j: int| 0 <= j < start ==> is_ascii_ws(s@[j]),
        decreases s@.len() - start,
    {
        start += 1;
    }
    proof {
        lemma_trim_front_skip(s@, start as int);
    }
    let ghost fronted = spec_trim_front(s@);
    while end > start && byte_is_ascii_ws(s[end - 1])
        invariant
            0 <= start <= end <= s@.len(),
            fronted == s@.skip(start as int),
            forall|j: int| end <= j < s@.len() ==> is_ascii_ws(s@[j]),
        decreases end,
    {
        end -= 1;
    }
    proof {
        assert forall|j: int| (end - start) <= j < fronted.len() implies is_ascii_ws(
            fronted[j],
        ) by {
            assert(fronted[j] == s@[j + start]);
        }
        if end > start {
            assert(fronted[end - start - 1] == s@[end - 1]);
        }
        lemma_trim_back_take(fronted, end - start);
    }
    let mut out: Vec<u8> = Vec::new();
    let mut i: usize = start;
    while i < end
        invariant
            start <= i <= end <= s@.len(),
            out@ == s@.subrange(start as int, i as int),
        decreases end - i,
    {
        out.push(s[i]);
        proof {
            assert(out@ =~= s@.subrange(start as int, i + 1));
        }
        i += 1;
    }
    proof {
        assert(fronted.take(end - start) =~= s@.subrange(start as int, end as int));
    }
    out
}

/// The lower-case form of an ASCII byte.
pub open spec fn spec_lower_byte(b: u8) -> u8 {
    if 65 <= b <= 90 {
        (b + 32) as u8
    } else {
        b
    }
}

/// The upper-case form of an ASCII byte.
pub open spec fn spec_upper_byte(b: u8) -> u8 {
    if 97 <= b <= 122 {
        (b - 32) as u8
    } else {
        b
    }
}

/// `s` lower-cased byte by byte.
pub open spec fn spec_lower(s: Seq<u8>) -> Seq<u8> {
    s.map_values(|b: u8| spec_lower_byte(b))
}

/// `s` upper-cased byte by byte.
pub open spec fn spec_upper(s: Seq<u8>) -> Seq<u8> {
    s.map_values(|b: u8| spec_upper_byte(b))
}

/// Copies `s` lower-cased byte by byte.
pub fn lower_bytes(s: &[u8]) -> (r: Vec<u8>)
    ensures
        r@ == spec_lower(s@),
{
    let mut out: Vec<u8> = Vec::new();
    let mut i: usize = 0;
    while i < s.len()
        invariant
            0 <= i <= s@.len(),
            out@.len() == i,
            forall|j: int| 0 <= j < i ==> out@[j] == spec_lower_byte(s@[j]),
        decreases s@.len() - i,
    {
        let b = s[i];
        if 65 <= b && b <= 90 {
            out.push(b + 32);
        } else {
            out.push(b);
        }
        i += 1;
    }
    proof {
        assert(out@ =~= spec_lower(s@));
    }
    out
}

/// Copies `s` upper-cased byte by byte.
pub fn upper_bytes(s: &[u8]) -> (r: Vec<u8>)
    ensures
        r@ == spec_upper(s@),
{
    let mut out: Vec<u8> = Vec::new();
    let mut i: usize = 0;
    while i < s.len()
        invariant
            0 <= i <= s@.len(),
            out@.len() == i,
            forall|j: int| 0 <= j < i ==> out@[j] == spec_upper_byte(s@[j]),
        decreases s@.len() - i,
    {
        let b = s[i];
        if 97 <= b && b <= 122 {
            out.push(b - 32);
        } else {
            out.push(b);
        }
        i += 1;
    }
    proof {
        assert(out@ =~= spec_upper(s@));
    }
    out
}

/// The HTTP version token of a message. Any other token aborts the message.
#[derive(Debug, Clone, Copy, PartialEq, Eq, Structural)]
pub enum HttpVersion {
    V09,
    V10,
    V11,
    V2,
    V3,
}

/// One header line: a name and a value.
#[derive(Debug)]
pub struct HttpHeader {
    pub name: Vec<u8>,
    pub value: Vec<u8>,
}

impl View for HttpHeader {
    type V = (Seq<u8>, Seq<u8>);

    open spec fn view(&self) -> (Seq<u8>, Seq<u8>) {
        (self.name@, self.value@)
    }
}

/// A decoded or to-be-encoded request message.
#[derive(Debug)]
pub struct HttpMessage {
    pub method: Vec<u8>,
    pub target: Vec<u8>,
    pub version: HttpVersion,
    pub headers: Vec<HttpHeader>,
}

/// The mathematical model of a message: method, target, version and the
/// header lines in order.
pub type MessageModel = (Seq<u8>, Seq<u8>, HttpVersion, Seq<(Seq<u8>, Seq<u8>)>);

impl View for HttpMessage {
    type V = MessageModel;

    open spec fn view(&self) -> MessageModel {
        (self.method@, self.target@, self.version, self.headers@.map_values(|h: HttpHeader| h@))
    }
}

/// A line terminator.
pub open spec fn spec_crlf() -> Seq<u8> {
    seq![13u8, 10u8]
}

/// A blank line closing a message.
pub open spec fn spec_crlfcrlf() -> Seq<u8> {
    seq![13u8, 10u8, 13u8, 10u8]
}

fn crlf_vec() -> (r: Vec<u8>)
    ensures
        r@ == spec_crlf(),
{
    let mut v: Vec<u8> = Vec::new();
    v.push(13);
    v.push(10);
    proof {
        assert(v@ =~= spec_crlf());
    }
    v
}

fn crlfcrlf_vec() -> (r: Vec<u8>)
    ensures
        r@ == spec_crlfcrlf(),
{
    let mut v: Vec<u8> = Vec::new();
    v.push(13);
    v.push(10);
    v.push(13);
    v.push(10);
    proof {
        assert(v@ =~= spec_crlfcrlf());
    }
    v
}

/// The wire form of each version token.
pub open spec fn spec_version_bytes(v: HttpVersion) -> Seq<u8> {
    match v {
        HttpVersion::V09 => seq![72u8, 84u8, 84u8, 80u8, 47u8, 48u8, 46u8, 57u8],
        HttpVersion::V10 => seq![72u8, 84u8, 84u8, 80u8, 47u8, 49u8, 46u8, 48u8],
        HttpVersion::V11 => seq![72u8, 84u8, 84u8, 80u8, 47u8, 49u8, 46u8, 49u8],
        HttpVersion::V2 => seq![72u8, 84u8, 84u8, 80u8, 47u8, 50u8, 46u8, 48u8],
        HttpVersion::V3 => seq![72u8, 84u8, 84u8, 80u8, 47u8, 51u8, 46u8, 48u8],
    }
}

/// Writes the wire form of a version token.
pub fn version_bytes(v: HttpVersion) -> (r: Vec<u8>)
    ensures
        r@ == spec_version_bytes(v),
{
    let mut out: Vec<u8> = Vec::new();
    out.push(72);
    out.push(84);
    out.push(84);
    out.push(80);
    out.push(47);
    match v {
        HttpVersion::V09 => {
            out.push(48);
            out.push(46);
            out.push(57);
        },
        HttpVersion::V10 => {
            out.push(49);
            out.push(46);
            out.push(48);
        },
        HttpVersion::V11 => {
            out.push(49);
            out.push(46);
            out.push(49);
        },
        HttpVersion::V2 => {
            out.push(50);
            out.push(46);
            out.push(48);
        },
        HttpVersion::V3 => {
            out.push(51);
            out.push(46);
            out.push(48);
        },
    }
    proof {
        assert(out@ =~= spec_version_bytes(v));
    }
    out
}

/// A byte allowed in a method or header-name token.
pub open spec fn is_tchar(b: u8) -> bool {
    ||| b == 33
    ||| b == 35
    ||| b == 36
    ||| b == 37
    ||| b == 38
    ||| b == 39
    ||| b == 42
    ||| b == 43
    ||| b == 45
    ||| b == 46
    ||| b == 94
    ||| b == 95
    ||| b == 96
    ||| b == 124
    ||| b == 126
    ||| 48 <= b <= 57
    ||| 65 <= b <= 90
    ||| 97 <= b <= 122
}

/// A byte allowed in a request target: printable ASCII without space.
pub open spec fn is_target_byte(b: u8) -> bool {
    33 <= b <= 126
}

/// A byte allowed in a header value: tab or any byte from space upward,
/// except delete.
pub open spec fn is_value_byte(b: u8) -> bool {
    b == 9 || (32 <= b && b != 127)
}

/// A non-empty run of token bytes.
pub open spec fn valid_token(s: Seq<u8>) -> bool {
    s.len() > 0 && (forall|i: int| 0 <= i < s.len() ==> is_tchar(s[i]))
}

/// A non-empty run of target bytes.
pub open spec fn valid_target(s: Seq<u8>) -> bool {
    s.len() > 0 && (forall|i: int| 0 <= i < s.len() ==> is_target_byte(s[i]))
}

/// A possibly empty run of value bytes.
pub open spec fn valid_value(s: Seq<u8>) -> bool {
    forall|i: int| 0 <= i < s.len() ==> is_value_byte(s[i])
}

/// Returns whether `b` is a token byte.
pub fn byte_is_tchar(b: u8) -> (r: bool)
    ensures
        r == is_tchar(b),
{
    b == 33 || b == 35 || b == 36 || b == 37 || b == 38 || b == 39 || b == 42 || b == 43 || b == 45
        || b == 46 || b == 94 || b == 95 || b == 96 || b == 124 || b == 126 || (48 <= b && b <= 57)
        || (65 <= b && b <= 90) || (97 <= b && b <= 122)
}

/// Returns whether every byte of `s` is a token byte and `s` is non-empty.
pub fn token_valid(s: &[u8]) -> (r: bool)
    ensures
        r == valid_token(s@),
{
    if s.len() == 0 {
        return false;
    }
    let mut i: usize = 0;
    while i < s.len()
        invariant
            0 <= i <= s@.len(),
            forall|j: int| 0 <= j < i ==> is_tchar(s@[j]),
        decreases s@.len() - i,
    {
        if !byte_is_tchar(s[i]) {
            return false;
        }
        i += 1;
    }
    true
}

/// Returns whether every byte of `s` is a target byte and `s` is non-empty.
pub fn target_valid(s: &[u8]) -> (r: bool)
    ensures
        r == valid_target(s@),
{
    if s.len() == 0 {
        return false;
    }
    let mut i: usize = 0;
    while i < s.len()
        invariant
            0 <= i <= s@.len(),
            forall|j: int| 0 <= j < i ==> is_target_byte(s@[j]),
        decreases s@.len() - i,
    {
        let b = s[i];
        if !(33 <= b && b <= 126) {
            return false;
        }
        i += 1;
    }
    true
}

/// Returns whether every byte of `s` is a header-value byte.
pub fn value_valid(s: &[u8]) -> (r: bool)
    ensures
        r == valid_value(s@),
{
    let mut i: usize = 0;
    while i < s.len()
        invariant
            0 <= i <= s@.len(),
            forall|j: int| 0 <= j < i ==> is_value_byte(s@[j]),
        decreases s@.len() - i,
    {
        let b = s[i];
        if !(b == 9 || (32 <= b && b != 127)) {
            return false;
        }
        i += 1;
    }
    true
}

/// Returns whether two byte slices hold the same bytes.
pub fn bytes_eq(a: &[u8], b: &[u8]) -> (r: bool)
    ensures
        r == (a@ == b@),
{
    if a.len() != b.len() {
        return false;
    }
    let mut i: usize = 0;
    while i < a.len()
        invariant
            0 <= i <= a@.len(),
            a@.len() == b@.len(),
            forall|j: int| 0 <= j < i ==> a@[j] == b@[j],
        decreases a@.len() - i,
    {
        if a[i] != b[i] {
            return false;
        }
        i += 1;
    }
    proof {
        assert(a@ =~= b@);
    }
    true
}

/// The wire form of one header line: upper-cased name, colon, space, value,
/// line terminator.
pub open spec fn spec_encode_header(h: (Seq<u8>, Seq<u8>)) -> Seq<u8> {
    spec_upper(h.0) + seq![58u8, 32u8] + h.1 + spec_crlf()
}

/// The wire form of a run of header lines.
pub open spec fn spec_encode_headers(hs: Seq<(Seq<u8>, Seq<u8>)>) -> Seq<u8>
    decreases hs.len(),
{
    if hs.len() == 0 {
        Seq::empty()
    } else {
        spec_encode_header(hs[0]) + spec_encode_headers(hs.drop_first())
    }
}

/// The wire form of the request line, without its terminator.
pub open spec fn spec_request_line(m: MessageModel) -> Seq<u8> {
    m.0 + seq![32u8] + m.1 + seq![32u8] + spec_version_bytes(m.2)
}

/// The full wire form of a message.
pub open spec fn spec_encode(m: MessageModel) -> Seq<u8> {
    spec_request_line(m) + spec_crlf() + spec_encode_headers(m.3) + spec_crlf()
}

/// Appending a header extends the encoded header run at its end.
pub proof fn lemma_encode_headers_push(hs: Seq<(Seq<u8>, Seq<u8>)>, h: (Seq<u8>, Seq<u8>))
    ensures
        spec_encode_headers(hs.push(h)) == spec_encode_headers(hs) + spec_encode_header(h),
    decreases hs.len(),
{
    if hs.len() == 0 {
        assert(hs.push(h).drop_first() =~= hs);
        assert(spec_encode_headers(hs) + spec_encode_header(h) =~= spec_encode_header(h)
            + spec_encode_headers(hs));
    } else {
        assert(hs.push(h).drop_first() =~= hs.drop_first().push(h));
        lemma_encode_headers_push(hs.drop_first(), h);
        assert(hs.push(h)[0] == hs[0]);
        assert(spec_encode_headers(hs.push(h)) == spec_encode_header(hs[0]) + (spec_encode_headers(
            hs.drop_first(),
        ) + spec_encode_header(h)));
        assert(spec_encode_header(hs[0]) + (spec_encode_headers(hs.drop_first())
            + spec_encode_header(h)) =~= (spec_encode_header(hs[0]) + spec_encode_headers(
            hs.drop_first(),
        )) + spec_encode_header(h));
    }
}

fn append_bytes(out: &mut Vec<u8>, src: &[u8])
    ensures
        final(out)@ == old(out)@ + src@,
{
    let mut i: usize = 0;
    while i < src.len()
        invariant
            0 <= i <= src@.len(),
            out@ == old(out)@ + src@.take(i as int),
        decreases src@.len() - i,
    {
        out.push(src[i]);
        proof {
            assert(old(out)@ + src@.take(i as int) + seq![src@[i as int]] =~= old(out)@
                + src@.take(i + 1));
        }
        i += 1;
    }
    proof {
        assert(src@.take(src@.len() as int) =~= src@);
    }
}

/// Encodes a message into its wire form.
pub fn encode_message(m: &HttpMessage) -> (r: Vec<u8>)
    ensures
        r@ == spec_encode(m@),
{
    let mut out: Vec<u8> = Vec::new();
    append_bytes(&mut out, m.method.as_slice());
    out.push(32);
    append_bytes(&mut out, m.target.as_slice());
    out.push(32);
    let vb = version_bytes(m.version);
    append_bytes(&mut out, vb.as_slice());
    proof {
        assert(out@ =~= spec_request_line(m@));
    }
    out.push(13);
    out.push(10);
    let ghost prefix = spec_request_line(m@) + spec_crlf();
    proof {
        assert(out@ =~= prefix);
    }
    let mut i: usize = 0;
    while i < m.headers.len()
        invariant
            0 <= i <= m.headers@.len(),
            m@.3 == m.headers@.map_values(|h: HttpHeader| h@),
            m@.3.len() == m.headers@.len(),
            out@ == prefix + spec_encode_headers(m@.3.take(i as int)),
        decreases m.headers@.len() - i,
    {
        let ghost before = out@;
        let name_upper = upper_bytes(m.headers[i].name.as_slice());
        append_bytes(&mut out, name_upper.as_slice());
        out.push(58);
        out.push(32);
        append_bytes(&mut out, m.headers[i].value.as_slice());
        out.push(13);
        out.push(10);
        proof {
            let h = m@.3[i as int];
            assert(h == m.headers@[i as int]@);
            assert(out@ =~= before + spec_encode_header(h));
            assert(m@.3.take(i + 1) =~= m@.3.take(i as int).push(h));
            lemma_encode_headers_push(m@.3.take(i as int), h);
        }
        i += 1;
    }
    out.push(13);
    out.push(10);
    proof {
        assert(m@.3.take(m@.3.len() as int) =~= m@.3);
        assert(out@ =~= spec_encode(m@));
    }
    out
}

/// Parses a version token; any other token is unsupported.
pub open spec fn spec_parse_version(s: Seq<u8>) -> Option<HttpVersion> {
    if s == spec_version_bytes(HttpVersion::V09) {
        Some(HttpVersion::V09)
    } else if s == spec_version_bytes(HttpVersion::V10) {
        Some(HttpVersion::V10)
    } else if s == spec_version_bytes(HttpVersion::V11) {
        Some(HttpVersion::V11)
    } else if s == spec_version_bytes(HttpVersion::V2) {
        Some(HttpVersion::V2)
    } else if s == spec_version_bytes(HttpVersion::V3) {
        Some(HttpVersion::V3)
    } else {
        None
    }
}

/// Parses a request line: three tokens separated by the first two spaces,
/// where the third token is everything after the second space. The line is
/// rejected when a token is missing or malformed or the version is unknown.
pub open spec fn spec_parse_request_line(line: Seq<u8>) -> Option<(Seq<u8>, Seq<u8>, HttpVersion)> {
    match spec_find(line, seq![32u8]) {
        None => None,
        Some(i) => {
            let method = line.take(i);
            let rest = line.skip(i + 1);
            match spec_find(rest, seq![32u8]) {
                None => None,
                Some(j) => {
                    let target = rest.take(j);
                    let vtok = rest.skip(j + 1);
                    if valid_token(method) && valid_target(target) {
                        match spec_parse_version(vtok) {
                            Some(v) => Some((method, target, v)),
                            None => None,
                        }
                    } else {
                        None
                    }
                },
            }
        },
    }
}

/// Parses a header line at its first colon; name and value are trimmed, the
/// name is lower-cased. The line is rejected when it has no colon or a part
/// is malformed.
pub open spec fn spec_parse_header_line(line: Seq<u8>) -> Option<(Seq<u8>, Seq<u8>)> {
    match spec_find(line, seq![58u8]) {
        None => None,
        Some(ci) => {
            let name = spec_trim(line.take(ci));
            let value = spec_trim(line.skip(ci + 1));
            if valid_token(name) && valid_value(value) {
                Some((spec_lower(name), value))
            } else {
                None
            }
        },
    }
}

/// Parses every well-formed header line of a block of terminated lines,
/// skipping malformed ones; bytes after the last terminator are ignored.
pub open spec fn spec_parse_headers(block: Seq<u8>) -> Seq<(Seq<u8>, Seq<u8>)>
    decreases block.len(),
{
    match spec_find(block, spec_crlf()) {
        None => Seq::empty(),
        Some(i) => {
            if 0 <= i && i + 2 <= block.len() {
                let line = block.take(i);
                let rest = block.skip(i + 2);
                match spec_parse_header_line(line) {
                    Some(h) => seq![h] + spec_parse_headers(rest),
                    None => spec_parse_headers(rest),
                }
            } else {
                Seq::empty()
            }
        },
    }
}

/// Parses one message block of terminated lines: lines before the first
/// well-formed request line are skipped, the remaining lines are headers.
/// Yields nothing when no line parses as a request line.
pub open spec fn spec_parse_msg(block: Seq<u8>) -> Option<MessageModel>
    decreases block.len(),
{
    match spec_find(block, spec_crlf()) {
        None => None,
        Some(i) => {
            if 0 <= i && i + 2 <= block.len() {
                let line = block.take(i);
                let rest = block.skip(i + 2);
                match spec_parse_request_line(line) {
                    Some(rl) => Some((rl.0, rl.1, rl.2, spec_parse_headers(rest))),
                    None => spec_parse_msg(rest),
                }
            } else {
                None
            }
        },
    }
}

/// Decodes every complete message block of `input`: the messages in order,
/// and the bytes left after the last complete block.
pub open spec fn spec_decode(input: Seq<u8>) -> (Seq<MessageModel>, Seq<u8>)
    decreases input.len(),
{
    match spec_find(input, spec_crlfcrlf()) {
        None => (Seq::empty(), input),
        Some(i) => {
            if 0 <= i && i + 4 <= input.len() {
                let block = input.take(i + 2);
                let rest = input.skip(i + 4);
                let tail = spec_decode(rest);
                match spec_parse_msg(block) {
                    Some(m) => (seq![m] + tail.0, tail.1),
                    None => tail,
                }
            } else {
                (Seq::empty(), input)
            }
        },
    }
}

fn space_vec() -> (r: Vec<u8>)
    ensures
        r@ == seq![32u8],
{
    let mut v: Vec<u8> = Vec::new();
    v.push(32);
    proof {
        assert(v@ =~= seq![32u8]);
    }
    v
}

fn colon_vec() -> (r: Vec<u8>)
    ensures
        r@ == seq![58u8],
{
    let mut v: Vec<u8> = Vec::new();
    v.push(58);
    proof {
        assert(v@ =~= seq![58u8]);
    }
    v
}

fn slice_to_owned(s: &[u8]) -> (r: Vec<u8>)
    ensures
        r@ == s@,
{
    let mut out: Vec<u8> = Vec::new();
    append_bytes(&mut out, s);
    proof {
        assert(Seq::<u8>::empty() + s@ =~= s@);
    }
    out
}

/// Parses a version token.
pub fn parse_version(s: &[u8]) -> (r: Option<HttpVersion>)
    ensures
        r == spec_parse_version(s@),
{
    let c09 = version_bytes(HttpVersion::V09);
    if bytes_eq(s, c09.as_slice()) {
        return Some(HttpVersion::V09);
    }
    let c10 = version_bytes(HttpVersion::V10);
    if bytes_eq(s, c10.as_slice()) {
        return Some(HttpVersion::V10);
    }
    let c11 = version_bytes(HttpVersion::V11);
    if bytes_eq(s, c11.as_slice()) {
        return Some(HttpVersion::V11);
    }
    let c2 = version_bytes(HttpVersion::V2);
    if bytes_eq(s, c2.as_slice()) {
        return Some(HttpVersion::V2);
    }
    let c3 = version_bytes(HttpVersion::V3);
    if bytes_eq(s, c3.as_slice()) {
        return Some(HttpVersion::V3);
    }
    None
}

/// Parses a request line.
pub fn parse_request_line(line: &[u8]) -> (r: Option<(Vec<u8>, Vec<u8>, HttpVersion)>)
    ensures
        match r {
            Some(p) => spec_parse_request_line(line@) == Some((p.0@, p.1@, p.2)),
            None => spec_parse_request_line(line@) is None,
        },
{
    let sp = space_vec();
    let i = match find_bytes(line, sp.as_slice()) {
        None => {
            return None;
        },
        Some(i) => i,
    };
    let line_len = line.len();
    proof {
        lemma_find_first(line@, seq![32u8]);
        assert(i + 1 <= line_len);
    }
    let method = vstd::slice::slice_subrange(line, 0, i);
    let rest = vstd::slice::slice_subrange(line, i + 1, line_len);
    proof {
        assert(rest@ =~= line@.skip(i + 1));
        assert(method@ =~= line@.take(i as int));
    }
    let j = match find_bytes(rest, sp.as_slice()) {
        None => {
            return None;
        },
        Some(j) => j,
    };
    let rest_len = rest.len();
    proof {
        lemma_find_first(rest@, seq![32u8]);
        assert(j + 1 <= rest_len);
    }
    let target = vstd::slice::slice_subrange(rest, 0, j);
    let vtok = vstd::slice::slice_subrange(rest, j + 1, rest_len);
    proof {
        assert(target@ =~= rest@.take(j as int));
        assert(vtok@ =~= rest@.skip(j + 1));
    }
    if !token_valid(method) {
        return None;
    }
    if !target_valid(target) {
        return None;
    }
    match parse_version(vtok) {
        Some(v) => Some((slice_to_owned(method), slice_to_owned(target), v)),
        None => None,
    }
}

/// Parses a header line.
pub fn parse_header_line(line: &[u8]) -> (r: Option<HttpHeader>)
    ensures
        match r {
            Some(h) => spec_parse_header_line(line@) == Some(h@),
            None => spec_parse_header_line(line@) is None,
        },
{
    let co = colon_vec();
    let ci = match find_bytes(line, co.as_slice()) {
        None => {
            return None;
        },
        Some(ci) => ci,
    };
    let line_len = line.len();
    proof {
        lemma_find_first(line@, seq![58u8]);
        assert(ci + 1 <= line_len);
    }
    let name_raw = vstd::slice::slice_subrange(line, 0, ci);
    let value_raw = vstd::slice::slice_subrange(line, ci + 1, line_len);
    proof {
        assert(name_raw@ =~= line@.take(ci as int));
        assert(value_raw@ =~= line@.skip(ci + 1));
    }
    let name_trimmed = trim_bytes(name_raw);
    let value = trim_bytes(value_raw);
    if !token_valid(name_trimmed.as_slice()) {
        return None;
    }
    if !value_valid(value.as_slice()) {
        return None;
    }
    let name = lower_bytes(name_trimmed.as_slice());
    Some(HttpHeader { name, value })
}

/// Parses the header lines of a block.
pub fn parse_headers_block(block: &[u8]) -> (r: Vec<HttpHeader>)
    ensures
        r@.map_values(|h: HttpHeader| h@) == spec_parse_headers(block@),
    decreases block@.len(),
{
    let nl = crlf_vec();
    let i = match find_bytes(block, nl.as_slice()) {
        None => {
            let empty: Vec<HttpHeader> = Vec::new();
            proof {
                assert(empty@.map_values(|h: HttpHeader| h@) =~= spec_parse_headers(block@));
            }
            return empty;
        },
        Some(i) => i,
    };
    let block_len = block.len();
    proof {
        lemma_find_first(block@, spec_crlf());
        assert(i + 2 <= block_len);
    }
    let line = vstd::slice::slice_subrange(block, 0, i);
    let rest = vstd::slice::slice_subrange(block, i + 2, block_len);
    proof {
        assert(line@ =~= block@.take(i as int));
        assert(rest@ =~= block@.skip(i + 2));
    }
    let mut tail = parse_headers_block(rest);
    match parse_header_line(line) {
        Some(h) => {
            let ghost tail_model = tail@.map_values(|x: HttpHeader| x@);
            tail.insert(0, h);
            proof {
                assert(tail@.map_values(|x: HttpHeader| x@) =~= seq![h@] + tail_model);
            }
            tail
        },
        None => tail,
    }
}

/// Parses one message block.
pub fn parse_msg_block(block: &[u8]) -> (r: Option<HttpMessage>)
    ensures
        match r {
            Some(m) => spec_parse_msg(block@) == Some(m@),
            None => spec_parse_msg(block@) is None,
        },
    decreases block@.len(),
{
    let nl = crlf_vec();
    let i = match find_bytes(block, nl.as_slice()) {
        None => {
            return None;
        },
        Some(i) => i,
    };
    let block_len = block.len();
    proof {
        lemma_find_first(block@, spec_crlf());
        assert(i + 2 <= block_len);
    }
    let line = vstd::slice::slice_subrange(block, 0, i);
    let rest = vstd::slice::slice_subrange(block, i + 2, block_len);
    proof {
        assert(line@ =~= block@.take(i as int));
        assert(rest@ =~= block@.skip(i + 2));
    }
    match parse_request_line(line) {
        Some(rl) => {
            let headers = parse_headers_block(rest);
            let m = HttpMessage { method: rl.0, target: rl.1, version: rl.2, headers };
            proof {
                assert(m@ == (m.method@, m.target@, m.version, m.headers@.map_values(
                    |h: HttpHeader| h@,
                )));
            }
            Some(m)
        },
        None => parse_msg_block(rest),
    }
}

fn drop_front(data: &mut Vec<u8>, n: usize)
    requires
        n <= old(data)@.len(),
    ensures
        final(data)@ == old(data)@.skip(n as int),
{
    let mut out: Vec<u8> = Vec::new();
    let mut i: usize = n;
    while i < data.len()
        invariant
            n <= i <= data@.len(),
            data@ == old(data)@,
            out@ == data@.subrange(n as int, i as int),
        decreases data@.len() - i,
    {
        let b = data[i];
        out.push(b);
        proof {
            assert(out@ =~= data@.subrange(n as int, i + 1));
        }
        i += 1;
    }
    proof {
        assert(out@ =~= old(data)@.skip(n as int));
    }
    *data = out;
}

/// Decodes every complete message in `data` and drains the consumed bytes,
/// leaving any incomplete tail in place.
pub fn decode_messages(data: &mut Vec<u8>) -> (r: Vec<HttpMessage>)
    ensures
        r@.map_values(|m: HttpMessage| m@) == spec_decode(old(data)@).0,
        final(data)@ == spec_decode(old(data)@).1,
{
    let pat = crlfcrlf_vec();
    let mut out: Vec<HttpMessage> = Vec::new();
    let mut done = false;
    while !done
        invariant
            spec_decode(old(data)@).0 == out@.map_values(|m: HttpMessage| m@) + spec_decode(
                data@,
            ).0,
            spec_decode(old(data)@).1 == spec_decode(data@).1,
            pat@ == spec_crlfcrlf(),
            done ==> spec_find(data@, spec_crlfcrlf()) is None,
        decreases data@.len(), (if done {
            0int
        } else {
            1int
        }),
    {
        match find_bytes(data.as_slice(), pat.as_slice()) {
            None => {
                done = true;
            },
            Some(i) => {
                let data_len = data.len();
                proof {
                    lemma_find_first(data@, spec_crlfcrlf());
                    assert(i + 4 <= data_len);
                }
                let ghost before = data@;
                let block = vstd::slice::slice_subrange(data.as_slice(), 0, i + 2);
                proof {
                    assert(block@ =~= before.take(i + 2));
                }
                let parsed = parse_msg_block(block);
                let ghost out_model_before = out@.map_values(|m: HttpMessage| m@);
                match parsed {
                    Some(m) => {
                        out.push(m);
                        proof {
                            assert(out@.map_values(|x: HttpMessage| x@) =~= out_model_before
                                + seq![m@]);
                        }
                    },
                    None => {
                    },
                }
                drop_front(data, i + 4);
                proof {
                    assert(data@ =~= before.skip(i + 4));
                    match spec_parse_msg(before.take(i + 2)) {
                        Some(m) => {
                            assert(spec_decode(before).0 =~= seq![m] + spec_decode(data@).0);
                            assert(out@.map_values(|x: HttpMessage| x@) =~= out_model_before
                                + seq![m]);
                            assert(out_model_before + seq![m] + spec_decode(data@).0
                                =~= out_model_before + (seq![m] + spec_decode(data@).0));
                        },
                        None => {
                        },
                    }
                }
            },
        }
    }
    proof {
        assert(spec_decode(data@).0 =~= Seq::<MessageModel>::empty());
        assert(out@.map_values(|m: HttpMessage| m@) + Seq::<MessageModel>::empty() =~= out@
            .map_values(|m: HttpMessage| m@));
    }
    out
}

/// The bytes of an ASCII text, character by character.
pub open spec fn ascii_seq(s: Seq<char>) -> Seq<u8> {
    Seq::new(s.len(), |i: int| s[i] as u8)
}

/// Copies the bytes of an ASCII string.
pub fn ascii_vec(s: &str) -> (r: Vec<u8>)
    requires
        vstd::string::is_ascii(s),
    ensures
        r@ == ascii_seq(s@),
{
    let r = s.as_bytes_vec();
    proof {
        broadcast use vstd::string::is_ascii_spec_bytes;

        assert(r@ =~= ascii_seq(s@));
    }
    r
}

/// A byte run without carriage returns and line feeds.
pub open spec fn line_clean(s: Seq<u8>) -> bool {
    forall|i: int| 0 <= i < s.len() ==> s[i] != 13 && s[i] != 10
}

/// A header whose encoding decodes back to it (modulo name case): the name is
/// a token and the value holds no control bytes and is already trimmed.
pub open spec fn header_well_formed(h: (Seq<u8>, Seq<u8>)) -> bool {
    &&& valid_token(h.0)
    &&& valid_value(h.1)
    &&& h.1.len() > 0 ==> !is_ascii_ws(h.1[0]) && !is_ascii_ws(h.1[h.1.len() - 1])
}

/// A message whose encoding decodes back to it modulo header-name case.
pub open spec fn msg_well_formed(m: MessageModel) -> bool {
    &&& valid_token(m.0)
    &&& valid_target(m.1)
    &&& forall|i: int| 0 <= i < m.3.len() ==> header_well_formed(#[trigger] m.3[i])
}

/// The headers of `m` with their names lower-cased.
pub open spec fn spec_lower_headers(hs: Seq<(Seq<u8>, Seq<u8>)>) -> Seq<(Seq<u8>, Seq<u8>)> {
    hs.map_values(|h: (Seq<u8>, Seq<u8>)| (spec_lower(h.0), h.1))
}

/// `m` as the decoder reproduces it: header names lower-cased, the rest kept.
pub open spec fn spec_normalize(m: MessageModel) -> MessageModel {
    (m.0, m.1, m.2, spec_lower_headers(m.3))
}

/// One header line without its terminator.
pub open spec fn header_line_content(h: (Seq<u8>, Seq<u8>)) -> Seq<u8> {
    spec_upper(h.0) + seq![58u8, 32u8] + h.1
}

/// The lines of an encoded message, each without its terminator.
pub open spec fn message_lines(m: MessageModel) -> Seq<Seq<u8>> {
    seq![spec_request_line(m)] + m.3.map_values(|h: (Seq<u8>, Seq<u8>)| header_line_content(h))
}

/// Lines joined with a terminator after each one.
pub open spec fn cat_lines(ls: Seq<Seq<u8>>) -> Seq<u8>
    decreases ls.len(),
{
    if ls.len() == 0 {
        Seq::empty()
    } else {
        ls[0] + spec_crlf() + cat_lines(ls.drop_first())
    }
}

proof fn lemma_find_unique(data: Seq<u8>, pat: Seq<u8>, p: int)
    requires
        pat.len() > 0,
        occurs_at(data, pat, p),
        forall|j: int| 0 <= j < p ==> !occurs_at(data, pat, j),
    ensures
        spec_find(data, pat) == Some(p),
{
    lemma_find_first(data, pat);
    match spec_find(data, pat) {
        None => {
            assert(!occurs_at(data, pat, p));
        },
        Some(q) => {
            if q < p {
                assert(!occurs_at(data, pat, q));
            }
            if p < q {
                assert(!occurs_at(data, pat, p));
            }
        },
    }
}

proof fn lemma_encode_headers_as_lines(hs: Seq<(Seq<u8>, Seq<u8>)>)
    ensures
        spec_encode_headers(hs) == cat_lines(
            hs.map_values(|h: (Seq<u8>, Seq<u8>)| header_line_content(h)),
        ),
    decreases hs.len(),
{
    let f = |h: (Seq<u8>, Seq<u8>)| header_line_content(h);
    if hs.len() == 0 {
        assert(cat_lines(hs.map_values(f)) =~= Seq::<u8>::empty());
    } else {
        lemma_encode_headers_as_lines(hs.drop_first());
        assert(hs.map_values(f).drop_first() =~= hs.drop_first().map_values(f));
        assert(spec_encode_header(hs[0]) =~= header_line_content(hs[0]) + spec_crlf());
        assert((header_line_content(hs[0]) + spec_crlf()) + spec_encode_headers(hs.drop_first())
            =~= header_line_content(hs[0]) + spec_crlf() + spec_encode_headers(hs.drop_first()));
    }
}

/// An encoded message is its lines joined, with one more terminator at the
/// end forming the closing blank line.
proof fn lemma_encode_as_lines(m: MessageModel)
    ensures
        spec_encode(m) == cat_lines(message_lines(m)) + spec_crlf(),
{
    let hlines = m.3.map_values(|h: (Seq<u8>, Seq<u8>)| header_line_content(h));
    lemma_encode_headers_as_lines(m.3);
    assert(message_lines(m).drop_first() =~= hlines);
    assert(message_lines(m)[0] == spec_request_line(m));
    assert(cat_lines(message_lines(m)) == spec_request_line(m) + spec_crlf() + cat_lines(hlines));
    assert(spec_encode(m) =~= (spec_request_line(m) + spec_crlf() + cat_lines(hlines))
        + spec_crlf());
}

proof fn lemma_token_clean(s: Seq<u8>)
    requires
        valid_token(s),
    ensures
        line_clean(s),
        forall|i: int| 0 <= i < s.len() ==> s[i] != 32 && s[i] != 58 && !is_ascii_ws(s[i]),
{
}

proof fn lemma_upper_token(s: Seq<u8>)
    requires
        valid_token(s),
    ensures
        valid_token(spec_upper(s)),
        line_clean(spec_upper(s)),
        forall|i: int|
            0 <= i < s.len() ==> spec_upper(s)[i] != 32 && spec_upper(s)[i] != 58 && !is_ascii_ws(
                spec_upper(s)[i],
            ),
{
    assert forall|i: int| 0 <= i < s.len() implies is_tchar(spec_upper(s)[i]) && spec_upper(s)[i]
        != 32 && spec_upper(s)[i] != 58 && !is_ascii_ws(spec_upper(s)[i]) by {
        assert(spec_upper(s)[i] == spec_upper_byte(s[i]));
    }
}

proof fn lemma_value_clean(s: Seq<u8>)
    requires
        valid_value(s),
    ensures
        line_clean(s),
{
}

proof fn lemma_version_clean(v: HttpVersion)
    ensures
        line_clean(spec_version_bytes(v)),
        forall|i: int| 0 <= i < spec_version_bytes(v).len() ==> spec_version_bytes(v)[i] != 32,
        spec_version_bytes(v).len() == 8,
{
    match v {
        HttpVersion::V09 => {},
        HttpVersion::V10 => {},
        HttpVersion::V11 => {},
        HttpVersion::V2 => {},
        HttpVersion::V3 => {},
    }
}

/// Every line of a well-formed message is non-empty and free of line breaks.
proof fn lemma_message_lines_clean(m: MessageModel)
    requires
        msg_well_formed(m),
    ensures
        forall|i: int|
            0 <= i < message_lines(m).len() ==> line_clean(#[trigger] message_lines(m)[i])
                && message_lines(m)[i].len() > 0,
{
    let ls = message_lines(m);
    lemma_token_clean(m.0);
    lemma_version_clean(m.2);
    assert(line_clean(ls[0])) by {
        let rl = spec_request_line(m);
        assert forall|k: int| 0 <= k < rl.len() implies rl[k] != 13 && rl[k] != 10 by {
            if k < m.0.len() {
                assert(rl[k] == m.0[k]);
            } else if k == m.0.len() {
                assert(rl[k] == 32);
            } else if k < m.0.len() + 1 + m.1.len() {
                assert(rl[k] == m.1[k - (m.0.len() + 1)]);
            } else if k == m.0.len() + 1 + m.1.len() {
                assert(rl[k] == 32);
            } else {
                assert(rl[k] == spec_version_bytes(m.2)[k - (m.0.len() + 1 + m.1.len() + 1)]);
            }
        }
    }
    assert(ls[0].len() > 0);
    assert forall|i: int| 1 <= i < ls.len() implies line_clean(#[trigger] ls[i]) && ls[i].len()
        > 0 by {
        let h = m.3[i - 1];
        assert(header_well_formed(h));
        lemma_upper_token(h.0);
        lemma_value_clean(h.1);
        let hl = header_line_content(h);
        assert(ls[i] == hl);
        assert forall|k: int| 0 <= k < hl.len() implies hl[k] != 13 && hl[k] != 10 by {
            if k < h.0.len() {
                assert(hl[k] == spec_upper(h.0)[k]);
            } else if k == h.0.len() {
                assert(hl[k] == 58);
            } else if k == h.0.len() + 1 {
                assert(hl[k] == 32);
            } else {
                assert(hl[k] == h.1[k - (h.0.len() + 2)]);
            }
        }
        assert(hl.len() > 0);
    }
}

proof fn lemma_occurs_shift(prefix: Seq<u8>, suffix: Seq<u8>, pat: Seq<u8>, j: int)
    requires
        0 <= j,
    ensures
        occurs_at(prefix + suffix, pat, prefix.len() + j) == occurs_at(suffix, pat, j),
{
    let cat = prefix + suffix;
    if occurs_at(cat, pat, prefix.len() + j) {
        assert forall|k: int| 0 <= k < pat.len() implies suffix[j + k] == pat[k] by {
            assert(cat[prefix.len() + j + k] == suffix[j + k]);
        }
    }
    if occurs_at(suffix, pat, j) {
        assert forall|k: int| 0 <= k < pat.len() implies cat[prefix.len() + j + k] == pat[k] by {
            assert(cat[prefix.len() + j + k] == suffix[j + k]);
        }
    }
}

/// In a joined run of non-empty break-free lines followed by a blank line and
/// anything further, the first blank-line boundary sits exactly at the end of
/// the joined lines.
proof fn lemma_find_blank_line(ls: Seq<Seq<u8>>, tail: Seq<u8>)
    requires
        ls.len() > 0,
        forall|i: int| 0 <= i < ls.len() ==> line_clean(#[trigger] ls[i]) && ls[i].len() > 0,
    ensures
        spec_find(cat_lines(ls) + spec_crlf() + tail, spec_crlfcrlf()) == Some(
            cat_lines(ls).len() - 2,
        ),
        cat_lines(ls).len() >= 2,
    decreases ls.len(),
{
    let l0 = ls[0];
    let rest_lines = ls.drop_first();
    let inner = cat_lines(rest_lines);
    let full = cat_lines(ls) + spec_crlf() + tail;
    assert(cat_lines(ls) == l0 + spec_crlf() + inner);
    if rest_lines.len() == 0 {
        assert(inner =~= Seq::<u8>::empty());
        assert(cat_lines(ls) =~= l0 + spec_crlf());
        let p = l0.len() as int;
        assert(full =~= l0 + (spec_crlf() + spec_crlf() + tail));
        assert(occurs_at(full, spec_crlfcrlf(), p)) by {
            assert forall|k: int| 0 <= k < 4 implies full[p + k] == spec_crlfcrlf()[k] by {
                assert(full[p + k] == (spec_crlf() + spec_crlf() + tail)[k]);
            }
        }
        assert forall|j: int| 0 <= j < p implies !occurs_at(full, spec_crlfcrlf(), j) by {
            assert(full[j] == l0[j]);
            assert(full[j] != 13);
        }
        lemma_find_unique(full, spec_crlfcrlf(), p);
        assert(p == cat_lines(ls).len() - 2);
    } else {
        let inner_full = inner + spec_crlf() + tail;
        lemma_find_blank_line(rest_lines, tail);
        lemma_find_first(inner_full, spec_crlfcrlf());
        let q = inner.len() - 2;
        assert(spec_find(inner_full, spec_crlfcrlf()) == Some(q));
        assert(occurs_at(inner_full, spec_crlfcrlf(), q));
        let pre = l0 + spec_crlf();
        assert(full =~= pre + inner_full);
        let p = pre.len() + q;
        lemma_occurs_shift(pre, inner_full, spec_crlfcrlf(), q);
        assert(occurs_at(full, spec_crlfcrlf(), p));
        assert forall|j: int| 0 <= j < p implies !occurs_at(full, spec_crlfcrlf(), j) by {
            if j < l0.len() {
                assert(full[j] == pre[j]);
                assert(pre[j] == l0[j]);
                assert(full[j] != 13);
            } else if j == l0.len() {
                let first_inner = rest_lines[0];
                assert(inner == first_inner + spec_crlf() + cat_lines(rest_lines.drop_first()));
                assert(first_inner.len() > 0);
                if occurs_at(full, spec_crlfcrlf(), j) {
                    assert(full[j + 2] == 13);
                    assert(full[j + 2] == inner_full[0]);
                    assert(inner_full[0] == inner[0]);
                    assert(inner[0] == first_inner[0]);
                    assert(first_inner[0] != 13);
                }
            } else if j == l0.len() + 1 {
                if occurs_at(full, spec_crlfcrlf(), j) {
                    assert(full[j] == pre[l0.len() as int + 1]);
                    assert(full[j] == 10);
                }
            } else {
                lemma_occurs_shift(pre, inner_full, spec_crlfcrlf(), j - pre.len());
                assert(!occurs_at(inner_full, spec_crlfcrlf(), j - pre.len()));
            }
        }
        lemma_find_unique(full, spec_crlfcrlf(), p);
        assert(p == cat_lines(ls).len() - 2);
    }
}

/// In a joined run of lines whose first line is non-empty and break-free, the
/// first line terminator sits exactly at the end of that first line.
proof fn lemma_find_first_line(ls: Seq<Seq<u8>>)
    requires
        ls.len() > 0,
        line_clean(ls[0]),
    ensures
        spec_find(cat_lines(ls), spec_crlf()) == Some(ls[0].len() as int),
        cat_lines(ls).take(ls[0].len() as int) == ls[0],
        cat_lines(ls).skip(ls[0].len() as int + 2) == cat_lines(ls.drop_first()),
{
    let l0 = ls[0];
    let rest = cat_lines(ls.drop_first());
    let full = cat_lines(ls);
    assert(full == l0 + spec_crlf() + rest);
    let p = l0.len() as int;
    assert(occurs_at(full, spec_crlf(), p)) by {
        assert forall|k: int| 0 <= k < 2 implies full[p + k] == spec_crlf()[k] by {
            assert(full[p + k] == (spec_crlf() + rest)[k]);
        }
    }
    assert forall|j: int| 0 <= j < p implies !occurs_at(full, spec_crlf(), j) by {
        assert(full[j] == l0[j]);
        assert(full[j] != 13);
    }
    lemma_find_unique(full, spec_crlf(), p);
    assert(full.take(p) =~= l0);
    assert(full.skip(p + 2) =~= rest);
}

proof fn lemma_parse_version_of_bytes(v: HttpVersion)
    ensures
        spec_parse_version(spec_version_bytes(v)) == Some(v),
{
    let b09 = spec_version_bytes(HttpVersion::V09);
    let b10 = spec_version_bytes(HttpVersion::V10);
    let b11 = spec_version_bytes(HttpVersion::V11);
    let b2 = spec_version_bytes(HttpVersion::V2);
    let b3 = spec_version_bytes(HttpVersion::V3);
    match v {
        HttpVersion::V09 => {},
        HttpVersion::V10 => {
            assert(b10[7] != b09[7]);
        },
        HttpVersion::V11 => {
            assert(b11[7] != b09[7]);
            assert(b11[7] != b10[7]);
        },
        HttpVersion::V2 => {
            assert(b2[5] != b09[5]);
            assert(b2[5] != b10[5]);
            assert(b2[5] != b11[5]);
        },
        HttpVersion::V3 => {
            assert(b3[5] != b09[5]);
            assert(b3[5] != b10[5]);
            assert(b3[5] != b11[5]);
            assert(b3[5] != b2[5]);
        },
    }
}

/// The request line of a well-formed message parses back to its parts.
proof fn lemma_parse_request_line_of_encoded(m: MessageModel)
    requires
        msg_well_formed(m),
    ensures
        spec_parse_request_line(spec_request_line(m)) == Some((m.0, m.1, m.2)),
{
    let rl = spec_request_line(m);
    lemma_token_clean(m.0);
    lemma_version_clean(m.2);
    let p = m.0.len() as int;
    assert(occurs_at(rl, seq![32u8], p)) by {
        assert(rl[p] == (seq![32u8] + m.1 + seq![32u8] + spec_version_bytes(m.2))[0]);
    }
    assert forall|j: int| 0 <= j < p implies !occurs_at(rl, seq![32u8], j) by {
        if occurs_at(rl, seq![32u8], j) {
            assert(rl[j + 0] == seq![32u8][0]);
            assert(rl[j] == m.0[j]);
        }
    }
    lemma_find_unique(rl, seq![32u8], p);
    assert(rl.take(p) =~= m.0);
    let rest = rl.skip(p + 1);
    assert(rest =~= m.1 + seq![32u8] + spec_version_bytes(m.2));
    let q = m.1.len() as int;
    assert(occurs_at(rest, seq![32u8], q)) by {
        assert(rest[q] == (seq![32u8] + spec_version_bytes(m.2))[0]);
    }
    assert forall|j: int| 0 <= j < q implies !occurs_at(rest, seq![32u8], j) by {
        if occurs_at(rest, seq![32u8], j) {
            assert(rest[j + 0] == seq![32u8][0]);
            assert(rest[j] == m.1[j]);
        }
    }
    lemma_find_unique(rest, seq![32u8], q);
    assert(rest.take(q) =~= m.1);
    assert(rest.skip(q + 1) =~= spec_version_bytes(m.2));
    lemma_parse_version_of_bytes(m.2);
}

proof fn lemma_lower_upper(s: Seq<u8>)
    ensures
        spec_lower(spec_upper(s)) == spec_lower(s),
{
    assert forall|i: int| 0 <= i < s.len() implies spec_lower(spec_upper(s))[i] == spec_lower(
        s,
    )[i] by {
        assert(spec_lower(spec_upper(s))[i] == spec_lower_byte(spec_upper_byte(s[i])));
        assert(spec_lower(s)[i] == spec_lower_byte(s[i]));
    }
    assert(spec_lower(spec_upper(s)) =~= spec_lower(s));
}

/// A well-formed header line parses back to the header, name lower-cased.
proof fn lemma_parse_header_line_of_encoded(h: (Seq<u8>, Seq<u8>))
    requires
        header_well_formed(h),
    ensures
        spec_parse_header_line(header_line_content(h)) == Some((spec_lower(h.0), h.1)),
{
    let hl = header_line_content(h);
    let up = spec_upper(h.0);
    lemma_upper_token(h.0);
    let p = up.len() as int;
    assert(occurs_at(hl, seq![58u8], p)) by {
        assert(hl[p] == (seq![58u8, 32u8] + h.1)[0]);
    }
    assert forall|j: int| 0 <= j < p implies !occurs_at(hl, seq![58u8], j) by {
        if occurs_at(hl, seq![58u8], j) {
            assert(hl[j + 0] == seq![58u8][0]);
            assert(hl[j] == up[j]);
        }
    }
    lemma_find_unique(hl, seq![58u8], p);
    assert(hl.take(p) =~= up);
    assert(spec_trim(up) == up) by {
        assert(!is_ascii_ws(up[0]));
        assert(spec_trim_front(up) == up);
        assert(!is_ascii_ws(up[up.len() - 1]));
        assert(spec_trim_back(up) == up);
    }
    let vraw = hl.skip(p + 1);
    assert(vraw =~= seq![32u8] + h.1);
    assert(vraw.len() > 0 && is_ascii_ws(vraw[0]));
    assert(spec_trim_front(vraw) == spec_trim_front(vraw.drop_first()));
    assert(vraw.drop_first() =~= h.1);
    if h.1.len() > 0 {
        assert(!is_ascii_ws(h.1[0]));
        assert(spec_trim_front(h.1) == h.1);
        assert(!is_ascii_ws(h.1[h.1.len() - 1]));
        assert(spec_trim_back(h.1) == h.1);
    } else {
        assert(spec_trim_front(h.1) == h.1);
        assert(spec_trim_back(h.1) == h.1);
    }
    assert(spec_trim(vraw) == h.1);
    lemma_lower_upper(h.0);
}

/// The header lines of a well-formed message parse back to its headers with
/// names lower-cased.
proof fn lemma_parse_headers_of_encoded(hs: Seq<(Seq<u8>, Seq<u8>)>)
    requires
        forall|i: int| 0 <= i < hs.len() ==> header_well_formed(#[trigger] hs[i]),
    ensures
        spec_parse_headers(
            cat_lines(hs.map_values(|h: (Seq<u8>, Seq<u8>)| header_line_content(h))),
        ) == spec_lower_headers(hs),
    decreases hs.len(),
{
    let f = |h: (Seq<u8>, Seq<u8>)| header_line_content(h);
    let ls = hs.map_values(f);
    if hs.len() == 0 {
        assert(cat_lines(ls) =~= Seq::<u8>::empty());
        assert(spec_parse_headers(Seq::<u8>::empty()) =~= Seq::<(Seq<u8>, Seq<u8>)>::empty());
        assert(spec_lower_headers(hs) =~= Seq::<(Seq<u8>, Seq<u8>)>::empty());
    } else {
        let h0 = hs[0];
        assert(header_well_formed(h0));
        lemma_upper_token(h0.0);
        lemma_value_clean(h0.1);
        assert(line_clean(ls[0])) by {
            let hl = header_line_content(h0);
            assert(ls[0] == hl);
            assert forall|k: int| 0 <= k < hl.len() implies hl[k] != 13 && hl[k] != 10 by {
                if k < h0.0.len() {
                    assert(hl[k] == spec_upper(h0.0)[k]);
                } else if k == h0.0.len() {
                    assert(hl[k] == 58);
                } else if k == h0.0.len() + 1 {
                    assert(hl[k] == 32);
                } else {
                    assert(hl[k] == h0.1[k - (h0.0.len() + 2)]);
                }
            }
        }
        lemma_find_first_line(ls);
        lemma_parse_header_line_of_encoded(h0);
        assert(ls.drop_first() =~= hs.drop_first().map_values(f));
        lemma_parse_headers_of_encoded(hs.drop_first());
        assert(spec_parse_headers(cat_lines(ls)) == seq![(spec_lower(h0.0), h0.1)]
            + spec_lower_headers(hs.drop_first()));
        assert(spec_lower_headers(hs) =~= seq![(spec_lower(h0.0), h0.1)] + spec_lower_headers(
            hs.drop_first(),
        ));
    }
}

/// A well-formed message block parses back to the message, header names
/// lower-cased.
proof fn lemma_parse_msg_of_encoded(m: MessageModel)
    requires
        msg_well_formed(m),
    ensures
        spec_parse_msg(cat_lines(message_lines(m))) == Some(spec_normalize(m)),
{
    let ls = message_lines(m);
    lemma_message_lines_clean(m);
    lemma_find_first_line(ls);
    lemma_parse_request_line_of_encoded(m);
    assert(ls.drop_first() =~= m.3.map_values(|h: (Seq<u8>, Seq<u8>)| header_line_content(h)));
    lemma_parse_headers_of_encoded(m.3);
}

/// Decoding a buffer that starts with one well-formed encoded message yields
/// that message (modulo header-name case) followed by whatever the remainder
/// decodes to, with the same undecoded tail.
pub proof fn lemma_decode_one(m: MessageModel, rest: Seq<u8>)
    requires
        msg_well_formed(m),
    ensures
        spec_decode(spec_encode(m) + rest).0 == seq![spec_normalize(m)] + spec_decode(rest).0,
        spec_decode(spec_encode(m) + rest).1 == spec_decode(rest).1,
{
    let ls = message_lines(m);
    lemma_encode_as_lines(m);
    lemma_message_lines_clean(m);
    let body = cat_lines(ls);
    let full = spec_encode(m) + rest;
    assert(full =~= body + spec_crlf() + rest);
    lemma_find_blank_line(ls, rest);
    let i = body.len() - 2;
    assert(spec_find(full, spec_crlfcrlf()) == Some(i));
    assert(full.take(i + 2) =~= body);
    assert(full.skip(i + 4) =~= rest);
    lemma_parse_msg_of_encoded(m);
    assert(spec_decode(full).0 == seq![spec_normalize(m)] + spec_decode(rest).0);
}

/// Round trip: decoding the encoding of a well-formed message yields exactly
/// that message with header names lower-cased, and consumes every byte.
pub proof fn lemma_encode_decode_round_trip(m: MessageModel)
    requires
        msg_well_formed(m),
    ensures
        spec_decode(spec_encode(m)).0 == seq![spec_normalize(m)],
        spec_decode(spec_encode(m)).1 == Seq::<u8>::empty(),
{
    lemma_decode_one(m, Seq::empty());
    assert(spec_encode(m) + Seq::<u8>::empty() =~= spec_encode(m));
    assert(spec_decode(Seq::<u8>::empty()).0 =~= Seq::<MessageModel>::empty());
    assert(seq![spec_normalize(m)] + Seq::<MessageModel>::empty() =~= seq![spec_normalize(m)]);
}

/// The wire form of several messages back to back.
pub open spec fn spec_encode_all(ms: Seq<MessageModel>) -> Seq<u8>
    decreases ms.len(),
{
    if ms.len() == 0 {
        Seq::empty()
    } else {
        spec_encode(ms[0]) + spec_encode_all(ms.drop_first())
    }
}

/// Decoding a buffer of back-to-back well-formed messages yields exactly
/// those messages, in order and modulo header-name case, and drains exactly
/// their bytes.
pub proof fn lemma_decode_back_to_back(ms: Seq<MessageModel>)
    requires
        forall|i: int| 0 <= i < ms.len() ==> msg_well_formed(#[trigger] ms[i]),
    ensures
        spec_decode(spec_encode_all(ms)).0 == ms.map_values(|m: MessageModel| spec_normalize(m)),
        spec_decode(spec_encode_all(ms)).1 == Seq::<u8>::empty(),
        spec_decode(spec_encode_all(ms)).0.len() == ms.len(),
    decreases ms.len(),
{
    let f = |m: MessageModel| spec_normalize(m);
    if ms.len() == 0 {
        assert(spec_decode(Seq::<u8>::empty()).0 =~= Seq::<MessageModel>::empty());
        assert(ms.map_values(f) =~= Seq::<MessageModel>::empty());
    } else {
        lemma_decode_back_to_back(ms.drop_first());
        lemma_decode_one(ms[0], spec_encode_all(ms.drop_first()));
        assert(spec_decode(spec_encode_all(ms)).0 =~= seq![spec_normalize(ms[0])] + ms.drop_first()
            .map_values(f));
        assert(ms.map_values(f) =~= seq![spec_normalize(ms[0])] + ms.drop_first().map_values(f));
    }
}

} // verus!
