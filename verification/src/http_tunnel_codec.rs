//! The CONNECT handshake codec: framing, parsing, target admission and
//! response encoding.
//!
//! A request is framed by the four-byte `\r\n\r\n` marker or by the size
//! cap. The whole buffered head must keep to printable ASCII and
//! whitespace — a malformed or non-ASCII byte anywhere makes the
//! request bad — and its first line must read `CONNECT host:port
//! HTTP/1.1`; the authority is then matched against the configured
//! allowlist. The response is a single fixed status line per result,
//! except that no response is synthesized when a nugget is pending.

use vstd::prelude::*;

use crate::pattern::{Allowlist, regex_is_match};
use crate::proxy_target::Nugget;
use crate::tunnel::{EstablishTunnelResult, TunnelCtx, TunnelTarget};

verus! {

/// Cap on the bytes a request may occupy before its end marker.
pub const MAX_HTTP_REQUEST_SIZE: usize = 16384;

pub const CR: u8 = 13;

pub const LF: u8 = 10;

pub const SP: u8 = 32;

/// The buffer ends with the `\r\n\r\n` request end marker.
pub open spec fn ends_with_marker(s: Seq<u8>) -> bool {
    &&& s.len() >= 4
    &&& s[s.len() - 4] == 13
    &&& s[s.len() - 3] == 10
    &&& s[s.len() - 2] == 13
    &&& s[s.len() - 1] == 10
}

/// The buffer holds a complete request: it ends with the marker, or it
/// reached the size cap without one.
pub open spec fn request_complete(s: Seq<u8>) -> bool {
    s.len() >= 16384 || ends_with_marker(s)
}

/// A CRLF pair stands at position `i`.
pub open spec fn is_crlf_at(s: Seq<u8>, i: int) -> bool {
    &&& 0 <= i
    &&& i + 1 < s.len()
    &&& s[i] == 13
    &&& s[i + 1] == 10
}

pub open spec fn has_crlf(s: Seq<u8>) -> bool {
    exists|i: int| is_crlf_at(s, i)
}

/// The first CRLF pair stands at position `i`.
pub open spec fn first_crlf_at(s: Seq<u8>, i: int) -> bool {
    &&& is_crlf_at(s, i)
    &&& forall|j: int| 0 <= j < i ==> !is_crlf_at(s, j)
}

/// The request line: everything before the first CRLF.
pub open spec fn request_line(s: Seq<u8>) -> Seq<u8> {
    s.subrange(0, choose|i: int| first_crlf_at(s, i))
}

pub open spec fn token_free_of_space(t: Seq<u8>) -> bool {
    forall|i: int| 0 <= i < t.len() ==> t[i] != 32
}

/// The line splits into exactly three nonempty space-free tokens
/// separated by single spaces.
pub open spec fn three_tokens(line: Seq<u8>, m: Seq<u8>, a: Seq<u8>, v: Seq<u8>) -> bool {
    &&& line == m + seq![32u8] + a + seq![32u8] + v
    &&& m.len() > 0
    &&& a.len() > 0
    &&& v.len() > 0
    &&& token_free_of_space(m)
    &&& token_free_of_space(a)
    &&& token_free_of_space(v)
}

/// The bytes of `CONNECT`.
pub open spec fn connect_method() -> Seq<u8> {
    seq![67u8, 79u8, 78u8, 78u8, 69u8, 67u8, 84u8]
}

/// The bytes of `HTTP/1.1`.
pub open spec fn http_version() -> Seq<u8> {
    seq![72u8, 84u8, 84u8, 80u8, 47u8, 49u8, 46u8, 49u8]
}

pub open spec fn is_digit(b: u8) -> bool {
    48 <= b <= 57
}

/// Bytes admissible in an authority: printable ASCII without the space.
pub open spec fn authority_byte(b: u8) -> bool {
    33 <= b <= 126
}

/// The authority splits at the colon `a[c]` into a nonempty host and a
/// nonempty all-digit port. At most one position can satisfy this, since
/// everything after the split must be a digit.
pub open spec fn authority_split_at(a: Seq<u8>, c: int) -> bool {
    &&& 1 <= c < a.len() - 1
    &&& a[c] == 58
    &&& forall|j: int| c < j < a.len() ==> is_digit(a[j])
}

/// A well-formed `host:port` authority in printable ASCII.
pub open spec fn valid_authority(a: Seq<u8>) -> bool {
    &&& forall|i: int| 0 <= i < a.len() ==> authority_byte(a[i])
    &&& exists|c: int| authority_split_at(a, c)
}

/// The authority's bytes read as characters.
pub open spec fn ascii_chars(a: Seq<u8>) -> Seq<char> {
    Seq::new(a.len(), |i: int| a[i] as char)
}

/// A byte tolerated anywhere in a buffered request head: printable
/// ASCII, or ASCII whitespace. Anything else — in particular any byte
/// that could begin or continue a non-ASCII or malformed UTF-8
/// sequence — makes the request bad, whichever line it stands on.
pub open spec fn head_byte_ok(b: u8) -> bool {
    (32 <= b <= 126) || (9 <= b <= 13)
}

/// The whole buffered head keeps to the tolerated bytes.
pub open spec fn ascii_head(s: Seq<u8>) -> bool {
    forall|i: int| 0 <= i < s.len() ==> head_byte_ok(s[i])
}

/// What parsing a complete request buffer yields: the authority bytes of
/// a well-formed CONNECT request, or the result to answer with. A buffer
/// holding a byte outside printable ASCII and whitespace anywhere — so
/// in particular any malformed UTF-8 — is a bad request, as is one
/// without a line break or with a malformed line; a well-formed line
/// with a method other than `CONNECT` is an operation that is not
/// allowed.
pub open spec fn spec_parse(s: Seq<u8>) -> Result<Seq<u8>, EstablishTunnelResult> {
    if !ascii_head(s) {
        Err(EstablishTunnelResult::BadRequest)
    } else if !has_crlf(s) {
        Err(EstablishTunnelResult::BadRequest)
    } else {
        let line = request_line(s);
        if !(exists|t: (Seq<u8>, Seq<u8>, Seq<u8>)| three_tokens(line, t.0, t.1, t.2)) {
            Err(EstablishTunnelResult::BadRequest)
        } else {
            let t = choose|t: (Seq<u8>, Seq<u8>, Seq<u8>)| three_tokens(line, t.0, t.1, t.2);
            if t.0 != connect_method() {
                Err(EstablishTunnelResult::OperationNotAllowed)
            } else if t.2 != http_version() {
                Err(EstablishTunnelResult::BadRequest)
            } else if !valid_authority(t.1) {
                Err(EstablishTunnelResult::BadRequest)
            } else {
                Ok(t.1)
            }
        }
    }
}

/// Whether the buffer holds a complete request, so that decoding may
/// proceed.
pub fn got_http_request(buffer: &[u8]) -> (r: bool)
    ensures
        r == request_complete(buffer@),
{
    let n = buffer.len();
    if n >= MAX_HTTP_REQUEST_SIZE {
        true
    } else if n >= 4 {
        buffer[n - 4] == CR && buffer[n - 3] == LF && buffer[n - 2] == CR && buffer[n - 1] == LF
    } else {
        false
    }
}

/// The position of the first CRLF pair, scanning from the front.
fn find_line_end(s: &[u8]) -> (r: Option<usize>)
    ensures
        match r {
            Some(i) => first_crlf_at(s@, i as int),
            None => !has_crlf(s@),
        },
{
    let n = s.len();
    if n < 2 {
        return None;
    }
    let mut i: usize = 0;
    while i < n - 1
        invariant
            n == s@.len(),
            n >= 2,
            i <= n,
            forall|j: int| 0 <= j < i ==> !is_crlf_at(s@, j),
        decreases n - i,
    {
        if s[i] == CR && s[i + 1] == LF {
            return Some(i);
        }
        i = i + 1;
    }
    None
}

/// The position of the first space at or after `from`.
fn find_space(s: &[u8], from: usize) -> (r: Option<usize>)
    requires
        from <= s@.len(),
    ensures
        match r {
            Some(p) => from <= p < s@.len() && s@[p as int] == 32 && forall|j: int|
                from <= j < p ==> s@[j] != 32,
            None => forall|j: int| from <= j < s@.len() ==> s@[j] != 32,
        },
{
    let n = s.len();
    let mut i: usize = from;
    while i < n
        invariant
            n == s@.len(),
            from <= i <= n,
            forall|j: int| from <= j < i ==> s@[j] != 32,
        decreases n - i,
    {
        if s[i] == SP {
            return Some(i);
        }
        i = i + 1;
    }
    None
}

/// Whether the token reads `CONNECT`.
fn is_connect_token(t: &[u8]) -> (r: bool)
    ensures
        r == (t@ == connect_method()),
{
    let r = t.len() == 7 && t[0] == 67 && t[1] == 79 && t[2] == 78 && t[3] == 78 && t[4] == 69
        && t[5] == 67 && t[6] == 84;
    proof {
        if r {
            assert(t@ =~= connect_method());
        } else {
            if t@ == connect_method() {
                assert(t@.len() == 7);
                assert(t@[0] == 67 && t@[1] == 79 && t@[2] == 78 && t@[3] == 78 && t@[4] == 69
                    && t@[5] == 67 && t@[6] == 84);
            }
        }
    }
    r
}

/// Whether the token reads `HTTP/1.1`.
fn is_http_version_token(t: &[u8]) -> (r: bool)
    ensures
        r == (t@ == http_version()),
{
    let r = t.len() == 8 && t[0] == 72 && t[1] == 84 && t[2] == 84 && t[3] == 80 && t[4] == 47
        && t[5] == 49 && t[6] == 46 && t[7] == 49;
    proof {
        if r {
            assert(t@ =~= http_version());
        } else {
            if t@ == http_version() {
                assert(t@.len() == 8);
                assert(t@[0] == 72 && t@[1] == 84 && t@[2] == 84 && t@[3] == 80 && t@[4] == 47
                    && t@[5] == 49 && t@[6] == 46 && t@[7] == 49);
            }
        }
    }
    r
}

/// Whether the token is a well-formed `host:port` authority.
fn validate_authority(a: &[u8]) -> (r: bool)
    ensures
        r == valid_authority(a@),
{
    let n = a.len();
    let mut i: usize = 0;
    while i < n
        invariant
            n == a@.len(),
            i <= n,
            forall|j: int| 0 <= j < i ==> authority_byte(a@[j]),
        decreases n - i,
    {
        let b = a[i];
        if !(33 <= b && b <= 126) {
            return false;
        }
        i = i + 1;
    }
    // Find the last colon; only it can begin an all-digit port.
    let mut colon: usize = n;
    let mut k: usize = n;
    while k > 0
        invariant
            n == a@.len(),
            k <= n,
            colon == n || (k <= colon < n && a@[colon as int] == 58),
            forall|j: int| k <= j < n && a@[j] == 58 ==> colon < n && j <= colon,
        decreases k,
    {
        k = k - 1;
        if colon == n && a[k] == 58 {
            colon = k;
        }
    }
    if colon == n {
        // No colon at all: no split position exists.
        proof {
            assert forall|c: int| !authority_split_at(a@, c) by {
                if 0 <= c < n {
                    assert(a@[c] != 58);
                }
            }
        }
        return false;
    }
    if colon < 1 || colon + 1 >= n {
        proof {
            assert forall|c: int| !authority_split_at(a@, c) by {
                if authority_split_at(a@, c) {
                    // Any split must lie at the last colon: a later colon
                    // would have to be a digit.
                    if c < colon {
                        assert(is_digit(a@[colon as int]));
                    }
                    assert(c == colon);
                }
            }
        }
        return false;
    }
    let mut j: usize = colon + 1;
    while j < n
        invariant
            n == a@.len(),
            colon + 1 <= j <= n,
            1 <= colon && colon + 1 < n,
            a@[colon as int] == 58,
            forall|q: int| colon < q < n && a@[q] == 58 ==> q <= colon,
            forall|q: int| colon < q < j ==> is_digit(a@[q]),
        decreases n - j,
    {
        let b = a[j];
        if !(48 <= b && b <= 57) {
            proof {
                assert forall|c: int| !authority_split_at(a@, c) by {
                    if authority_split_at(a@, c) {
                        if c < colon {
                            assert(is_digit(a@[colon as int]));
                        }
                        if c > colon {
                            assert(a@[c] == 58 && c < n);
                        }
                        assert(c == colon);
                        assert(is_digit(a@[j as int]));
                    }
                }
            }
            return false;
        }
        j = j + 1;
    }
    proof {
        assert(authority_split_at(a@, colon as int));
    }
    true
}

/// Two positions cannot both be the first CRLF.
proof fn lemma_first_crlf_unique(s: Seq<u8>, i: int, j: int)
    requires
        first_crlf_at(s, i),
        first_crlf_at(s, j),
    ensures
        i == j,
{
}

/// Where a three-token split puts the line's bytes: the two separating
/// spaces are the only spaces, and each token is the subrange between
/// them.
proof fn lemma_three_tokens_positions(line: Seq<u8>, m: Seq<u8>, a: Seq<u8>, v: Seq<u8>)
    requires
        three_tokens(line, m, a, v),
    ensures
        line.len() == m.len() + a.len() + v.len() + 2,
        line[m.len() as int] == 32,
        line[m.len() + a.len() + 1int] == 32,
        forall|k: int| 0 <= k < m.len() ==> line[k] == m[k] && line[k] != 32,
        forall|k: int|
            m.len() < k < m.len() + a.len() + 1 ==> line[k] == a[k - m.len() - 1] && line[k] != 32,
        forall|k: int|
            m.len() + a.len() + 1 < k < line.len() ==> line[k] == v[k - m.len() - a.len() - 2]
                && line[k] != 32,
        forall|k: int|
            0 <= k < line.len() && line[k] == 32 ==> k == m.len() || k == m.len() + a.len() + 1,
        m == line.subrange(0, m.len() as int),
        a == line.subrange(m.len() as int + 1, m.len() + 1int + a.len()),
        v == line.subrange(m.len() + a.len() + 2int, line.len() as int),
{
    let lm = m.len() as int;
    let la = a.len() as int;
    assert forall|k: int| 0 <= k < lm implies line[k] == m[k] && line[k] != 32 by {
        assert(line[k] == (m + seq![32u8] + a + seq![32u8] + v)[k]);
    }
    assert forall|k: int| lm < k < lm + la + 1 implies line[k] == a[k - lm - 1] && line[k] != 32 by {
        assert(line[k] == (m + seq![32u8] + a + seq![32u8] + v)[k]);
    }
    assert forall|k: int| lm + la + 1 < k < line.len() implies line[k] == v[k - lm - la - 2]
        && line[k] != 32 by {
        assert(line[k] == (m + seq![32u8] + a + seq![32u8] + v)[k]);
    }
    assert(line[lm] == (m + seq![32u8] + a + seq![32u8] + v)[lm]);
    assert(line[lm + la + 1] == (m + seq![32u8] + a + seq![32u8] + v)[lm + la + 1]);
    assert(m =~= line.subrange(0, lm));
    assert(a =~= line.subrange(lm + 1, lm + 1 + la));
    assert(v =~= line.subrange(lm + la + 2, line.len() as int));
}

/// A line splits into three tokens in at most one way: the separating
/// spaces are the first two spaces of the line.
proof fn lemma_three_tokens_unique(
    line: Seq<u8>,
    m1: Seq<u8>,
    a1: Seq<u8>,
    v1: Seq<u8>,
    m2: Seq<u8>,
    a2: Seq<u8>,
    v2: Seq<u8>,
)
    requires
        three_tokens(line, m1, a1, v1),
        three_tokens(line, m2, a2, v2),
    ensures
        m1 == m2,
        a1 == a2,
        v1 == v2,
{
    lemma_three_tokens_positions(line, m1, a1, v1);
    lemma_three_tokens_positions(line, m2, a2, v2);
    let l1 = m1.len() as int;
    let l2 = m2.len() as int;
    if l1 < l2 {
        assert(line[l1] == m2[l1]);
    }
    if l2 < l1 {
        assert(line[l2] == m1[l2]);
    }
    assert(l1 == l2);
    let q1 = l1 + a1.len() + 1;
    let q2 = l2 + a2.len() + 1;
    if q1 < q2 {
        assert(line[q1] == a2[q1 - l2 - 1]);
    }
    if q2 < q1 {
        assert(line[q2] == a1[q2 - l1 - 1]);
    }
    assert(q1 == q2);
    assert(m1 =~= m2);
    assert(a1 =~= a2);
    assert(v1 =~= v2);
}

/// Relies on String::from_utf8: ASCII bytes decode to one character per
/// byte.
#[verifier::external_body]
fn ascii_to_string(bytes: &[u8]) -> (s: String)
    requires
        forall|i: int| 0 <= i < bytes@.len() ==> bytes@[i] < 128,
    ensures
        s@ == ascii_chars(bytes@),
{
    String::from_utf8(bytes.to_vec()).expect("ASCII bytes are valid UTF-8")
}

/// One HTTP/1.1 CONNECT request: the authority it asks a tunnel to, and
/// possibly a nugget of already-buffered bytes to forward. Strict
/// CONNECT framing never yields a nugget.
pub struct HttpConnectRequest {
    pub uri: String,
    pub nugget: Option<Nugget>,
}

impl HttpConnectRequest {
    /// Parse one complete request buffer into a CONNECT target, or the
    /// result to answer with, exactly as `spec_parse` classifies the
    /// bytes.
    pub fn parse(http_request: &[u8]) -> (r: Result<HttpConnectRequest, EstablishTunnelResult>)
        ensures
            match r {
                Ok(req) => spec_parse(http_request@) matches Ok(auth) && req.uri@ == ascii_chars(
                    auth,
                ) && req.nugget is None,
                Err(e) => spec_parse(http_request@) == Err::<Seq<u8>, EstablishTunnelResult>(e),
            },
    {
        let s = http_request;
        let n = s.len();
        let mut i: usize = 0;
        while i < n
            invariant
                s@ == http_request@,
                n == s@.len(),
                i <= n,
                forall|j: int| 0 <= j < i ==> head_byte_ok(s@[j]),
            decreases n - i,
        {
            let b = s[i];
            if !((32 <= b && b <= 126) || (9 <= b && b <= 13)) {
                proof {
                    assert(!head_byte_ok(s@[i as int]));
                    assert(!ascii_head(s@));
                }
                return Err(EstablishTunnelResult::BadRequest);
            }
            i = i + 1;
        }
        proof {
            assert(ascii_head(s@));
        }
        let le = match find_line_end(s) {
            None => {
                return Err(EstablishTunnelResult::BadRequest);
            },
            Some(le) => le,
        };
        let line: &[u8] = &s[0..le];
        proof {
            assert(exists|i: int| first_crlf_at(s@, i));
            let ci = choose|i: int| first_crlf_at(s@, i);
            lemma_first_crlf_unique(s@, ci, le as int);
            assert(request_line(s@) == line@);
        }
        let ghost gline = line@;
        let p1 = match find_space(line, 0) {
            None => {
                proof {
                    assert forall|t: (Seq<u8>, Seq<u8>, Seq<u8>)| !three_tokens(
                        gline,
                        t.0,
                        t.1,
                        t.2,
                    ) by {
                        if three_tokens(gline, t.0, t.1, t.2) {
                            lemma_three_tokens_positions(gline, t.0, t.1, t.2);
                        }
                    }
                }
                return Err(EstablishTunnelResult::BadRequest);
            },
            Some(p) => p,
        };
        let p2 = match find_space(line, p1 + 1) {
            None => {
                proof {
                    assert forall|t: (Seq<u8>, Seq<u8>, Seq<u8>)| !three_tokens(
                        gline,
                        t.0,
                        t.1,
                        t.2,
                    ) by {
                        if three_tokens(gline, t.0, t.1, t.2) {
                            lemma_three_tokens_positions(gline, t.0, t.1, t.2);
                            let lm = t.0.len() as int;
                            let q = lm + t.1.len() + 1;
                            assert(gline[lm] == 32 && gline[q] == 32 && lm < q);
                            assert(lm == p1 || lm > p1);
                        }
                    }
                }
                return Err(EstablishTunnelResult::BadRequest);
            },
            Some(p) => p,
        };
        match find_space(line, p2 + 1) {
            Some(p3) => {
                proof {
                    assert forall|t: (Seq<u8>, Seq<u8>, Seq<u8>)| !three_tokens(
                        gline,
                        t.0,
                        t.1,
                        t.2,
                    ) by {
                        if three_tokens(gline, t.0, t.1, t.2) {
                            lemma_three_tokens_positions(gline, t.0, t.1, t.2);
                            let lm = t.0.len() as int;
                            let q = lm + t.1.len() + 1;
                            assert(gline[p1 as int] == 32 && gline[p2 as int] == 32 && gline[p3
                                as int] == 32);
                            assert(p1 == lm || p1 == q);
                            assert(p2 == lm || p2 == q);
                            assert(p3 == lm || p3 == q);
                        }
                    }
                }
                return Err(EstablishTunnelResult::BadRequest);
            },
            None => {},
        }
        // The line's only spaces stand at `p1` and `p2`; the split is
        // forced, and each token must be nonempty.
        if p1 == 0 || p2 == p1 + 1 || p2 + 1 >= line.len() {
            proof {
                assert forall|t: (Seq<u8>, Seq<u8>, Seq<u8>)| !three_tokens(
                    gline,
                    t.0,
                    t.1,
                    t.2,
                ) by {
                    if three_tokens(gline, t.0, t.1, t.2) {
                        lemma_three_tokens_positions(gline, t.0, t.1, t.2);
                        let lm = t.0.len() as int;
                        let q = lm + t.1.len() + 1;
                        assert(gline[lm] == 32 && gline[q] == 32 && lm < q);
                        assert(lm == p1 && q == p2);
                        assert(gline.len() == lm + t.1.len() + t.2.len() + 2);
                    }
                }
            }
            return Err(EstablishTunnelResult::BadRequest);
        }
        let m_token: &[u8] = &line[0..p1];
        let a_token: &[u8] = &line[p1 + 1..p2];
        let v_token: &[u8] = &line[p2 + 1..line.len()];
        proof {
            assert(gline =~= m_token@ + seq![32u8] + a_token@ + seq![32u8] + v_token@);
            assert(three_tokens(gline, m_token@, a_token@, v_token@));
            assert(exists|t: (Seq<u8>, Seq<u8>, Seq<u8>)| three_tokens(gline, t.0, t.1, t.2)) by {
                let w = (m_token@, a_token@, v_token@);
                assert(three_tokens(gline, w.0, w.1, w.2));
            }
            let t = choose|t: (Seq<u8>, Seq<u8>, Seq<u8>)| three_tokens(gline, t.0, t.1, t.2);
            lemma_three_tokens_unique(gline, t.0, t.1, t.2, m_token@, a_token@, v_token@);
        }
        if !is_connect_token(m_token) {
            return Err(EstablishTunnelResult::OperationNotAllowed);
        }
        if !is_http_version_token(v_token) {
            return Err(EstablishTunnelResult::BadRequest);
        }
        if !validate_authority(a_token) {
            return Err(EstablishTunnelResult::BadRequest);
        }
        let uri = ascii_to_string(a_token);
        Ok(HttpConnectRequest { uri, nugget: None })
    }
}

/// A validated proxy target: the authority to connect to, and possibly
/// a nugget of buffered bytes to forward first.
#[derive(Debug)]
pub struct HttpTunnelTarget {
    pub target: String,
    pub nugget: Option<Nugget>,
}

impl PartialEq for HttpTunnelTarget {
    fn eq(&self, other: &Self) -> (r: bool) {
        let targets_eq = self.target == other.target;
        let nuggets_eq = match (&self.nugget, &other.nugget) {
            (None, None) => true,
            (Some(a), Some(b)) => crate::proxy_target::bytes_eq(
                a.data().as_slice(),
                b.data().as_slice(),
            ),
            _ => false,
        };
        targets_eq && nuggets_eq
    }
}

impl vstd::std_specs::cmp::PartialEqSpecImpl for HttpTunnelTarget {
    open spec fn obeys_eq_spec() -> bool {
        true
    }

    open spec fn eq_spec(&self, other: &Self) -> bool {
        &&& self.target@ == other.target@
        &&& match (self.nugget, other.nugget) {
            (None, None) => true,
            (Some(a), Some(b)) => a@ == b@,
            _ => false,
        }
    }
}

impl TunnelTarget for HttpTunnelTarget {
    type Addr = String;

    open spec fn spec_has_nugget(&self) -> bool {
        self.nugget is Some
    }

    open spec fn spec_nugget(&self) -> Seq<u8> {
        self.nugget->Some_0@
    }

    open spec fn spec_target_addr(&self) -> Seq<char> {
        self.target@
    }

    fn target_addr(&self) -> Self::Addr {
        self.target.clone()
    }

    fn has_nugget(&self) -> (b: bool) {
        self.nugget.is_some()
    }

    fn nugget(&self) -> &Nugget {
        self.nugget.as_ref().unwrap()
    }
}

/// What decoding a buffer against a pattern yields: nothing while the
/// request is incomplete; a bad request when the size cap was reached
/// without an end marker; the parse result otherwise, with the authority
/// admitted only if the pattern matches it.
pub open spec fn spec_decode(s: Seq<u8>, pattern: Seq<char>) -> Result<
    Option<Seq<char>>,
    EstablishTunnelResult,
> {
    if !request_complete(s) {
        Ok(None)
    } else if s.len() >= 16384 && !ends_with_marker(s) {
        Err(EstablishTunnelResult::BadRequest)
    } else {
        match spec_parse(s) {
            Err(e) => Err(e),
            Ok(auth) => if regex_is_match(pattern, ascii_chars(auth)) {
                Ok(Some(ascii_chars(auth)))
            } else {
                Err(EstablishTunnelResult::Forbidden)
            },
        }
    }
}

/// The response status line for each establishment result, or nothing
/// for `OkWithNugget`, where the target's own response is relayed.
pub open spec fn spec_response(item: EstablishTunnelResult) -> Option<Seq<char>> {
    match item {
        EstablishTunnelResult::Established => Some("HTTP/1.1 200 OK\r\n\r\n"@),
        EstablishTunnelResult::OkWithNugget => None,
        EstablishTunnelResult::BadRequest => Some("HTTP/1.1 400 BAD_REQUEST\r\n\r\n"@),
        EstablishTunnelResult::Forbidden => Some("HTTP/1.1 403 FORBIDDEN\r\n\r\n"@),
        EstablishTunnelResult::OperationNotAllowed => Some("HTTP/1.1 405 NOT_ALLOWED\r\n\r\n"@),
        EstablishTunnelResult::RequestTimeout => Some("HTTP/1.1 408 TIMEOUT\r\n\r\n"@),
        EstablishTunnelResult::TooManyRequests => Some("HTTP/1.1 429 TOO_MANY_REQUESTS\r\n\r\n"@),
        EstablishTunnelResult::ServerError => Some("HTTP/1.1 500 SERVER_ERROR\r\n\r\n"@),
        EstablishTunnelResult::BadGateway => Some("HTTP/1.1 502 BAD_GATEWAY\r\n\r\n"@),
        EstablishTunnelResult::GatewayTimeout => Some("HTTP/1.1 504 GATEWAY_TIMEOUT\r\n\r\n"@),
    }
}

/// Parsing is complete as well as sound: every buffer that starts with
/// a well-formed request line `CONNECT <authority> HTTP/1.1\r\n` parses
/// to exactly that authority, whatever headers or bytes follow the
/// line, as long as those bytes keep to printable ASCII and whitespace.
pub proof fn lemma_connect_request_parses(auth: Seq<u8>, rest: Seq<u8>)
    requires
        valid_authority(auth),
        forall|i: int| 0 <= i < rest.len() ==> head_byte_ok(rest[i]),
    ensures
        ({
            let s = connect_method() + seq![32u8] + auth + seq![32u8] + http_version() + seq![
                13u8,
                10u8,
            ] + rest;
            spec_parse(s) == Ok::<Seq<u8>, EstablishTunnelResult>(auth)
        }),
{
    let line = connect_method() + seq![32u8] + auth + seq![32u8] + http_version();
    let s = line + seq![13u8, 10u8] + rest;
    let eol = line.len() as int;
    // Authority bytes are printable ASCII, so the line holds no CR, LF
    // or space outside the two separators.
    assert(forall|i: int| 0 <= i < auth.len() ==> 33 <= #[trigger] auth[i] <= 126);
    assert forall|j: int| 0 <= j < eol implies s[j] != 13 && s[j] != 10 by {
        assert(s[j] == line[j]);
        assert(line[j] == (connect_method() + seq![32u8] + auth + seq![32u8] + http_version())[j]);
    }
    assert(s[eol] == 13 && s[eol + 1] == 10);
    // Every byte of the buffer is tolerated: the line is built from
    // ASCII literals and authority bytes, and the rest is assumed so.
    assert forall|j: int| 0 <= j < s.len() implies head_byte_ok(s[j]) by {
        if j < eol {
            assert(s[j] == line[j]);
            assert(line[j] == (connect_method() + seq![32u8] + auth + seq![32u8]
                + http_version())[j]);
        } else if j >= eol + 2 {
            assert(s[j] == rest[j - eol - 2]);
        }
    }
    assert(ascii_head(s));
    assert(first_crlf_at(s, eol));
    assert(has_crlf(s));
    let ci = choose|i: int| first_crlf_at(s, i);
    lemma_first_crlf_unique(s, ci, eol);
    assert(request_line(s) =~= line);
    // The three tokens are the method, the authority and the version.
    assert(token_free_of_space(auth));
    assert(three_tokens(line, connect_method(), auth, http_version()));
    assert(exists|t: (Seq<u8>, Seq<u8>, Seq<u8>)| three_tokens(line, t.0, t.1, t.2)) by {
        let w = (connect_method(), auth, http_version());
        assert(three_tokens(line, w.0, w.1, w.2));
    }
    let t = choose|t: (Seq<u8>, Seq<u8>, Seq<u8>)| three_tokens(line, t.0, t.1, t.2);
    lemma_three_tokens_unique(line, t.0, t.1, t.2, connect_method(), auth, http_version());
}

/// Admission is decided by the allowlist alone: every complete buffer
/// that parses as a CONNECT request is admitted exactly when the pattern
/// matches its authority, and is refused as forbidden otherwise. No
/// other part of the decision depends on the pattern.
pub proof fn lemma_admission_dichotomy(s: Seq<u8>, pattern: Seq<char>)
    requires
        request_complete(s),
        ends_with_marker(s) || s.len() < 16384,
        spec_parse(s) is Ok,
    ensures
        ({
            let auth = spec_parse(s)->Ok_0;
            if regex_is_match(pattern, ascii_chars(auth)) {
                spec_decode(s, pattern) == Ok::<Option<Seq<char>>, EstablishTunnelResult>(
                    Some(ascii_chars(auth)),
                )
            } else {
                spec_decode(s, pattern) == Err::<Option<Seq<char>>, EstablishTunnelResult>(
                    EstablishTunnelResult::Forbidden,
                )
            }
        }),
{
}

/// Every synthesized response is one status line on the wire: it opens
/// with `HTTP/1.1 ` and closes with `\r\n\r\n`, and only the
/// nugget-pending result synthesizes nothing.
pub proof fn lemma_response_wire_format(item: EstablishTunnelResult)
    requires
        item != EstablishTunnelResult::OkWithNugget,
    ensures
        spec_response(item) is Some,
        ({
            let s = spec_response(item)->Some_0;
            &&& s.len() >= 19
            &&& s.subrange(0, 9) == "HTTP/1.1 "@
            &&& s.subrange(s.len() - 4, s.len() as int) == "\r\n\r\n"@
        }),
{
    reveal_strlit("HTTP/1.1 ");
    reveal_strlit("\r\n\r\n");
    reveal_strlit("HTTP/1.1 200 OK\r\n\r\n");
    reveal_strlit("HTTP/1.1 400 BAD_REQUEST\r\n\r\n");
    reveal_strlit("HTTP/1.1 403 FORBIDDEN\r\n\r\n");
    reveal_strlit("HTTP/1.1 405 NOT_ALLOWED\r\n\r\n");
    reveal_strlit("HTTP/1.1 408 TIMEOUT\r\n\r\n");
    reveal_strlit("HTTP/1.1 429 TOO_MANY_REQUESTS\r\n\r\n");
    reveal_strlit("HTTP/1.1 500 SERVER_ERROR\r\n\r\n");
    reveal_strlit("HTTP/1.1 502 BAD_GATEWAY\r\n\r\n");
    reveal_strlit("HTTP/1.1 504 GATEWAY_TIMEOUT\r\n\r\n");
    let s = spec_response(item)->Some_0;
    assert(s.subrange(0, 9) =~= "HTTP/1.1 "@);
    assert(s.subrange(s.len() - 4, s.len() as int) =~= "\r\n\r\n"@);
}

/// Codec for one tunnel handshake: it decodes at most one `CONNECT`
/// request against the allowlist and encodes the status-line response.
pub struct HttpTunnelCodec {
    pub tunnel_ctx: TunnelCtx,
    pub enabled_targets: Allowlist,
}

impl Clone for HttpTunnelCodec {
    fn clone(&self) -> (r: Self)
        ensures
            r.tunnel_ctx == self.tunnel_ctx,
            r.enabled_targets@ == self.enabled_targets@,
    {
        HttpTunnelCodec {
            tunnel_ctx: self.tunnel_ctx,
            enabled_targets: self.enabled_targets.clone(),
        }
    }
}

impl HttpTunnelCodec {
    pub fn new(tunnel_ctx: TunnelCtx, enabled_targets: Allowlist) -> (r: Self)
        ensures
            r.tunnel_ctx == tunnel_ctx,
            r.enabled_targets@ == enabled_targets@,
    {
        HttpTunnelCodec { tunnel_ctx, enabled_targets }
    }

    /// Decode one buffered request: `Ok(None)` until it is complete,
    /// then either the admitted target or the result to answer with,
    /// exactly as `spec_decode` classifies the buffer against the
    /// allowlist.
    pub fn decode(&self, src: &[u8]) -> (r: Result<Option<HttpTunnelTarget>, EstablishTunnelResult>)
        ensures
            match r {
                Ok(None) => spec_decode(src@, self.enabled_targets@) == Ok::<
                    Option<Seq<char>>,
                    EstablishTunnelResult,
                >(None),
                Ok(Some(t)) => spec_decode(src@, self.enabled_targets@) == Ok::<
                    Option<Seq<char>>,
                    EstablishTunnelResult,
                >(Some(t.target@)) && t.nugget is None,
                Err(e) => spec_decode(src@, self.enabled_targets@) == Err::<
                    Option<Seq<char>>,
                    EstablishTunnelResult,
                >(e),
            },
    {
        if !got_http_request(src) {
            return Ok(None);
        }
        if src.len() >= MAX_HTTP_REQUEST_SIZE && !got_end_marker(src) {
            return Err(EstablishTunnelResult::BadRequest);
        }
        match HttpConnectRequest::parse(src) {
            Err(e) => Err(e),
            Ok(parsed_request) => {
                if !self.enabled_targets.is_match(parsed_request.uri.as_str()) {
                    Err(EstablishTunnelResult::Forbidden)
                } else {
                    Ok(
                        Some(
                            HttpTunnelTarget {
                                target: parsed_request.uri,
                                nugget: parsed_request.nugget,
                            },
                        ),
                    )
                }
            },
        }
    }

    /// Encode the response: the fixed status line for the result, or
    /// nothing for `OkWithNugget`.
    pub fn encode(&self, item: EstablishTunnelResult) -> (r: Option<&'static str>)
        ensures
            match r {
                Some(s) => spec_response(item) == Some(s@),
                None => spec_response(item) is None,
            },
    {
        match item {
            EstablishTunnelResult::Established => Some("HTTP/1.1 200 OK\r\n\r\n"),
            EstablishTunnelResult::OkWithNugget => None,
            EstablishTunnelResult::BadRequest => Some("HTTP/1.1 400 BAD_REQUEST\r\n\r\n"),
            EstablishTunnelResult::Forbidden => Some("HTTP/1.1 403 FORBIDDEN\r\n\r\n"),
            EstablishTunnelResult::OperationNotAllowed => Some("HTTP/1.1 405 NOT_ALLOWED\r\n\r\n"),
            EstablishTunnelResult::RequestTimeout => Some("HTTP/1.1 408 TIMEOUT\r\n\r\n"),
            EstablishTunnelResult::TooManyRequests => Some(
                "HTTP/1.1 429 TOO_MANY_REQUESTS\r\n\r\n",
            ),
            EstablishTunnelResult::ServerError => Some("HTTP/1.1 500 SERVER_ERROR\r\n\r\n"),
            EstablishTunnelResult::BadGateway => Some("HTTP/1.1 502 BAD_GATEWAY\r\n\r\n"),
            EstablishTunnelResult::GatewayTimeout => Some("HTTP/1.1 504 GATEWAY_TIMEOUT\r\n\r\n"),
        }
    }
}

/// Whether the buffer ends with the `\r\n\r\n` marker.
fn got_end_marker(buffer: &[u8]) -> (r: bool)
    ensures
        r == ends_with_marker(buffer@),
{
    let n = buffer.len();
    n >= 4 && buffer[n - 4] == CR && buffer[n - 3] == LF && buffer[n - 2] == CR && buffer[n - 1]
        == LF
}

} // verus!
