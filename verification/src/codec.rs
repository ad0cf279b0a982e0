//! JSON wire codec for the identity records. The field names and shapes
//! written here are the wire contract of the service: each record encodes
//! to a flat JSON object whose string values escape the quote, the
//! backslash, newline, carriage return and tab, and carry every other
//! character verbatim; decoding accepts exactly that shape. Decoding an
//! encoded record gives the record back, whatever its fields hold (see
//! the round-trip lemmas at the end).

use vstd::prelude::*;

use crate::records::AuthRequest;
use crate::records::LoginRequest;
use crate::records::LoginResponse;
use crate::records::SignupRequest;
use crate::records::SignupResponse;

verus! {

// ---------------------------------------------------------------------------
// String escaping
// ---------------------------------------------------------------------------

/// How a single character appears inside a JSON string literal: quote,
/// backslash, newline, carriage return and tab take a two-character escape,
/// every other character stands for itself.
pub open spec fn escape_char(c: char) -> Seq<char> {
    if c == '"' {
        seq!['\\', '"']
    } else if c == '\\' {
        seq!['\\', '\\']
    } else if c == '\n' {
        seq!['\\', 'n']
    } else if c == '\r' {
        seq!['\\', 'r']
    } else if c == '\t' {
        seq!['\\', 't']
    } else {
        seq![c]
    }
}

/// The escaped form of a whole string: each character's escape in turn.
pub open spec fn escape(s: Seq<char>) -> Seq<char>
    decreases s.len(),
{
    if s.len() == 0 {
        Seq::empty()
    } else {
        escape_char(s[0]) + escape(s.drop_first())
    }
}

/// The character an escape pair `\c` stands for, if `c` is a valid escape.
pub open spec fn unescape_char(c: char) -> Option<char> {
    if c == '"' {
        Some('"')
    } else if c == '\\' {
        Some('\\')
    } else if c == 'n' {
        Some('\n')
    } else if c == 'r' {
        Some('\r')
    } else if c == 't' {
        Some('\t')
    } else {
        None
    }
}

/// A JSON string literal: the escaped content between two quotes.
pub open spec fn quoted(s: Seq<char>) -> Seq<char> {
    seq!['"'] + escape(s) + seq!['"']
}

/// Escaping distributes over concatenation.
pub proof fn lemma_escape_concat(a: Seq<char>, b: Seq<char>)
    ensures
        escape(a + b) == escape(a) + escape(b),
    decreases a.len(),
{
    if a.len() == 0 {
        assert(a + b =~= b);
        assert(Seq::<char>::empty() + escape(b) =~= escape(b));
    } else {
        assert((a + b).drop_first() =~= a.drop_first() + b);
        lemma_escape_concat(a.drop_first(), b);
        assert(escape_char(a[0]) + (escape(a.drop_first()) + escape(b)) =~= (escape_char(a[0])
            + escape(a.drop_first())) + escape(b));
    }
}

/// Escaping a string extended by one character appends that character's
/// escape.
pub proof fn lemma_escape_push(a: Seq<char>, c: char)
    ensures
        escape(a.push(c)) == escape(a) + escape_char(c),
{
    lemma_escape_concat(a, seq![c]);
    assert(a.push(c) =~= a + seq![c]);
    assert(seq![c].drop_first() =~= Seq::<char>::empty());
    assert(escape(seq![c].drop_first()) =~= Seq::<char>::empty());
    assert(escape(seq![c]) =~= escape_char(c));
}

// ---------------------------------------------------------------------------
// String parsing
// ---------------------------------------------------------------------------

/// Scan the body of a JSON string (the part after its opening quote) up to
/// the closing quote. Yields the unescaped content and how many input
/// characters stand before the closing quote; `None` when the input ends
/// before an unescaped quote or holds an invalid escape.
pub open spec fn parse_body(s: Seq<char>) -> Option<(Seq<char>, int)>
    decreases s.len(),
{
    if s.len() == 0 {
        None
    } else if s[0] == '"' {
        Some((Seq::empty(), 0))
    } else if s[0] == '\\' {
        if s.len() < 2 {
            None
        } else {
            match unescape_char(s[1]) {
                Some(d) => match parse_body(s.skip(2)) {
                    Some((c, n)) => Some((seq![d] + c, n + 2)),
                    None => None,
                },
                None => None,
            }
        }
    } else {
        match parse_body(s.drop_first()) {
            Some((c, n)) => Some((seq![s[0]] + c, n + 1)),
            None => None,
        }
    }
}

/// Parse a complete JSON string literal at the head of the input. Yields the
/// unescaped content and the total number of characters consumed, both
/// quotes included.
pub open spec fn parse_quoted(s: Seq<char>) -> Option<(Seq<char>, int)> {
    if s.len() >= 1 && s[0] == '"' {
        match parse_body(s.skip(1)) {
            Some((c, n)) => Some((c, n + 2)),
            None => None,
        }
    } else {
        None
    }
}

/// Parsing undoes escaping: a body made of an escaped string, its closing
/// quote and anything after parses back to that string, consuming exactly
/// the escaped form.
pub proof fn lemma_parse_body_escape(x: Seq<char>, rest: Seq<char>)
    ensures
        parse_body(escape(x) + seq!['"'] + rest) == Some((x, escape(x).len() as int)),
    decreases x.len(),
{
    let s = escape(x) + seq!['"'] + rest;
    if x.len() == 0 {
        assert(s[0] == '"');
        assert(x =~= Seq::<char>::empty());
    } else {
        let c = x[0];
        let xr = x.drop_first();
        assert(escape(x) == escape_char(c) + escape(xr));
        lemma_parse_body_escape(xr, rest);
        if c == '"' || c == '\\' || c == '\n' || c == '\r' || c == '\t' {
            assert(escape_char(c).len() == 2);
            assert(s[0] == '\\');
            assert(unescape_char(s[1]) == Some(c));
            assert(s.skip(2) =~= escape(xr) + seq!['"'] + rest);
            assert(seq![c] + xr =~= x);
        } else {
            assert(escape_char(c) =~= seq![c]);
            assert(s[0] == c);
            assert(s.drop_first() =~= escape(xr) + seq!['"'] + rest);
            assert(seq![c] + xr =~= x);
        }
    }
}

/// Parsing undoes quoting: a quoted string followed by anything parses back
/// to its content, consuming exactly the quoted form.
pub proof fn lemma_parse_quoted_of_quoted(x: Seq<char>, rest: Seq<char>)
    ensures
        parse_quoted(quoted(x) + rest) == Some((x, quoted(x).len() as int)),
{
    let s = quoted(x) + rest;
    assert(s[0] == '"');
    assert(s.skip(1) =~= escape(x) + seq!['"'] + rest);
    lemma_parse_body_escape(x, rest);
}

// ---------------------------------------------------------------------------
// Record encodings
// ---------------------------------------------------------------------------

/// `{` and the first field name of a login or signup object.
pub open spec fn username_key() -> Seq<char> {
    "{\"username\":"@
}

/// Separator and field name before a password value.
pub open spec fn password_key() -> Seq<char> {
    ",\"password\":"@
}

/// Separator and field name before an email value.
pub open spec fn email_key() -> Seq<char> {
    ",\"email\":"@
}

/// `{` and the field name of a token object.
pub open spec fn token_key() -> Seq<char> {
    "{\"token\":"@
}

/// The closing brace of an object.
pub open spec fn close_brace() -> Seq<char> {
    "}"@
}

/// The JSON text of a login request.
pub open spec fn encode_login_spec(username: Seq<char>, password: Seq<char>) -> Seq<char> {
    username_key() + quoted(username) + password_key() + quoted(password) + close_brace()
}

/// The JSON text of a signup request.
pub open spec fn encode_signup_spec(
    username: Seq<char>,
    email: Seq<char>,
    password: Seq<char>,
) -> Seq<char> {
    username_key() + quoted(username) + email_key() + quoted(email) + password_key() + quoted(
        password,
    ) + close_brace()
}

/// The JSON text of a single-field token object: an auth request, and also
/// the login and signup response bodies.
pub open spec fn encode_token_spec(token: Seq<char>) -> Seq<char> {
    token_key() + quoted(token) + close_brace()
}

/// The literal `lit` stands in `s` at position `i`.
pub open spec fn lit_at(s: Seq<char>, i: int, lit: Seq<char>) -> bool {
    0 <= i && i + lit.len() <= s.len() && s.subrange(i, i + lit.len()) == lit
}

/// Decode a login request: exactly a `username` then `password` object.
pub open spec fn decode_login_spec(s: Seq<char>) -> Option<(Seq<char>, Seq<char>)> {
    if !lit_at(s, 0, username_key()) {
        None
    } else {
        match parse_quoted(s.skip(username_key().len() as int)) {
            Some((u, n1)) => {
                let i1 = username_key().len() + n1;
                if !lit_at(s, i1, password_key()) {
                    None
                } else {
                    match parse_quoted(s.skip(i1 + password_key().len())) {
                        Some((p, n2)) => {
                            let i2 = i1 + password_key().len() + n2;
                            if i2 + 1 == s.len() && lit_at(s, i2, close_brace()) {
                                Some((u, p))
                            } else {
                                None
                            }
                        },
                        None => None,
                    }
                }
            },
            None => None,
        }
    }
}

/// Decode a signup request: exactly a `username`, `email`, `password`
/// object.
pub open spec fn decode_signup_spec(s: Seq<char>) -> Option<(Seq<char>, Seq<char>, Seq<char>)> {
    if !lit_at(s, 0, username_key()) {
        None
    } else {
        match parse_quoted(s.skip(username_key().len() as int)) {
            Some((u, n1)) => {
                let i1 = username_key().len() + n1;
                if !lit_at(s, i1, email_key()) {
                    None
                } else {
                    match parse_quoted(s.skip(i1 + email_key().len())) {
                        Some((e, n2)) => {
                            let i2 = i1 + email_key().len() + n2;
                            if !lit_at(s, i2, password_key()) {
                                None
                            } else {
                                match parse_quoted(s.skip(i2 + password_key().len())) {
                                    Some((p, n3)) => {
                                        let i3 = i2 + password_key().len() + n3;
                                        if i3 + 1 == s.len() && lit_at(s, i3, close_brace()) {
                                            Some((u, e, p))
                                        } else {
                                            None
                                        }
                                    },
                                    None => None,
                                }
                            }
                        },
                        None => None,
                    }
                }
            },
            None => None,
        }
    }
}

/// Decode a single-field token object.
pub open spec fn decode_token_spec(s: Seq<char>) -> Option<Seq<char>> {
    if !lit_at(s, 0, token_key()) {
        None
    } else {
        match parse_quoted(s.skip(token_key().len() as int)) {
            Some((t, n1)) => {
                let i1 = token_key().len() + n1;
                if i1 + 1 == s.len() && lit_at(s, i1, close_brace()) {
                    Some(t)
                } else {
                    None
                }
            },
            None => None,
        }
    }
}

// ---------------------------------------------------------------------------
// Executable encoding and decoding
// ---------------------------------------------------------------------------

/// Does `lit` stand in `s` at position `i`?
fn matches_at(s: &str, i: usize, lit: &str) -> (r: bool)
    ensures
        r == lit_at(s@, i as int, lit@),
{
    let n = s.unicode_len();
    let m = lit.unicode_len();
    if i > n || m > n - i {
        return false;
    }
    let mut j: usize = 0;
    while j < m
        invariant
            n == s@.len(),
            m == lit@.len(),
            i + m <= n,
            j <= m,
            forall|k: int| 0 <= k < j ==> s@[i + k] == lit@[k],
        decreases m - j,
    {
        if s.get_char(i + j) != lit.get_char(j) {
            proof {
                assert(s@.subrange(i as int, i + m) != lit@) by {
                    assert(s@.subrange(i as int, i + m)[j as int] == s@[i + j]);
                }
            }
            return false;
        }
        j += 1;
    }
    proof {
        assert(s@.subrange(i as int, i + m) =~= lit@);
    }
    true
}

/// Build the JSON string literal for `s`: quote, escaped content, quote.
fn quote_string(s: &str) -> (r: String)
    ensures
        r@ == quoted(s@),
{
    proof {
        reveal_strlit("\"");
        reveal_strlit("\\\"");
        reveal_strlit("\\\\");
        reveal_strlit("\\n");
        reveal_strlit("\\r");
        reveal_strlit("\\t");
    }
    let mut out = String::from_str("\"");
    let len = s.unicode_len();
    let mut i: usize = 0;
    while i < len
        invariant
            len == s@.len(),
            i <= len,
            out@ == seq!['"'] + escape(s@.take(i as int)),
        decreases len - i,
    {
        let c = s.get_char(i);
        if c == '"' {
            out.append("\\\"");
        } else if c == '\\' {
            out.append("\\\\");
        } else if c == '\n' {
            out.append("\\n");
        } else if c == '\r' {
            out.append("\\r");
        } else if c == '\t' {
            out.append("\\t");
        } else {
            out.append(s.substring_char(i, i + 1));
            proof {
                assert(s@.subrange(i as int, i + 1) =~= seq![s@[i as int]]);
            }
        }
        proof {
            reveal_strlit("\\\"");
            reveal_strlit("\\\\");
            reveal_strlit("\\n");
            reveal_strlit("\\r");
            reveal_strlit("\\t");
            lemma_escape_push(s@.take(i as int), s@[i as int]);
            assert(s@.take(i + 1) =~= s@.take(i as int).push(s@[i as int]));
            assert(out@ =~= seq!['"'] + escape(s@.take(i + 1)));
        }
        i += 1;
    }
    out.append("\"");
    proof {
        assert(s@.take(len as int) =~= s@);
        assert(out@ =~= quoted(s@));
    }
    out
}

/// Parse the body of a JSON string standing in `s` at `pos`, up to its
/// closing quote.
fn parse_body_at(s: &str, pos: usize) -> (r: Option<(String, usize)>)
    requires
        pos <= s@.len(),
    ensures
        match r {
            Some((content, n)) => parse_body(s@.skip(pos as int)) == Some((content@, n as int))
                && pos + n < s@.len(),
            None => parse_body(s@.skip(pos as int)) is None,
        },
    decreases s@.len() - pos,
{
    proof {
        reveal_strlit("\"");
        reveal_strlit("\\");
        reveal_strlit("\n");
        reveal_strlit("\r");
        reveal_strlit("\t");
    }
    let ghost t = s@.skip(pos as int);
    let len = s.unicode_len();
    if pos == len {
        return None;
    }
    let c = s.get_char(pos);
    proof {
        assert(t[0] == c);
    }
    if c == '"' {
        let out = String::new();
        Some((out, 0))
    } else if c == '\\' {
        if pos + 1 == len {
            None
        } else {
            let d = s.get_char(pos + 1);
            proof {
                assert(t[1] == d);
            }
            let dec: &str = if d == '"' {
                "\""
            } else if d == '\\' {
                "\\"
            } else if d == 'n' {
                "\n"
            } else if d == 'r' {
                "\r"
            } else if d == 't' {
                "\t"
            } else {
                proof {
                    assert(unescape_char(d) is None);
                }
                return None;
            };
            match parse_body_at(s, pos + 2) {
                Some((rest, n)) => {
                    let mut out = String::from_str(dec);
                    out.append(rest.as_str());
                    proof {
                        assert(t.skip(2) =~= s@.skip(pos + 2));
                        assert(out@ =~= seq![unescape_char(d).unwrap()] + rest@);
                    }
                    Some((out, n + 2))
                },
                None => {
                    proof {
                        assert(t.skip(2) =~= s@.skip(pos + 2));
                    }
                    None
                },
            }
        }
    } else {
        match parse_body_at(s, pos + 1) {
            Some((rest, n)) => {
                let mut out = String::from_str(s.substring_char(pos, pos + 1));
                out.append(rest.as_str());
                proof {
                    assert(t.drop_first() =~= s@.skip(pos + 1));
                    assert(s@.subrange(pos as int, pos + 1) =~= seq![t[0]]);
                    assert(out@ =~= seq![t[0]] + rest@);
                }
                Some((out, n + 1))
            },
            None => {
                proof {
                    assert(t.drop_first() =~= s@.skip(pos + 1));
                }
                None
            },
        }
    }
}

/// Parse a complete JSON string literal standing in `s` at `pos`.
fn parse_quoted_at(s: &str, pos: usize) -> (r: Option<(String, usize)>)
    requires
        pos <= s@.len(),
    ensures
        match r {
            Some((content, n)) => parse_quoted(s@.skip(pos as int)) == Some((content@, n as int))
                && 2 <= n && pos + n <= s@.len(),
            None => parse_quoted(s@.skip(pos as int)) is None,
        },
{
    let ghost t = s@.skip(pos as int);
    let len = s.unicode_len();
    if pos == len {
        return None;
    }
    if s.get_char(pos) != '"' {
        proof {
            assert(t[0] == s@[pos as int]);
        }
        return None;
    }
    proof {
        assert(t[0] == '"');
        assert(t.skip(1) =~= s@.skip(pos + 1));
    }
    match parse_body_at(s, pos + 1) {
        Some((content, n)) => Some((content, n + 2)),
        None => None,
    }
}

/// Encode a login request as its JSON wire text.
pub fn encode_login(request: &LoginRequest) -> (r: String)
    ensures
        r@ == encode_login_spec(request.username@, request.password@),
{
    let mut out = String::from_str("{\"username\":");
    let qu = quote_string(request.username.as_str());
    out.append(qu.as_str());
    out.append(",\"password\":");
    let qp = quote_string(request.password.as_str());
    out.append(qp.as_str());
    out.append("}");
    proof {
        assert(out@ =~= encode_login_spec(request.username@, request.password@));
    }
    out
}

/// Encode a signup request as its JSON wire text.
pub fn encode_signup(request: &SignupRequest) -> (r: String)
    ensures
        r@ == encode_signup_spec(request.username@, request.email@, request.password@),
{
    let mut out = String::from_str("{\"username\":");
    let qu = quote_string(request.username.as_str());
    out.append(qu.as_str());
    out.append(",\"email\":");
    let qe = quote_string(request.email.as_str());
    out.append(qe.as_str());
    out.append(",\"password\":");
    let qp = quote_string(request.password.as_str());
    out.append(qp.as_str());
    out.append("}");
    proof {
        assert(out@ =~= encode_signup_spec(request.username@, request.email@, request.password@));
    }
    out
}

/// Encode a single-field token object.
fn encode_token_object(token: &str) -> (r: String)
    ensures
        r@ == encode_token_spec(token@),
{
    let mut out = String::from_str("{\"token\":");
    let qt = quote_string(token);
    out.append(qt.as_str());
    out.append("}");
    proof {
        assert(out@ =~= encode_token_spec(token@));
    }
    out
}

/// Encode an auth request as its JSON wire text.
pub fn encode_auth(request: &AuthRequest) -> (r: String)
    ensures
        r@ == encode_token_spec(request.token@),
{
    encode_token_object(request.token.as_str())
}

/// Encode a login response body.
pub fn encode_login_response(response: &LoginResponse) -> (r: String)
    ensures
        r@ == encode_token_spec(response.token@),
{
    encode_token_object(response.token.as_str())
}

/// Encode a signup response body.
pub fn encode_signup_response(response: &SignupResponse) -> (r: String)
    ensures
        r@ == encode_token_spec(response.token@),
{
    encode_token_object(response.token.as_str())
}

/// Decode a login request from its JSON wire text.
pub fn decode_login(s: &str) -> (r: Option<LoginRequest>)
    ensures
        match r {
            Some(req) => decode_login_spec(s@) == Some((req.username@, req.password@)),
            None => decode_login_spec(s@) is None,
        },
{
    proof {
        reveal_strlit("}");
    }
    let n = s.unicode_len();
    let k0 = "{\"username\":";
    let k0_len = k0.unicode_len();
    if !matches_at(s, 0, k0) {
        return None;
    }
    match parse_quoted_at(s, k0_len) {
        None => None,
        Some((username, n1)) => {
            let i1 = k0_len + n1;
            let kp = ",\"password\":";
            let kp_len = kp.unicode_len();
            if !matches_at(s, i1, kp) {
                return None;
            }
            match parse_quoted_at(s, i1 + kp_len) {
                None => None,
                Some((password, n2)) => {
                    let i2 = i1 + kp_len + n2;
                    if matches_at(s, i2, "}") && i2 + 1 == n {
                        Some(LoginRequest { username, password })
                    } else {
                        None
                    }
                },
            }
        },
    }
}

/// Decode a signup request from its JSON wire text.
pub fn decode_signup(s: &str) -> (r: Option<SignupRequest>)
    ensures
        match r {
            Some(req) => decode_signup_spec(s@) == Some(
                (req.username@, req.email@, req.password@),
            ),
            None => decode_signup_spec(s@) is None,
        },
{
    proof {
        reveal_strlit("}");
    }
    let n = s.unicode_len();
    let k0 = "{\"username\":";
    let k0_len = k0.unicode_len();
    if !matches_at(s, 0, k0) {
        return None;
    }
    match parse_quoted_at(s, k0_len) {
        None => None,
        Some((username, n1)) => {
            let i1 = k0_len + n1;
            let ke = ",\"email\":";
            let ke_len = ke.unicode_len();
            if !matches_at(s, i1, ke) {
                return None;
            }
            match parse_quoted_at(s, i1 + ke_len) {
                None => None,
                Some((email, n2)) => {
                    let i2 = i1 + ke_len + n2;
                    let kp = ",\"password\":";
                    let kp_len = kp.unicode_len();
                    if !matches_at(s, i2, kp) {
                        return None;
                    }
                    match parse_quoted_at(s, i2 + kp_len) {
                        None => None,
                        Some((password, n3)) => {
                            let i3 = i2 + kp_len + n3;
                            if matches_at(s, i3, "}") && i3 + 1 == n {
                                Some(SignupRequest { username, email, password })
                            } else {
                                None
                            }
                        },
                    }
                },
            }
        },
    }
}

/// Decode a single-field token object.
fn decode_token_object(s: &str) -> (r: Option<String>)
    ensures
        match r {
            Some(t) => decode_token_spec(s@) == Some(t@),
            None => decode_token_spec(s@) is None,
        },
{
    proof {
        reveal_strlit("}");
    }
    let n = s.unicode_len();
    let k0 = "{\"token\":";
    let k0_len = k0.unicode_len();
    if !matches_at(s, 0, k0) {
        return None;
    }
    match parse_quoted_at(s, k0_len) {
        None => None,
        Some((token, n1)) => {
            let i1 = k0_len + n1;
            if matches_at(s, i1, "}") && i1 + 1 == n {
                Some(token)
            } else {
                None
            }
        },
    }
}

/// Decode an auth request from its JSON wire text.
pub fn decode_auth(s: &str) -> (r: Option<AuthRequest>)
    ensures
        match r {
            Some(req) => decode_token_spec(s@) == Some(req.token@),
            None => decode_token_spec(s@) is None,
        },
{
    match decode_token_object(s) {
        Some(token) => Some(AuthRequest { token }),
        None => None,
    }
}

/// Decode a login response body.
pub fn decode_login_response(s: &str) -> (r: Option<LoginResponse>)
    ensures
        match r {
            Some(resp) => decode_token_spec(s@) == Some(resp.token@),
            None => decode_token_spec(s@) is None,
        },
{
    match decode_token_object(s) {
        Some(token) => Some(LoginResponse { token }),
        None => None,
    }
}

/// Decode a signup response body.
pub fn decode_signup_response(s: &str) -> (r: Option<SignupResponse>)
    ensures
        match r {
            Some(resp) => decode_token_spec(s@) == Some(resp.token@),
            None => decode_token_spec(s@) is None,
        },
{
    match decode_token_object(s) {
        Some(token) => Some(SignupResponse { token }),
        None => None,
    }
}

/// Serialization fidelity for login requests: decoding an encoded record
/// gives back the record.
pub proof fn lemma_login_round_trip(username: Seq<char>, password: Seq<char>)
    ensures
        decode_login_spec(encode_login_spec(username, password)) == Some((username, password)),
{
    reveal_strlit("{\"username\":");
    reveal_strlit(",\"password\":");
    reveal_strlit("}");
    let s = encode_login_spec(username, password);
    let qu = quoted(username);
    let qp = quoted(password);
    let k0 = username_key();
    let k1 = password_key();
    assert(lit_at(s, 0, k0)) by {
        assert(s.subrange(0, k0.len() as int) =~= k0);
    }
    assert(s.skip(k0.len() as int) =~= qu + (k1 + qp + close_brace()));
    lemma_parse_quoted_of_quoted(username, k1 + qp + close_brace());
    let i1 = k0.len() + qu.len() as int;
    assert(lit_at(s, i1, k1)) by {
        assert(s.subrange(i1, i1 + k1.len()) =~= k1);
    }
    assert(s.skip(i1 + k1.len()) =~= qp + close_brace());
    lemma_parse_quoted_of_quoted(password, close_brace());
    let i2 = i1 + k1.len() + qp.len() as int;
    assert(i2 + 1 == s.len());
    assert(lit_at(s, i2, close_brace())) by {
        assert(s.subrange(i2, i2 + 1) =~= close_brace());
    }
}

/// Serialization fidelity for signup requests.
pub proof fn lemma_signup_round_trip(username: Seq<char>, email: Seq<char>, password: Seq<char>)
    ensures
        decode_signup_spec(encode_signup_spec(username, email, password)) == Some(
            (username, email, password),
        ),
{
    reveal_strlit("{\"username\":");
    reveal_strlit(",\"email\":");
    reveal_strlit(",\"password\":");
    reveal_strlit("}");
    let s = encode_signup_spec(username, email, password);
    let qu = quoted(username);
    let qe = quoted(email);
    let qp = quoted(password);
    let k0 = username_key();
    let ke = email_key();
    let kp = password_key();
    assert(lit_at(s, 0, k0)) by {
        assert(s.subrange(0, k0.len() as int) =~= k0);
    }
    assert(s.skip(k0.len() as int) =~= qu + (ke + qe + kp + qp + close_brace()));
    lemma_parse_quoted_of_quoted(username, ke + qe + kp + qp + close_brace());
    let i1 = k0.len() + qu.len() as int;
    assert(lit_at(s, i1, ke)) by {
        assert(s.subrange(i1, i1 + ke.len()) =~= ke);
    }
    assert(s.skip(i1 + ke.len()) =~= qe + (kp + qp + close_brace()));
    lemma_parse_quoted_of_quoted(email, kp + qp + close_brace());
    let i2 = i1 + ke.len() + qe.len() as int;
    assert(lit_at(s, i2, kp)) by {
        assert(s.subrange(i2, i2 + kp.len()) =~= kp);
    }
    assert(s.skip(i2 + kp.len()) =~= qp + close_brace());
    lemma_parse_quoted_of_quoted(password, close_brace());
    let i3 = i2 + kp.len() + qp.len() as int;
    assert(i3 + 1 == s.len());
    assert(lit_at(s, i3, close_brace())) by {
        assert(s.subrange(i3, i3 + 1) =~= close_brace());
    }
}

/// Serialization fidelity for token objects: auth requests and the two
/// response bodies.
pub proof fn lemma_token_round_trip(token: Seq<char>)
    ensures
        decode_token_spec(encode_token_spec(token)) == Some(token),
{
    reveal_strlit("{\"token\":");
    reveal_strlit("}");
    let s = encode_token_spec(token);
    let qt = quoted(token);
    let k0 = token_key();
    assert(lit_at(s, 0, k0)) by {
        assert(s.subrange(0, k0.len() as int) =~= k0);
    }
    assert(s.skip(k0.len() as int) =~= qt + close_brace());
    lemma_parse_quoted_of_quoted(token, close_brace());
    let i1 = k0.len() + qt.len() as int;
    assert(i1 + 1 == s.len());
    assert(lit_at(s, i1, close_brace())) by {
        assert(s.subrange(i1, i1 + 1) =~= close_brace());
    }
}

} // verus!
