//! The `.env` reader and the signed headers that every API call carries.
use vstd::prelude::*;
use vstd::string::*;
use crate::error::ErrorKind;
use crate::platform::{
    format_utc, header_value_accepts, is_header_value_char, is_lower_hex, is_utc_reading,
    lemma_stamp_patterns, random_alphanumeric, sha256_digest, sha256_hex, utc_format, utc_now,
};
use crate::text::{
    ascii_upper, chars_of, is_ascii_alphanumeric, is_digit, range_equals, string_of_range,
    to_ascii_uppercase,
};

verus! {

/// The index of the first `c` in `s`, or `s.len()` when `c` does not occur.
pub open spec fn first_index(s: Seq<char>, c: char) -> nat
    decreases s.len(),
{
    if s.len() == 0 {
        0
    } else if s[0] == c {
        0
    } else {
        1 + first_index(s.drop_first(), c)
    }
}

/// The first line of `content` as `str::lines` yields it: the characters up
/// to the first `\n`, without a `\r` that stands just before that `\n`.
pub open spec fn first_line(content: Seq<char>) -> Seq<char> {
    let k = first_index(content, '\n');
    let raw = content.take(k as int);
    if k < content.len() && raw.len() > 0 && raw.last() == '\r' {
        raw.drop_last()
    } else {
        raw
    }
}

/// What follows the `\n` that ends the first line (nothing when there is no
/// `\n`).
pub open spec fn after_first_line(content: Seq<char>) -> Seq<char> {
    let k = first_index(content, '\n');
    if k < content.len() {
        content.skip(k + 1int)
    } else {
        Seq::empty()
    }
}

/// The value that `line` gives to `name`: the line is not a comment (does
/// not start with `#`), holds a `=`, the text before its first `=` is
/// `name`, and the text after it is not empty.
pub open spec fn line_value(line: Seq<char>, name: Seq<char>) -> Option<Seq<char>> {
    let e = first_index(line, '=');
    if line.len() > 0 && line[0] == '#' {
        None
    } else if e < line.len() && line.take(e as int) == name && e + 1 < line.len() {
        Some(line.skip(e + 1int))
    } else {
        None
    }
}

/// The value given to `name` by the first line of `content` that gives it
/// one, as written there.
pub open spec fn env_entry(content: Seq<char>, name: Seq<char>) -> Option<Seq<char>>
    decreases content.len(),
{
    if content.len() == 0 {
        None
    } else {
        match line_value(first_line(content), name) {
            Some(v) => Some(v),
            None => env_entry(after_first_line(content), name),
        }
    }
}

/// A value without the double quotes that enclose it, if they do.
pub open spec fn unquoted(t: Seq<char>) -> Seq<char> {
    if t.len() >= 2 && t[0] == '"' && t.last() == '"' {
        t.subrange(1, t.len() - 1)
    } else {
        t
    }
}

/// The value of `name` in the `.env` text `content`, unquoted.
pub open spec fn env_value(content: Seq<char>, name: Seq<char>) -> Option<Seq<char>> {
    match env_entry(content, name) {
        Some(t) => Some(unquoted(t)),
        None => None,
    }
}

/// Whether `r` is what reading `name` from `content` answers (the value
/// taken as characters): the value of the first definition, or `NotFound`
/// where there is none.
pub open spec fn env_reading(
    content: Seq<char>,
    name: Seq<char>,
    r: Result<Seq<char>, ErrorKind>,
) -> bool {
    match r {
        Ok(value) => env_value(content, name) == Some(value),
        Err(e) => e == ErrorKind::NotFound && env_value(content, name) is None,
    }
}

/// A result whose text is taken as its characters.
pub open spec fn result_chars(r: Result<String, ErrorKind>) -> Result<Seq<char>, ErrorKind> {
    match r {
        Ok(s) => Ok(s@),
        Err(e) => Err(e),
    }
}

/// The entry of `name` is not a lone `"` (the one value that cannot be
/// unquoted).
pub open spec fn env_readable(content: Seq<char>, name: Seq<char>) -> bool {
    env_entry(content, name) != Some(seq!['"'])
}

proof fn lemma_first_index(s: Seq<char>, c: char, m: int)
    requires
        0 <= m <= s.len(),
        forall|j: int| 0 <= j < m ==> s[j] != c,
        m == s.len() || s[m] == c,
    ensures
        first_index(s, c) == m,
    decreases m,
{
    if m > 0 {
        assert forall|j: int| 0 <= j < m - 1 implies s.drop_first()[j] != c by {
            assert(s.drop_first()[j] == s[j + 1]);
        }
        lemma_first_index(s.drop_first(), c, m - 1);
    }
}

/// The index of the first `c` in `v[from..to]`, counted from 0 of `v`, or
/// `to` when there is none.
fn find_char(v: &Vec<char>, from: usize, to: usize, c: char) -> (k: usize)
    requires
        from <= to <= v@.len(),
    ensures
        from <= k <= to,
        first_index(v@.subrange(from as int, to as int), c) == k - from,
{
    let mut k: usize = from;
    while k < to && v[k] != c
        invariant
            from <= k <= to <= v@.len(),
            forall|j: int| from <= j < k ==> v@[j] != c,
        decreases to - k,
    {
        k = k + 1;
    }
    proof {
        let s = v@.subrange(from as int, to as int);
        assert forall|j: int| 0 <= j < k - from implies s[j] != c by {
            assert(s[j] == v@[from + j]);
        }
        lemma_first_index(s, c, k - from);
    }
    k
}

/// Where in `v` the entry of `name` stands: `v[a..b]`.
fn find_entry(name: &Vec<char>, v: &Vec<char>) -> (r: Option<(usize, usize)>)
    ensures
        match r {
            Some((a, b)) => a <= b <= v@.len() && env_entry(v@, name@) == Some(
                v@.subrange(a as int, b as int),
            ),
            None => env_entry(v@, name@) is None,
        },
{
    let n = v.len();
    let mut pos: usize = 0;
    assert(v@.skip(0) =~= v@);
    while pos < n
        invariant
            n == v@.len(),
            pos <= n,
            env_entry(v@, name@) == env_entry(v@.skip(pos as int), name@),
        decreases n - pos,
    {
        let ghost rest = v@.skip(pos as int);
        let k = find_char(v, pos, n, '\n');
        assert(v@.subrange(pos as int, n as int) =~= rest);
        let le: usize = if k < n && k > pos && v[k - 1] == '\r' {
            k - 1
        } else {
            k
        };
        let ghost line = v@.subrange(pos as int, le as int);
        assert(first_line(rest) =~= line);
        let e = find_char(v, pos, le, '=');
        let comment = le > pos && v[pos] == '#';
        if !comment && e < le && range_equals(v, pos, e, name) && e + 1 < le {
            assert(line.take(e - pos) =~= v@.subrange(pos as int, e as int));
            assert(line.skip(e - pos + 1) =~= v@.subrange(e + 1, le as int));
            return Some((e + 1, le));
        }
        proof {
            if le > pos && v@[pos as int] == '#' {
                assert(line[0] == '#');
            } else if e < le && e + 1 < le {
                assert(line.take(e - pos) =~= v@.subrange(pos as int, e as int));
            }
            assert(line_value(line, name@) is None);
        }
        pos = if k < n {
            k + 1
        } else {
            n
        };
        assert(after_first_line(rest) =~= v@.skip(pos as int));
    }
    None
}

/// The entry of `envvariablename` in the `.env` text `content`, as written
/// (quotes included), if a line gives it one.
pub fn env_lookup(envvariablename: &str, content: &str) -> (r: Option<String>)
    ensures
        match r {
            Some(t) => env_entry(content@, envvariablename@) == Some(t@),
            None => env_entry(content@, envvariablename@) is None,
        },
{
    let name = chars_of(envvariablename);
    let v = chars_of(content);
    match find_entry(&name, &v) {
        Some((a, b)) => Some(string_of_range(&v, a, b)),
        None => None,
    }
}

/// Reads the variable `envvariablename` from the `.env` text `content`.
///
/// Lines that start with `#` are skipped; the first other line of the form
/// `envvariablename=value` with a non-empty value gives the result, with one
/// pair of enclosing double quotes removed. A name that no line defines is
/// `NotFound`.
pub fn dotenvreader(envvariablename: String, content: &str) -> (r: Result<String, ErrorKind>)
    requires
        env_readable(content@, envvariablename@),
    ensures
        env_reading(content@, envvariablename@, result_chars(r)),
{
    let name = chars_of(envvariablename.as_str());
    let v = chars_of(content);
    match find_entry(&name, &v) {
        Some((a, b)) => {
            if b - a >= 2 && v[a] == '"' && v[b - 1] == '"' {
                assert(v@.subrange(a as int, b as int).subrange(1, b - a - 1) =~= v@.subrange(
                    a + 1,
                    b - 1,
                ));
                Ok(string_of_range(&v, a + 1, b - 1))
            } else {
                Ok(string_of_range(&v, a, b))
            }
        },
        None => Err(ErrorKind::NotFound),
    }
}

/// The headers that every call to the API carries, by name:
/// `accept`, `PublicAPIKey`, `RequestToken`, `RequestSignature`, `ClientId`,
/// `Content-Type`.
pub struct RequestHeaders {
    pub accept: String,
    pub public_api_key: String,
    pub request_token: String,
    pub request_signature: String,
    pub client_id: String,
    pub content_type: String,
}

impl RequestHeaders {
    /// The headers as (name, value) pairs, in the order they are set.
    pub fn entries(&self) -> (e: Vec<(String, String)>)
        ensures
            e@.len() == 6,
            e@[0].0@ == "accept"@ && e@[0].1@ == self.accept@,
            e@[1].0@ == "PublicAPIKey"@ && e@[1].1@ == self.public_api_key@,
            e@[2].0@ == "RequestToken"@ && e@[2].1@ == self.request_token@,
            e@[3].0@ == "RequestSignature"@ && e@[3].1@ == self.request_signature@,
            e@[4].0@ == "ClientId"@ && e@[4].1@ == self.client_id@,
            e@[5].0@ == "Content-Type"@ && e@[5].1@ == self.content_type@,
    {
        let mut e: Vec<(String, String)> = Vec::new();
        e.push((String::from_str("accept"), self.accept.clone()));
        e.push((String::from_str("PublicAPIKey"), self.public_api_key.clone()));
        e.push((String::from_str("RequestToken"), self.request_token.clone()));
        e.push((String::from_str("RequestSignature"), self.request_signature.clone()));
        e.push((String::from_str("ClientId"), self.client_id.clone()));
        e.push((String::from_str("Content-Type"), self.content_type.clone()));
        e
    }
}

/// Whether every character of `s` may stand in a header value.
pub open spec fn header_text(s: Seq<char>) -> bool {
    forall|i: int| 0 <= i < s.len() ==> is_header_value_char(#[trigger] s[i])
}

/// The request signature: the SHA-256 digest of the endpoint path, the
/// request token and the private key written one after another, in
/// upper-case hexadecimal.
pub open spec fn request_signature(path: Seq<char>, token: Seq<char>, private_key: Seq<char>) -> Seq<
    char,
> {
    sha256_hex(path + token + private_key).map_values(|c: char| ascii_upper(c))
}

/// Whether `c` is one of `0`..`9`, `A`..`F`.
pub open spec fn is_upper_hex(c: char) -> bool {
    ||| 48 <= c as u32 <= 57
    ||| 65 <= c as u32 <= 70
}

/// A request token: a date stamp of digits (and possibly a sign) followed by
/// 30 random letters and digits.
pub open spec fn is_request_token(t: Seq<char>) -> bool {
    &&& t.len() >= 30
    &&& forall|i: int|
        0 <= i < t.len() - 30 ==> is_digit(#[trigger] t[i]) || t[i] == '+' || t[i] == '-'
    &&& forall|i: int| t.len() - 30 <= i < t.len() ==> is_ascii_alphanumeric(#[trigger] t[i])
}

/// The header values, checked the way `HeaderValue::from_str` checks them,
/// with the digest made upper-case and the fixed `accept: text/plain` and
/// `Content-Type: application/json`. Any value that a header cannot carry
/// makes the whole set `InvalidData`.
pub fn assemble_headers(
    public_key: String,
    request_token: String,
    digest: String,
    client_id: String,
) -> (r: Result<RequestHeaders, ErrorKind>)
    ensures
        r is Ok <==> header_text(public_key@) && header_text(request_token@) && header_text(
            digest@.map_values(|c: char| ascii_upper(c)),
        ) && header_text(client_id@),
        match r {
            Ok(h) => {
                &&& h.accept@ == "text/plain"@
                &&& h.public_api_key@ == public_key@
                &&& h.request_token@ == request_token@
                &&& h.request_signature@ == digest@.map_values(|c: char| ascii_upper(c))
                &&& h.client_id@ == client_id@
                &&& h.content_type@ == "application/json"@
            },
            Err(e) => e == ErrorKind::InvalidData,
        },
{
    let accept = String::from_str("text/plain");
    let content_type = String::from_str("application/json");
    proof {
        reveal_strlit("text/plain");
        reveal_strlit("application/json");
        assert(header_text(accept@));
        assert(header_text(content_type@));
    }
    let signature = to_ascii_uppercase(digest.as_str());
    if !header_value_accepts(accept.as_str()) {
        return Err(ErrorKind::InvalidData);
    }
    if !header_value_accepts(public_key.as_str()) {
        return Err(ErrorKind::InvalidData);
    }
    if !header_value_accepts(request_token.as_str()) {
        return Err(ErrorKind::InvalidData);
    }
    if !header_value_accepts(signature.as_str()) {
        return Err(ErrorKind::InvalidData);
    }
    if !header_value_accepts(client_id.as_str()) {
        return Err(ErrorKind::InvalidData);
    }
    if !header_value_accepts(content_type.as_str()) {
        return Err(ErrorKind::InvalidData);
    }
    Ok(
        RequestHeaders {
            accept,
            public_api_key: public_key,
            request_token,
            request_signature: signature,
            client_id,
            content_type,
        },
    )
}

/// The headers for a call to `path`, from the date stamp and the random
/// string drawn for it and the three keys: the request token is the stamp
/// followed by the random string, and the signature is the upper-case
/// SHA-256 digest of path, token and private key (always a valid header
/// value). A public key, token or client id that a header cannot carry
/// gives `InvalidData`.
pub fn signed_headers(
    path: String,
    date: String,
    random: String,
    publickey: String,
    privatekey: String,
    clientid: String,
) -> (r: Result<RequestHeaders, ErrorKind>)
    ensures
        r is Ok <==> header_text(publickey@) && header_text(date@ + random@) && header_text(
            clientid@,
        ),
        match r {
            Ok(h) => {
                &&& h.accept@ == "text/plain"@
                &&& h.content_type@ == "application/json"@
                &&& h.public_api_key@ == publickey@
                &&& h.client_id@ == clientid@
                &&& h.request_token@ == date@ + random@
                &&& h.request_signature@ == request_signature(path@, date@ + random@, privatekey@)
                &&& h.request_signature@.len() == 64
                &&& forall|i: int|
                    0 <= i < h.request_signature@.len() ==> is_upper_hex(
                        #[trigger] h.request_signature@[i],
                    )
            },
            Err(e) => e == ErrorKind::InvalidData,
        },
{
    let requesttoken = date.concat(random.as_str());
    let signed = path.concat(requesttoken.as_str()).concat(privatekey.as_str());
    assert(signed@ =~= path@ + requesttoken@ + privatekey@);
    let digest = sha256_digest(signed.as_str());
    let ghost upper = digest@.map_values(|c: char| ascii_upper(c));
    proof {
        assert forall|i: int| 0 <= i < upper.len() implies is_upper_hex(#[trigger] upper[i])
            && is_header_value_char(upper[i]) by {
            assert(is_lower_hex(digest@[i]));
        }
    }
    assemble_headers(publickey, requesttoken, digest, clientid)
}

/// Builds the headers for a call to the endpoint `path` (such as
/// `/api/v1/Tokens`), with the keys read from the `.env` text `env`.
///
/// Besides `accept: text/plain` and `Content-Type: application/json`, the
/// public key and client id from the `.env` text are sent as they are. The
/// request token is today's UTC date, read from the clock, as `%Y%m%d`
/// (year, month, day), followed by 30 random letters and digits, so at
/// least 38 characters and exactly 38 when the stamp has no sign; the
/// signature is the SHA-256 digest of path, token and private key, in upper
/// case. A public key or client id that a header cannot carry gives
/// `InvalidData`.
pub fn headermap(path: String, env: &str) -> (r: Result<RequestHeaders, ErrorKind>)
    requires
        env_value(env@, "publickey"@) is Some,
        env_readable(env@, "publickey"@),
        env_value(env@, "privatekey"@) is Some,
        env_readable(env@, "privatekey"@),
        env_value(env@, "clientid"@) is Some,
        env_readable(env@, "clientid"@),
    ensures
        r is Ok <==> header_text(env_value(env@, "publickey"@).unwrap()) && header_text(
            env_value(env@, "clientid"@).unwrap(),
        ),
        match r {
            Ok(h) => {
                &&& h.accept@ == "text/plain"@
                &&& h.public_api_key@ == env_value(env@, "publickey"@).unwrap()
                &&& h.client_id@ == env_value(env@, "clientid"@).unwrap()
                &&& h.content_type@ == "application/json"@
                &&& is_request_token(h.request_token@)
                &&& exists|secs: i64, nanos: u32|
                    is_utc_reading(secs, nanos) && h.request_token@.subrange(
                        0,
                        h.request_token@.len() - 30,
                    ) == #[trigger] utc_format(secs, nanos, "%Y%m%d"@)
                &&& h.request_token@.len() >= 38
                &&& (forall|i: int|
                    0 <= i < h.request_token@.len() - 30 ==> is_digit(#[trigger] h.request_token@[i]))
                    ==> h.request_token@.len() == 38
                &&& h.request_signature@ == request_signature(
                    path@,
                    h.request_token@,
                    env_value(env@, "privatekey"@).unwrap(),
                )
                &&& h.request_signature@.len() == 64
                &&& forall|i: int|
                    0 <= i < h.request_signature@.len() ==> is_upper_hex(
                        #[trigger] h.request_signature@[i],
                    )
            },
            Err(e) => e == ErrorKind::InvalidData,
        },
{
    let publickey = dotenvreader(String::from_str("publickey"), env).unwrap();
    let privatekey = dotenvreader(String::from_str("privatekey"), env).unwrap();
    let clientid = dotenvreader(String::from_str("clientid"), env).unwrap();
    proof {
        lemma_stamp_patterns();
    }
    let (secs, nanos) = utc_now();
    let date = format_utc(secs, nanos, "%Y%m%d");
    let randomstring = random_alphanumeric(30);
    let ghost token = date@ + randomstring@;
    proof {
        assert forall|i: int| 0 <= i < token.len() implies is_header_value_char(
            #[trigger] token[i],
        ) by {
            if i < date@.len() {
                assert(token[i] == date@[i]);
            } else {
                assert(token[i] == randomstring@[i - date@.len()]);
            }
        }
        assert forall|i: int| 0 <= i < token.len() - 30 implies is_digit(#[trigger] token[i])
            || token[i] == '+' || token[i] == '-' by {
            assert(token[i] == date@[i]);
        }
        assert forall|i: int| token.len() - 30 <= i < token.len() implies is_ascii_alphanumeric(
            #[trigger] token[i],
        ) by {
            assert(token[i] == randomstring@[i - date@.len()]);
        }
        if forall|i: int| 0 <= i < token.len() - 30 ==> is_digit(#[trigger] token[i]) {
            assert forall|i: int| 0 <= i < date@.len() implies is_digit(#[trigger] date@[i]) by {
                assert(token[i] == date@[i]);
            }
        }
    }
    let r = signed_headers(path, date, randomstring, publickey, privatekey, clientid);
    proof {
        if r is Ok {
            let t = r->Ok_0.request_token@;
            assert(t.subrange(0, t.len() - 30) =~= date@);
            assert(is_utc_reading(secs, nanos) && t.subrange(0, t.len() - 30) == utc_format(
                secs,
                nanos,
                "%Y%m%d"@,
            ));
        }
    }
    r
}

proof fn lemma_first_index_prefix(a: Seq<char>, b: Seq<char>, c: char)
    requires
        first_index(a, c) < a.len(),
    ensures
        first_index(a + b, c) == first_index(a, c),
    decreases a.len(),
{
    if a[0] != c {
        assert((a + b).drop_first() =~= a.drop_first() + b);
        lemma_first_index_prefix(a.drop_first(), b, c);
    }
}

proof fn lemma_first_index_bound(a: Seq<char>, c: char)
    ensures
        first_index(a, c) <= a.len(),
        first_index(a, c) < a.len() ==> a[first_index(a, c) as int] == c,
    decreases a.len(),
{
    if a.len() > 0 && a[0] != c {
        lemma_first_index_bound(a.drop_first(), c);
    }
}

proof fn lemma_first_index_at_most(a: Seq<char>, c: char, j: int)
    requires
        0 <= j < a.len(),
        a[j] == c,
    ensures
        first_index(a, c) <= j,
    decreases j,
{
    if j > 0 && a[0] != c {
        lemma_first_index_at_most(a.drop_first(), c, j - 1);
    }
}

/// The first definition wins: text appended after a complete line that
/// already defines `name` does not change what `name` reads as.
pub proof fn lemma_first_definition_wins(a: Seq<char>, b: Seq<char>, name: Seq<char>)
    requires
        env_entry(a, name) is Some,
        a.len() > 0,
        a.last() == '\n',
    ensures
        env_entry(a + b, name) == env_entry(a, name),
        env_value(a + b, name) == env_value(a, name),
    decreases a.len(),
{
    lemma_first_index_bound(a, '\n');
    lemma_first_index_at_most(a, '\n', a.len() - 1);
    let k = first_index(a, '\n');
    assert(k < a.len());
    lemma_first_index_prefix(a, b, '\n');
    assert((a + b).take(k as int) =~= a.take(k as int));
    assert(first_line(a + b) == first_line(a));
    if line_value(first_line(a), name) is None {
        assert((a + b).skip(k + 1int) =~= a.skip(k + 1int) + b);
        assert(after_first_line(a + b) == after_first_line(a) + b);
        let rest = a.skip(k + 1int);
        assert(env_entry(rest, name) is Some);
        assert(rest.len() > 0);
        assert(rest.last() == a.last());
        lemma_first_definition_wins(rest, b, name);
    }
}

/// A comment line (one that starts with `#`) never defines anything: putting
/// it before the text leaves every name as it was.
pub proof fn lemma_comment_line_ignored(comment: Seq<char>, rest: Seq<char>, name: Seq<char>)
    requires
        comment.len() > 0,
        comment[0] == '#',
        forall|i: int| 0 <= i < comment.len() ==> comment[i] != '\n',
    ensures
        env_entry(comment.push('\n') + rest, name) == env_entry(rest, name),
        env_value(comment.push('\n') + rest, name) == env_value(rest, name),
{
    let content = comment.push('\n') + rest;
    assert forall|j: int| 0 <= j < comment.len() implies content[j] != '\n' by {
        assert(content[j] == comment[j]);
    }
    assert(content[comment.len() as int] == '\n');
    lemma_first_index(content, '\n', comment.len() as int);
    assert(content.take(comment.len() as int) =~= comment);
    assert(first_line(content)[0] == '#');
    assert(content.skip(comment.len() + 1int) =~= rest);
}

/// Lines that give `name` no value (other variables, empty values, lines
/// without `=`) do not matter: putting such a line before the text leaves
/// `name` as it was.
pub proof fn lemma_line_without_value_ignored(line: Seq<char>, rest: Seq<char>, name: Seq<char>)
    requires
        forall|i: int| 0 <= i < line.len() ==> line[i] != '\n',
        line.len() == 0 || line.last() != '\r',
        line_value(line, name) is None,
    ensures
        env_entry(line.push('\n') + rest, name) == env_entry(rest, name),
        env_value(line.push('\n') + rest, name) == env_value(rest, name),
{
    let content = line.push('\n') + rest;
    assert forall|j: int| 0 <= j < line.len() implies content[j] != '\n' by {
        assert(content[j] == line[j]);
    }
    assert(content[line.len() as int] == '\n');
    lemma_first_index(content, '\n', line.len() as int);
    assert(content.take(line.len() as int) =~= line);
    assert(first_line(content) == line);
    assert(content.skip(line.len() + 1int) =~= rest);
}

/// Reading is a function of the name and the text: the same name read from
/// the same text gives the same answer, whichever two answers meet the
/// reader's contract.
pub proof fn lemma_reading_is_determined(
    content: Seq<char>,
    name1: Seq<char>,
    name2: Seq<char>,
    r1: Result<Seq<char>, ErrorKind>,
    r2: Result<Seq<char>, ErrorKind>,
)
    requires
        name1 == name2,
        env_reading(content, name1, r1),
        env_reading(content, name2, r2),
    ensures
        r1 == r2,
{
}

} // verus!
