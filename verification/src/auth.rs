use vstd::prelude::*;
use vstd::utf8::encode_utf8;
use sha2::Digest;
use crate::text::{push_char, split_whitespace, str_eq, texts, words};

verus! {

// ---------------------------------------------------------------------------
// Encodings
// ---------------------------------------------------------------------------

/// The character of the URL-safe base64 alphabet for a six-bit value.
pub open spec fn base64_char(v: int) -> char {
    if v < 26 {
        ('A' as int + v) as char
    } else if v < 52 {
        ('a' as int + v - 26) as char
    } else if v < 62 {
        ('0' as int + v - 52) as char
    } else if v == 62 {
        '-'
    } else {
        '_'
    }
}

/// `bytes` in URL-safe base64 without padding (RFC 4648, section 5): each
/// group of three bytes becomes four characters, a trailing pair three, a
/// trailing byte two.
pub open spec fn base64_url(bytes: Seq<u8>) -> Seq<char>
    decreases bytes.len(),
{
    let b0 = bytes[0] as int;
    let b1 = bytes[1] as int;
    let b2 = bytes[2] as int;
    if bytes.len() == 0 {
        Seq::empty()
    } else if bytes.len() == 1 {
        seq![base64_char(b0 / 4), base64_char((b0 % 4) * 16)]
    } else if bytes.len() == 2 {
        seq![base64_char(b0 / 4), base64_char((b0 % 4) * 16 + b1 / 16), base64_char((b1 % 16) * 4)]
    } else {
        seq![
            base64_char(b0 / 4),
            base64_char((b0 % 4) * 16 + b1 / 16),
            base64_char((b1 % 16) * 4 + b2 / 64),
            base64_char(b2 % 64),
        ] + base64_url(bytes.skip(3))
    }
}

/// Base64 takes four characters for every three bytes, and two or three for
/// a trailing one or two: a 32-byte token is 43 characters long.
pub proof fn base64_length(bytes: Seq<u8>)
    ensures
        base64_url(bytes).len() == (4 * bytes.len() + 2) / 3,
    decreases bytes.len(),
{
    if bytes.len() >= 3 {
        base64_length(bytes.skip(3));
    }
}

/// Encodes bytes in URL-safe base64 without padding.
///
/// Calls `base64::Engine::encode` on the `URL_SAFE_NO_PAD` engine, which the
/// crate documents as the RFC 4648 URL-safe alphabet without padding; the
/// contract states that encoding. The length bound keeps the crate's
/// encoded-length computation from overflowing, where it panics.
#[verifier::external_body]
fn base64_url_encode(bytes: &[u8]) -> (text: String)
    requires
        bytes@.len() <= usize::MAX / 2,
    ensures
        text@ == base64_url(bytes@),
{
    base64::Engine::encode(&base64::engine::general_purpose::URL_SAFE_NO_PAD, bytes)
}

/// The SHA-256 digest of `bytes` (FIPS 180-4).
pub uninterp spec fn sha256_digest(bytes: Seq<u8>) -> Seq<u8>;

/// Hashes bytes with SHA-256.
///
/// Calls `sha2::Sha256::digest`; the contract names the digest and states
/// only its length of 32 bytes, which the output type fixes.
#[verifier::external_body]
fn sha256(bytes: &[u8]) -> (digest: Vec<u8>)
    ensures
        digest@ == sha256_digest(bytes@),
        digest@.len() == 32,
{
    sha2::Sha256::digest(bytes).to_vec()
}

/// The PKCE code challenge of a verifier (RFC 7636, `S256`): the URL-safe
/// base64 of the SHA-256 digest of its UTF-8 bytes.
pub fn pkce_challenge(verifier: &str) -> (challenge: String)
    ensures
        challenge@ == base64_url(sha256_digest(encode_utf8(verifier@))),
{
    let digest = sha256(verifier.as_bytes());
    base64_url_encode(digest.as_slice())
}

/// Bytes that `application/x-www-form-urlencoded` keeps as they are.
pub open spec fn form_unchanged(b: u8) -> bool {
    b == 0x2a || b == 0x2d || b == 0x2e || (0x30 <= b <= 0x39) || (0x41 <= b <= 0x5a) || b == 0x5f || (0x61 <= b
        <= 0x7a)
}

/// An upper-case hexadecimal digit.
pub open spec fn hex_digit(v: int) -> char {
    if v < 10 {
        ('0' as int + v) as char
    } else {
        ('A' as int + v - 10) as char
    }
}

/// A byte in `application/x-www-form-urlencoded` form: kept, `+` for a
/// space, or `%XX`.
pub open spec fn form_byte(b: u8) -> Seq<char> {
    if form_unchanged(b) {
        seq![b as char]
    } else if b == 0x20 {
        seq!['+']
    } else {
        seq!['%', hex_digit(b as int / 16), hex_digit(b as int % 16)]
    }
}

/// Bytes in `application/x-www-form-urlencoded` form.
pub open spec fn form_bytes(bytes: Seq<u8>) -> Seq<char>
    decreases bytes.len(),
{
    if bytes.len() == 0 {
        Seq::empty()
    } else {
        form_bytes(bytes.drop_last()) + form_byte(bytes.last())
    }
}

/// `target` followed by the pairs `name=value`, each encoded, separated by
/// `&` from whatever precedes them.
pub open spec fn form_serialized(target: Seq<char>, pairs: Seq<(Seq<char>, Seq<char>)>) -> Seq<char>
    decreases pairs.len(),
{
    if pairs.len() == 0 {
        target
    } else {
        let before = form_serialized(target, pairs.drop_last());
        let separator = if before.len() > 0 { seq!['&'] } else { Seq::empty() };
        before + separator + form_bytes(encode_utf8(pairs.last().0)) + seq!['='] + form_bytes(
            encode_utf8(pairs.last().1),
        )
    }
}

/// The pairs as texts.
pub open spec fn pair_texts(pairs: Seq<(String, String)>) -> Seq<(Seq<char>, Seq<char>)> {
    pairs.map_values(|p: (String, String)| (p.0@, p.1@))
}

/// Appends form-encoded pairs to `target`.
///
/// Calls `form_urlencoded::Serializer::new(target)`, `extend_pairs` and
/// `finish`. As the crate's source shows, each pair is written as the
/// encoded name, `=` and the encoded value, preceded by `&` whenever the
/// string is not empty; bytes outside `*-._`, digits and ASCII letters
/// become `%XX` in upper case, and a space becomes `+`.
#[verifier::external_body]
pub(crate) fn form_serialize(target: String, pairs: &Vec<(String, String)>) -> (serialized: String)
    ensures
        serialized@ == form_serialized(target@, pair_texts(pairs@)),
{
    form_urlencoded::Serializer::new(target).extend_pairs(pairs.iter()).finish()
}

/// The name/value pairs that form-encoded `input` decodes to, in order.
pub uninterp spec fn form_pairs(input: Seq<u8>) -> Seq<(Seq<char>, Seq<char>)>;

/// Decodes form-encoded pairs.
///
/// Calls `form_urlencoded::parse` and collects what it yields; the contract
/// names the decoded pairs (splitting on `&` and `=`, `+` to space, percent
/// decoding and lossy UTF-8 decoding) without stating them.
#[verifier::external_body]
fn parse_form(input: &[u8]) -> (pairs: Vec<(String, String)>)
    ensures
        pair_texts(pairs@) == form_pairs(input@),
{
    form_urlencoded::parse(input).map(|(name, value)| (name.into_owned(), value.into_owned())).collect()
}

// ---------------------------------------------------------------------------
// Randomness and time
// ---------------------------------------------------------------------------

#[verifier::external_type_specification]
#[verifier::external_body]
pub struct ExRandomError(getrandom::Error);

/// Fills `bytes` with random bytes from the system's source.
///
/// Calls `getrandom::fill`, which keeps the buffer's length; what it writes
/// is chance, and whether it fails depends on the system.
#[verifier::external_body]
fn fill_random(bytes: &mut Vec<u8>) -> (filled: Result<(), getrandom::Error>)
    ensures
        final(bytes)@.len() == old(bytes)@.len(),
{
    getrandom::fill(bytes.as_mut_slice())
}

/// The current Unix time in seconds, when the system clock can be read.
///
/// Converts `std::time::SystemTime::now()` with
/// `jiff::Timestamp::try_from`, which fails (rather than panics, as
/// `Timestamp::now` would) when the clock lies outside jiff's range; the
/// result depends on the clock and nothing more is stated of it.
#[verifier::external_body]
fn now_seconds() -> (seconds: Option<i64>) {
    jiff::Timestamp::try_from(std::time::SystemTime::now()).ok().map(|now| now.as_second())
}

/// Why authorizing with Spotify failed.
#[derive(Clone, Copy, PartialEq, Eq, Structural, Debug)]
pub enum AuthError {
    /// The system's random source failed.
    Random,
    /// The authorization callback was not a request with a query holding a
    /// code and a state.
    InvalidResponse,
    /// The callback's state did not match the one sent.
    StateMismatch,
}

/// A random token: `len` random bytes in URL-safe base64.
pub fn random_token(len: usize) -> (token: Result<String, AuthError>)
    requires
        len <= usize::MAX / 2,
    ensures
        match token {
            Ok(t) => exists|bytes: Seq<u8>| bytes.len() == len && #[trigger] base64_url(bytes) == t@,
            Err(e) => e == AuthError::Random,
        },
{
    let mut bytes: Vec<u8> = Vec::new();
    let mut i: usize = 0;
    while i < len
        invariant
            0 <= i <= len,
            bytes@.len() == i,
        decreases len - i,
    {
        bytes.push(0);
        i += 1;
    }
    match fill_random(&mut bytes) {
        Ok(()) => Ok(base64_url_encode(bytes.as_slice())),
        Err(_) => Err(AuthError::Random),
    }
}

// ---------------------------------------------------------------------------
// Authorization
// ---------------------------------------------------------------------------

/// The address Spotify sends the user back to.
pub open spec fn redirect_uri() -> Seq<char> {
    "http://127.0.0.1:7474/callback"@
}

/// The query of the authorization URL.
pub open spec fn authorize_query(client_id: Seq<char>, scopes: Seq<char>, state: Seq<char>, challenge: Seq<char>) -> Seq<char> {
    form_serialized(
        Seq::empty(),
        seq![
            ("client_id"@, client_id),
            ("response_type"@, "code"@),
            ("redirect_uri"@, redirect_uri()),
            ("code_challenge_method"@, "S256"@),
            ("code_challenge"@, challenge),
            ("state"@, state),
            ("scope"@, scopes),
        ],
    )
}

/// The URL that asks the user to authorize the client, with a PKCE
/// challenge of `verifier`.
pub open spec fn authorize_url_for(client_id: Seq<char>, scopes: Seq<char>, state: Seq<char>, verifier: Seq<char>) -> Seq<char> {
    "https://accounts.spotify.com/authorize?"@ + authorize_query(
        client_id,
        scopes,
        state,
        base64_url(sha256_digest(encode_utf8(verifier))),
    )
}

fn text(s: &str) -> (t: String)
    ensures
        t@ == s@,
{
    s.to_string()
}

/// The authorization URL for `client_id`, `scopes` and `state`, with the
/// PKCE challenge of `verifier`.
pub fn authorize_url(client_id: &str, scopes: &str, state: &str, verifier: &str) -> (url: String)
    ensures
        url@ == authorize_url_for(client_id@, scopes@, state@, verifier@),
{
    let challenge = pkce_challenge(verifier);
    let mut pairs: Vec<(String, String)> = Vec::new();
    pairs.push((text("client_id"), text(client_id)));
    pairs.push((text("response_type"), text("code")));
    pairs.push((text("redirect_uri"), text("http://127.0.0.1:7474/callback")));
    pairs.push((text("code_challenge_method"), text("S256")));
    pairs.push((text("code_challenge"), challenge));
    pairs.push((text("state"), text(state)));
    pairs.push((text("scope"), text(scopes)));
    let ghost expected = seq![
        ("client_id"@, client_id@),
        ("response_type"@, "code"@),
        ("redirect_uri"@, redirect_uri()),
        ("code_challenge_method"@, "S256"@),
        ("code_challenge"@, challenge@),
        ("state"@, state@),
        ("scope"@, scopes@),
    ];
    assert(pair_texts(pairs@) =~= expected);
    let query = form_serialize(String::new(), &pairs);
    let mut url = text("https://accounts.spotify.com/authorize?");
    url.append(query.as_str());
    url
}

/// A fresh PKCE verifier and the authorization URL that carries its
/// challenge.
pub fn get_authorize_url(client_id: &str, scopes: &str, state: &str) -> (result: Result<(String, String), AuthError>)
    ensures
        match result {
            Ok((verifier, url)) => {
                &&& url@ == authorize_url_for(client_id@, scopes@, state@, verifier@)
                &&& exists|bytes: Seq<u8>| bytes.len() == 32 && #[trigger] base64_url(bytes) == verifier@
            },
            Err(e) => e == AuthError::Random,
        },
{
    let verifier = random_token(32)?;
    let url = authorize_url(client_id, scopes, state, verifier.as_str());
    Ok((verifier, url))
}

/// The code and state that an authorization callback carries: the query of
/// the request target (the second word of the request line, after its
/// first `?`), decoded, then the first `code` pair and the first `state`
/// pair after it.
pub open spec fn callback_query(request_line: Seq<char>) -> Option<Seq<char>> {
    let parts = words(request_line);
    if parts.len() < 2 {
        None
    } else {
        let target = parts[1];
        if exists|i: int| 0 <= i < target.len() && target[i] == '?' {
            let i = choose|i: int| 0 <= i < target.len() && target[i] == '?' && forall|k: int| 0 <= k < i ==> target[k] != '?';
            Some(target.skip(i + 1))
        } else {
            None
        }
    }
}

/// The position of the first pair named `name` at or after `from`.
pub open spec fn pair_named(pairs: Seq<(Seq<char>, Seq<char>)>, name: Seq<char>, from: int) -> Option<int> {
    if exists|i: int| from <= i < pairs.len() && #[trigger] pairs[i].0 == name {
        Some(choose|i: int| from <= i < pairs.len() && pairs[i].0 == name && forall|k: int| from <= k < i ==> #[trigger] pairs[k].0 != name)
    } else {
        None
    }
}

/// The code among decoded callback pairs: the first `code` pair, with the
/// first `state` pair after it matching the state that was sent.
pub open spec fn pairs_code(pairs: Seq<(Seq<char>, Seq<char>)>, expected_state: Seq<char>) -> Result<Seq<char>, AuthError> {
    match pair_named(pairs, "code"@, 0) {
        None => Err(AuthError::InvalidResponse),
        Some(c) => match pair_named(pairs, "state"@, c + 1) {
            None => Err(AuthError::InvalidResponse),
            Some(s) => if pairs[s].1 == expected_state {
                Ok(pairs[c].1)
            } else {
                Err(AuthError::StateMismatch)
            },
        },
    }
}

/// What an authorization callback gives: the code when the state matches.
pub open spec fn callback_code(request_line: Seq<char>, expected_state: Seq<char>) -> Result<Seq<char>, AuthError> {
    match callback_query(request_line) {
        None => Err(AuthError::InvalidResponse),
        Some(query) => pairs_code(form_pairs(encode_utf8(query)), expected_state),
    }
}

proof fn lemma_pair_named(pairs: Seq<(Seq<char>, Seq<char>)>, name: Seq<char>, from: int, i: int)
    requires
        from <= i < pairs.len(),
        pairs[i].0 == name,
        forall|k: int| from <= k < i ==> #[trigger] pairs[k].0 != name,
    ensures
        pair_named(pairs, name, from) == Some(i),
{
    let c = choose|j: int| from <= j < pairs.len() && pairs[j].0 == name && forall|k: int| from <= k < j ==> #[trigger] pairs[k].0 != name;
    assert(from <= c < pairs.len() && pairs[c].0 == name && forall|k: int| from <= k < c ==> #[trigger] pairs[k].0 != name);
    if c < i {
        assert(pairs[c].0 != name);
    } else if c > i {
        assert(pairs[i].0 != name);
    }
}

/// Finds the first pair named `name` at or after `from`.
fn find_pair(pairs: &Vec<(String, String)>, name: &str, from: usize) -> (found: Option<usize>)
    ensures
        match found {
            Some(i) => pair_named(pair_texts(pairs@), name@, from as int) == Some(i as int) && i < pairs@.len(),
            None => pair_named(pair_texts(pairs@), name@, from as int) is None,
        },
{
    let ghost views = pair_texts(pairs@);
    let mut i = from;
    while i < pairs.len()
        invariant
            from <= i,
            views == pair_texts(pairs@),
            forall|k: int| from <= k < i && k < views.len() ==> #[trigger] views[k].0 != name@,
        decreases pairs@.len() - i,
    {
        if str_eq(pairs[i].0.as_str(), name) {
            proof {
                lemma_pair_named(views, name@, from as int, i as int);
            }
            return Some(i);
        }
        i += 1;
    }
    None
}

/// The authorization code of a callback request line, checked against the
/// state that was sent.
pub fn authorization_code(request_line: &str, expected_state: &str) -> (code: Result<String, AuthError>)
    ensures
        match callback_code(request_line@, expected_state@) {
            Ok(c) => code is Ok && code->Ok_0@ == c,
            Err(e) => code == Err::<String, AuthError>(e),
        },
{
    let parts = split_whitespace(request_line);
    if parts.len() < 2 {
        return Err(AuthError::InvalidResponse);
    }
    assert(texts(parts@)[1] == parts@[1]@);
    let target = parts[1].as_str();
    let len = target.unicode_len();
    let mut i: usize = 0;
    while i < len && target.get_char(i) != '?'
        invariant
            len == target@.len(),
            0 <= i <= len,
            forall|k: int| 0 <= k < i ==> target@[k] != '?',
        decreases len - i,
    {
        i += 1;
    }
    if i == len {
        return Err(AuthError::InvalidResponse);
    }
    let query = target.substring_char(i + 1, len);
    proof {
        let t = target@;
        let c = choose|j: int| 0 <= j < t.len() && t[j] == '?' && forall|k: int| 0 <= k < j ==> t[k] != '?';
        if c < i {
            assert(t[c] != '?');
        } else if c > i {
            assert(t[i as int] != '?');
        }
        assert(query@ =~= t.skip(i as int + 1));
        assert(callback_query(request_line@) == Some(query@));
    }
    let pairs = parse_form(query.as_bytes());
    code_from_pairs(&pairs, expected_state)
}

/// The authorization code among the decoded pairs of a callback's query:
/// the first `code` pair's value, when the first `state` pair after it
/// holds the state that was sent.
pub fn code_from_pairs(pairs: &Vec<(String, String)>, expected_state: &str) -> (code: Result<String, AuthError>)
    ensures
        match pairs_code(pair_texts(pairs@), expected_state@) {
            Ok(c) => code is Ok && code->Ok_0@ == c,
            Err(e) => code == Err::<String, AuthError>(e),
        },
{
    let count = pairs.len();
    let code_at = match find_pair(pairs, "code", 0) {
        Some(c) => c,
        None => return Err(AuthError::InvalidResponse),
    };
    assert(code_at < count);
    let state_at = match find_pair(pairs, "state", code_at + 1) {
        Some(s) => s,
        None => return Err(AuthError::InvalidResponse),
    };
    if !str_eq(pairs[state_at].1.as_str(), expected_state) {
        return Err(AuthError::StateMismatch);
    }
    Ok(pairs[code_at].1.clone())
}

// ---------------------------------------------------------------------------
// Tokens
// ---------------------------------------------------------------------------

/// An OAuth token of the Spotify client.
pub struct OAuthCredentials {
    pub access_token: String,
    /// Unix time, in seconds, at which the access token expires.
    pub expires_at: i64,
    pub refresh_token: Option<String>,
    /// The granted scopes, separated by white space.
    pub scope: String,
}

/// Whether every scope in `required` is among the scopes in `granted`.
pub open spec fn grants(granted: Seq<char>, required: Seq<char>) -> bool {
    forall|i: int| 0 <= i < words(required).len() ==> words(granted).contains(#[trigger] words(required)[i])
}

/// A token's scopes grant themselves.
pub proof fn scopes_grant_themselves(scopes: Seq<char>)
    ensures
        grants(scopes, scopes),
{
    assert forall|i: int| 0 <= i < words(scopes).len() implies words(scopes).contains(#[trigger] words(scopes)[i]) by {}
}

/// Whether the white-space separated scopes `granted` include every scope in
/// `required`.
pub fn has_scopes(granted: &str, required: &str) -> (granted_all: bool)
    ensures
        granted_all == grants(granted@, required@),
{
    let have = split_whitespace(granted);
    let want = split_whitespace(required);
    let ghost have_words = words(granted@);
    let ghost want_words = words(required@);
    let mut i: usize = 0;
    while i < want.len()
        invariant
            0 <= i <= want@.len(),
            texts(have@) == have_words,
            texts(want@) == want_words,
            have_words == words(granted@),
            want_words == words(required@),
            forall|k: int| 0 <= k < i ==> have_words.contains(#[trigger] want_words[k]),
        decreases want@.len() - i,
    {
        let mut found = false;
        let mut j: usize = 0;
        while j < have.len()
            invariant_except_break
                0 <= j <= have@.len(),
                !found,
            invariant
                i < want@.len(),
                texts(have@) == have_words,
                texts(want@) == want_words,
                forall|k: int| 0 <= k < j ==> #[trigger] have_words[k] != want_words[i as int],
            ensures
                found ==> have_words.contains(want_words[i as int]),
                !found ==> !have_words.contains(want_words[i as int]),
            decreases have@.len() - j,
        {
            if have[j] == want[i] {
                assert(have_words[j as int] == want_words[i as int]);
                found = true;
                break;
            }
            j += 1;
        }
        if !found {
            assert(!words(granted@).contains(words(required@)[i as int]));
            assert(!grants(granted@, required@));
            return false;
        }
        i += 1;
    }
    true
}

/// Whether a token that expires at `expires_at` counts as expired at Unix
/// time `now`: it has expired, or will within ten seconds.
pub open spec fn expired_by(expires_at: i64, now: i64) -> bool {
    (if now + 10 > i64::MAX { i64::MAX as int } else { now + 10 }) >= expires_at
}

/// A token counts as expired from ten seconds before its expiry time on, and
/// once expired it stays expired as time goes on.
pub proof fn expiry_comes_ten_seconds_early(expires_at: i64, now: i64, later: i64)
    ensures
        now <= i64::MAX - 10 ==> (expired_by(expires_at, now) <==> now >= expires_at - 10),
        now >= expires_at ==> expired_by(expires_at, now),
        now <= later && expired_by(expires_at, now) ==> expired_by(expires_at, later),
{
}

/// Whether a token counts as expired by a reading of the clock: by the
/// time read, or always when the clock could not be read.
pub open spec fn expired_by_clock(expires_at: i64, now: Option<i64>) -> bool {
    match now {
        Some(seconds) => expired_by(expires_at, seconds),
        None => true,
    }
}

impl OAuthCredentials {
    /// Whether the token has expired at Unix time `now`, or will within ten
    /// seconds.
    pub fn expired_at(&self, now: i64) -> (expired: bool)
        ensures
            expired == expired_by(self.expires_at, now),
    {
        let soon = if now > i64::MAX - 10 { i64::MAX } else { now + 10 };
        soon >= self.expires_at
    }

    /// Whether the token has expired, or will within ten seconds, by the
    /// system clock. When the clock cannot be read the token counts as
    /// expired, so that it is renewed.
    pub fn is_expired(&self) -> (expired: bool)
        ensures
            exists|now: Option<i64>| expired == #[trigger] expired_by_clock(self.expires_at, now),
    {
        match now_seconds() {
            Some(now) => {
                let expired = self.expired_at(now);
                assert(expired == expired_by_clock(self.expires_at, Some(now)));
                expired
            },
            None => {
                assert(expired_by_clock(self.expires_at, None));
                true
            },
        }
    }

    /// The `authorization` header value for the token.
    pub fn authorization(&self) -> (header: String)
        ensures
            header@ == "Bearer "@ + self.access_token@,
    {
        let mut header = text("Bearer ");
        header.append(self.access_token.as_str());
        header
    }

    /// A refreshed token keeps the refresh token and scopes of the token it
    /// replaces when the server sends none.
    pub fn refreshed(self, previous: &OAuthCredentials) -> (token: OAuthCredentials)
        ensures
            token.access_token == self.access_token,
            token.expires_at == self.expires_at,
            token.refresh_token == match self.refresh_token {
                Some(r) => Some(r),
                None => previous.refresh_token,
            },
            token.scope@ == if self.scope@.len() == 0 { previous.scope@ } else { self.scope@ },
    {
        let mut token = self;
        if token.refresh_token.is_none() {
            token.refresh_token = match &previous.refresh_token {
                Some(r) => Some(r.clone()),
                None => None,
            };
        }
        if token.scope.unicode_len() == 0 {
            token.scope = previous.scope.clone();
        }
        token
    }
}

/// The expiry of a token that the server says lives `ttl` seconds from
/// Unix time `now`.
pub fn expires_at_after(now: i64, ttl: i64) -> (expires_at: i64)
    ensures
        expires_at == if now + ttl > i64::MAX {
            i64::MAX as int
        } else if now + ttl < i64::MIN {
            i64::MIN as int
        } else {
            now + ttl
        },
{
    if ttl > 0 && now > i64::MAX - ttl {
        i64::MAX
    } else if ttl < 0 && now < i64::MIN - ttl {
        i64::MIN
    } else {
        now + ttl
    }
}

/// A cached token is used only when it grants every required scope.
pub fn usable_cached_token(token: Option<OAuthCredentials>, scopes: &str) -> (usable: Option<OAuthCredentials>)
    ensures
        usable == match token {
            Some(t) => if grants(t.scope@, scopes@) {
                Some(t)
            } else {
                None
            },
            None => None,
        },
{
    match token {
        Some(t) => if has_scopes(t.scope.as_str(), scopes) {
            Some(t)
        } else {
            None
        },
        None => None,
    }
}

} // verus!
