//! The Spotify side of the player: the authorization-code flow with PKCE,
//! and the cached token with its refresh.

use vstd::prelude::*;
use base64::Engine;
use rand::RngCore;
use sha2::Digest;
use crate::text::{
    before_char, find_from, find_from_exec, first_token, first_token_of, lemma_find_from,
    prefix_before_char, substring, to_chars,
};

verus! {

broadcast use vstd::string::group_string_axioms;

/// The application's client id at Spotify.
pub const SPOTIFY_CLIENT_ID: &'static str = "a42d7e4861544e72b357a5350aebfe8d";

/// Where Spotify sends the browser back after the user has logged in.
pub const SPOTIFY_REDIRECT_URI: &'static str = "http://127.0.0.1:13337";

/// The permissions asked of the user.
pub const SPOTIFY_SCOPES: &'static str =
    "playlist-read-private playlist-read-collaborative user-library-read user-read-private user-read-email";

/// The page in the browser that starts the login.
pub open spec fn authorization_url_spec(challenge: Seq<char>) -> Seq<char> {
    "https://accounts.spotify.com/authorize?client_id="@ + SPOTIFY_CLIENT_ID@
        + "&response_type=code&redirect_uri="@ + SPOTIFY_REDIRECT_URI@ + "&scope="@
        + SPOTIFY_SCOPES@ + "&code_challenge_method=S256&code_challenge="@ + challenge
}

/// The address of the login page for the given PKCE code challenge.
pub fn authorization_url(challenge: &str) -> (r: String)
    ensures
        r@ == authorization_url_spec(challenge@),
{
    let mut r = String::from_str("https://accounts.spotify.com/authorize?client_id=");
    r.append(SPOTIFY_CLIENT_ID);
    r.append("&response_type=code&redirect_uri=");
    r.append(SPOTIFY_REDIRECT_URI);
    r.append("&scope=");
    r.append(SPOTIFY_SCOPES);
    r.append("&code_challenge_method=S256&code_challenge=");
    r.append(challenge);
    r
}

/// The text between the first occurrence of `pat` in `s` and the next one
/// (or the end), as `str::split(pat).nth(1)` yields it.
pub open spec fn segment_after_first(s: Seq<char>, pat: Seq<char>) -> Option<Seq<char>> {
    match find_from(s, pat, 0) {
        None => None,
        Some(p) => {
            let start = p + pat.len();
            match find_from(s, pat, start) {
                Some(q) => Some(s.subrange(start, q)),
                None => Some(s.subrange(start, s.len() as int)),
            }
        },
    }
}

/// The authorization code in the request that the browser sends back: the
/// text after `code=`, up to the first whitespace or `&`.
pub open spec fn callback_code(request: Seq<char>) -> Option<Seq<char>> {
    match segment_after_first(request, "code="@) {
        None => None,
        Some(seg) => match first_token(seg) {
            None => None,
            Some(t) => Some(before_char(t, '&')),
        },
    }
}

/// Reads the authorization code out of the HTTP request that the browser
/// sends to the redirect address.
pub fn extract_auth_code(request: &str) -> (r: Result<String, String>)
    ensures
        r is Ok <==> callback_code(request@) is Some,
        r matches Ok(code) ==> callback_code(request@) == Some(code@),
        r matches Err(e) ==> e@ == "Failed to extract code from callback"@,
{
    let v = to_chars(request);
    let pat = to_chars("code=");
    match find_from_exec(&v, &pat, 0) {
        None => Err(String::from_str("Failed to extract code from callback")),
        Some(p) => {
            proof {
                lemma_find_from(v@, pat@, 0);
            }
            let vl = v.len();
            assert(p + pat@.len() <= vl);
            let start = p + pat.len();
            let end = match find_from_exec(&v, &pat, start) {
                Some(q) => {
                    proof {
                        lemma_find_from(v@, pat@, start as int);
                    }
                    q
                },
                None => v.len(),
            };
            let seg = substring(request, start, end);
            match first_token_of(seg.as_str()) {
                None => Err(String::from_str("Failed to extract code from callback")),
                Some(t) => Ok(prefix_before_char(t.as_str(), '&')),
            }
        },
    }
}

/// The characters a PKCE code verifier is drawn from (RFC 7636's unreserved characters).
pub const PKCE_ALPHABET: &'static str =
    "ABCDEFGHIJKLMNOPQRSTUVWXYZabcdefghijklmnopqrstuvwxyz0123456789-._~";

/// The number of characters in a code verifier.
pub const CODE_VERIFIER_LEN: usize = 128;

/// Eight bytes from the operating system's random source, read as a
/// little-endian `u64`.
///
/// Calls `rand_core::RngCore::try_fill_bytes` on `rand::rngs::OsRng`, which
/// returns an error, and does not panic, when the operating system cannot
/// supply random bytes. Nothing is stated of the number, which is chance, nor
/// of the error's text.
#[verifier::external_body]
fn os_random_u64() -> (r: Result<u64, String>) {
    let mut bytes = [0u8; 8];
    match rand::rngs::OsRng.try_fill_bytes(&mut bytes) {
        Ok(()) => Ok(u64::from_le_bytes(bytes)),
        Err(e) => Err(e.to_string()),
    }
}

/// The most random numbers drawn for one index. For the 66 characters of the
/// alphabet a draw is rejected with a chance below one in 2^57, so all of them
/// are rejected with a chance below one in 2^456; the remainder of the last
/// draw is then taken as it is, with a bias too rare to matter.
pub const MAX_DRAWS_PER_INDEX: usize = 8;

/// The error returned when no random index could be drawn.
pub open spec fn random_index_error(cause: Seq<char>) -> Seq<char> {
    "Failed to generate code verifier: "@ + cause
}

/// The index among `n` choices that a drawn number gives: its remainder by
/// `n` when it lies below the largest multiple of `n` that fits in a `u64`, so
/// that every index is equally likely; none when the draw is rejected.
pub open spec fn index_from_draw_spec(v: u64, n: u64) -> Option<int> {
    if v < u64::MAX - u64::MAX % n {
        Some((v % n) as int)
    } else {
        None
    }
}

/// The index among `n` choices that a drawn number gives, or `None` when the
/// draw is rejected and another must be drawn.
pub fn index_from_draw(v: u64, n: u64) -> (r: Option<usize>)
    requires
        0 < n <= usize::MAX,
    ensures
        match r {
            Some(i) => index_from_draw_spec(v, n) == Some(i as int),
            None => index_from_draw_spec(v, n) is None,
        },
{
    if v < u64::MAX - u64::MAX % n {
        Some((v % n) as usize)
    } else {
        None
    }
}

/// The index that a run of draws gives among `n` choices: that of the first
/// draw `index_from_draw_spec` accepts, or, when it accepts none, the
/// remainder of the last draw by `n`.
pub open spec fn index_from_draws_spec(draws: Seq<u64>, n: u64) -> int
    decreases draws.len(),
{
    if draws.len() == 0 {
        0
    } else if draws.len() == 1 {
        (draws[0] % n) as int
    } else {
        match index_from_draw_spec(draws[0], n) {
            Some(i) => i,
            None => index_from_draws_spec(draws.drop_first(), n),
        }
    }
}

/// The index that a run of draws gives among `n` choices.
pub fn index_from_draws(draws: &Vec<u64>, n: u64) -> (r: usize)
    requires
        0 < n <= usize::MAX,
        draws@.len() > 0,
    ensures
        r == index_from_draws_spec(draws@, n),
        r < n,
{
    let mut k: usize = 0;
    assert(draws@.skip(0) =~= draws@);
    loop
        invariant
            0 < n <= usize::MAX,
            k < draws@.len(),
            draws@.len() == draws.len(),
            index_from_draws_spec(draws@, n) == index_from_draws_spec(draws@.skip(k as int), n),
        decreases draws@.len() - k,
    {
        let rest = Ghost(draws@.skip(k as int));
        assert(rest@[0] == draws@[k as int]);
        if k == draws.len() - 1 {
            assert(rest@.len() == 1);
            return (draws[k] % n) as usize;
        }
        match index_from_draw(draws[k], n) {
            Some(i) => {
                return i;
            },
            None => {},
        }
        assert(rest@.drop_first() =~= draws@.skip(k + 1));
        k = k + 1;
    }
}

/// An index drawn uniformly from `0..n` with the operating system's random
/// source: up to `MAX_DRAWS_PER_INDEX` numbers are drawn, until
/// `index_from_draw` accepts one, and `index_from_draws` gives the index.
fn random_index(n: u64) -> (r: Result<usize, String>)
    requires
        0 < n <= usize::MAX,
    ensures
        r matches Ok(i) ==> i < n,
        r matches Err(e) ==> exists|cause: Seq<char>| e@ == random_index_error(cause),
{
    let mut draws: Vec<u64> = Vec::new();
    loop
        invariant
            0 < n <= usize::MAX,
            draws@.len() < MAX_DRAWS_PER_INDEX,
        decreases MAX_DRAWS_PER_INDEX - draws@.len(),
    {
        match os_random_u64() {
            Err(cause) => {
                let mut e = String::from_str("Failed to generate code verifier: ");
                e.append(cause.as_str());
                assert(e@ == random_index_error(cause@));
                return Err(e);
            },
            Ok(v) => {
                draws.push(v);
                if index_from_draw(v, n).is_some() || draws.len() == MAX_DRAWS_PER_INDEX {
                    return Ok(index_from_draws(&draws, n));
                }
            },
        }
    }
}

/// The code verifier made of the alphabet's characters at the given indices,
/// in order.
pub fn code_verifier_from_indices(indices: &Vec<usize>) -> (r: String)
    requires
        forall|k: int| 0 <= k < indices@.len() ==> #[trigger] indices@[k] < PKCE_ALPHABET@.len(),
    ensures
        r@.len() == indices@.len(),
        forall|k: int| 0 <= k < indices@.len() ==> #[trigger] r@[k] == PKCE_ALPHABET@[indices@[k] as int],
{
    proof {
        reveal_strlit("ABCDEFGHIJKLMNOPQRSTUVWXYZabcdefghijklmnopqrstuvwxyz0123456789-._~");
    }
    let mut r = String::new();
    let mut k: usize = 0;
    while k < indices.len()
        invariant
            PKCE_ALPHABET@.len() == 66,
            k <= indices@.len(),
            r@.len() == k,
            forall|j: int| 0 <= j < indices@.len() ==> #[trigger] indices@[j] < PKCE_ALPHABET@.len(),
            forall|j: int| 0 <= j < k ==> #[trigger] r@[j] == PKCE_ALPHABET@[indices@[j] as int],
        decreases indices@.len() - k,
    {
        let i = indices[k];
        let c = PKCE_ALPHABET.substring_char(i, i + 1);
        let ghost before = r@;
        r.append(c);
        proof {
            assert(c@ =~= seq![PKCE_ALPHABET@[i as int]]);
            assert forall|j: int| 0 <= j < k + 1 implies #[trigger] r@[j] == PKCE_ALPHABET@[indices@[j] as int] by {
                if j < k {
                    assert(r@[j] == before[j]);
                }
            }
        }
        k = k + 1;
    }
    r
}

/// A fresh PKCE code verifier: 128 characters drawn at random from the
/// unreserved characters, each by `random_index`. Fails, with a message that
/// starts `Failed to generate code verifier: `, only when the operating
/// system's random source fails.
pub fn generate_code_verifier() -> (r: Result<String, String>)
    ensures
        r matches Ok(v) ==> v@.len() == CODE_VERIFIER_LEN && forall|i: int|
            0 <= i < v@.len() ==> PKCE_ALPHABET@.contains(#[trigger] v@[i]),
        r matches Err(e) ==> exists|cause: Seq<char>| e@ == random_index_error(cause),
{
    proof {
        reveal_strlit("ABCDEFGHIJKLMNOPQRSTUVWXYZabcdefghijklmnopqrstuvwxyz0123456789-._~");
    }
    let n: u64 = 66;
    let mut indices: Vec<usize> = Vec::new();
    while indices.len() < CODE_VERIFIER_LEN
        invariant
            n == 66,
            PKCE_ALPHABET@.len() == n,
            indices@.len() <= CODE_VERIFIER_LEN,
            forall|k: int| 0 <= k < indices@.len() ==> #[trigger] indices@[k] < PKCE_ALPHABET@.len(),
        decreases CODE_VERIFIER_LEN - indices@.len(),
    {
        let i = match random_index(n) {
            Ok(i) => i,
            Err(e) => {
                return Err(e);
            },
        };
        indices.push(i);
    }
    let v = code_verifier_from_indices(&indices);
    assert forall|i: int| 0 <= i < v@.len() implies PKCE_ALPHABET@.contains(#[trigger] v@[i]) by {
        assert(v@[i] == PKCE_ALPHABET@[indices@[i] as int]);
    }
    Ok(v)
}

/// What SHA-256 gives for a message.
pub uninterp spec fn sha256_spec(data: Seq<u8>) -> Seq<u8>;

/// The SHA-256 digest of `data`.
///
/// Calls `sha2::Sha256::digest`. The contract claims that the digest is a
/// function of the message alone, named `sha256_spec`, and that it is 32 bytes
/// long.
#[verifier::external_body]
fn sha256(data: &[u8]) -> (r: Vec<u8>)
    ensures
        r@ == sha256_spec(data@),
        r@.len() == 32,
{
    sha2::Sha256::digest(data).to_vec()
}

/// The character of the URL-safe base64 alphabet (RFC 4648, section 5) for a 6-bit value.
pub open spec fn base64_url_char(v: int) -> char {
    if v < 26 {
        (65 + v) as char
    } else if v < 52 {
        (97 + v - 26) as char
    } else if v < 62 {
        (48 + v - 52) as char
    } else if v == 62 {
        '-'
    } else {
        '_'
    }
}

/// URL-safe base64 without padding: each group of three bytes becomes four
/// characters; a trailing group of one or two bytes becomes two or three.
pub open spec fn base64_url_nopad(b: Seq<u8>) -> Seq<char>
    decreases b.len(),
{
    if b.len() == 0 {
        seq![]
    } else {
        let x0 = b[0] as int;
        if b.len() == 1 {
            seq![base64_url_char(x0 / 4), base64_url_char((x0 % 4) * 16)]
        } else {
            let x1 = b[1] as int;
            if b.len() == 2 {
                seq![
                    base64_url_char(x0 / 4),
                    base64_url_char((x0 % 4) * 16 + x1 / 16),
                    base64_url_char((x1 % 16) * 4),
                ]
            } else {
                let x2 = b[2] as int;
                seq![
                    base64_url_char(x0 / 4),
                    base64_url_char((x0 % 4) * 16 + x1 / 16),
                    base64_url_char((x1 % 16) * 4 + x2 / 64),
                    base64_url_char(x2 % 64),
                ] + base64_url_nopad(b.skip(3))
            }
        }
    }
}

/// Encodes bytes in URL-safe base64 without padding.
///
/// Calls `base64::engine::general_purpose::URL_SAFE_NO_PAD.encode`. The
/// contract claims that the result is the RFC 4648 section 5 encoding without
/// `=` padding, as `base64_url_nopad` writes it out. The call panics when the
/// length of the encoding overflows `usize`, which the bound on the input
/// rules out.
#[verifier::external_body]
fn base64_url_encode(data: &[u8]) -> (r: String)
    requires
        data@.len() <= usize::MAX / 2,
    ensures
        r@ == base64_url_nopad(data@),
{
    base64::engine::general_purpose::URL_SAFE_NO_PAD.encode(data)
}

/// The PKCE code challenge for `verifier`: the URL-safe base64 (without
/// padding) of the SHA-256 digest of its UTF-8 bytes.
pub open spec fn code_challenge_spec(verifier: Seq<char>) -> Seq<char> {
    base64_url_nopad(sha256_spec(vstd::utf8::encode_utf8(verifier)))
}

/// The PKCE code challenge (method S256) for a code verifier.
pub fn code_challenge(verifier: &str) -> (r: String)
    ensures
        r@ == code_challenge_spec(verifier@),
        r@ == base64_url_nopad(sha256_spec(vstd::utf8::encode_utf8(verifier@))),
        r@.len() == 43,
{
    let digest = sha256(verifier.as_bytes());
    let r = base64_url_encode(digest.as_slice());
    proof {
        lemma_base64_len_32(digest@);
    }
    r
}

/// The URL-safe unpadded base64 of 32 bytes is 43 characters long.
pub proof fn lemma_base64_len_32(b: Seq<u8>)
    requires
        b.len() == 32,
    ensures
        base64_url_nopad(b).len() == 43,
{
    lemma_base64_len(b);
}

/// The length of an unpadded base64 encoding: four characters per full
/// group of three bytes, plus two or three for a trailing group.
pub proof fn lemma_base64_len(b: Seq<u8>)
    ensures
        base64_url_nopad(b).len() == (b.len() / 3) * 4 + (if b.len() % 3 == 0 {
            0int
        } else {
            b.len() % 3 + 1int
        }),
    decreases b.len(),
{
    if b.len() >= 3 {
        lemma_base64_len(b.skip(3));
    }
}

/// The token that Spotify hands out, as the player caches it.
pub struct SpotifyToken {
    pub access_token: String,
    pub refresh_token: String,
    /// Lifetime in seconds, as Spotify reported it.
    pub expires_in: i64,
    /// The Unix time (seconds) at which the token expires.
    pub expires_at: i64,
}

/// How many seconds before its expiry a token is no longer used.
pub const TOKEN_EXPIRY_MARGIN: i64 = 60;

/// A token is used only while more than a minute of its lifetime remains.
pub open spec fn token_valid_spec(expires_at: int, now: int) -> bool {
    now < expires_at - TOKEN_EXPIRY_MARGIN
}

/// Whether the cached token may still be used at Unix time `now`: it must have
/// more than 60 seconds left.
pub fn is_token_valid(token: &SpotifyToken, now: i64) -> (r: bool)
    requires
        token.expires_at - TOKEN_EXPIRY_MARGIN >= i64::MIN,
    ensures
        r == token_valid_spec(token.expires_at as int, now as int),
{
    now < token.expires_at - TOKEN_EXPIRY_MARGIN
}

/// The fields of Spotify's answer to a token request that the player reads.
pub struct TokenResponse {
    pub access_token: Option<String>,
    pub refresh_token: Option<String>,
    pub expires_in: Option<i64>,
}

/// Builds the token from Spotify's answer, received at Unix time `now`.
pub fn token_from_response(response: TokenResponse, now: i64) -> (r: Result<SpotifyToken, String>)
    requires
        response.access_token is Some && response.refresh_token is Some
            && response.expires_in is Some ==> i64::MIN <= now + response.expires_in->0 <= i64::MAX,
    ensures
        response.access_token is None ==> (r matches Err(e) && e@ == "Missing access_token"@),
        response.access_token is Some && response.refresh_token is None ==> (r matches Err(e)
            && e@ == "Missing refresh_token"@),
        response.access_token is Some && response.refresh_token is Some
            && response.expires_in is None ==> (r matches Err(e) && e@ == "Missing expires_in"@),
        response.access_token is Some && response.refresh_token is Some
            && response.expires_in is Some ==> r == Ok::<SpotifyToken, String>(
            SpotifyToken {
                access_token: response.access_token->0,
                refresh_token: response.refresh_token->0,
                expires_in: response.expires_in->0,
                expires_at: (now + response.expires_in->0) as i64,
            },
        ),
{
    let access_token = match response.access_token {
        Some(a) => a,
        None => return Err(String::from_str("Missing access_token")),
    };
    let refresh_token = match response.refresh_token {
        Some(t) => t,
        None => return Err(String::from_str("Missing refresh_token")),
    };
    let expires_in = match response.expires_in {
        Some(e) => e,
        None => return Err(String::from_str("Missing expires_in")),
    };
    Ok(SpotifyToken { access_token, refresh_token, expires_in, expires_at: now + expires_in })
}

/// What to do to obtain an access token.
pub enum TokenPlan {
    /// The cached token is still valid: use its access token.
    UseCached(String),
    /// The cached token has expired: ask Spotify for a new one with this refresh token.
    Refresh(String),
    /// There is no cached token: the request fails with this message.
    NotAuthenticated(String),
}

/// Decides, from the cached token (if any) and the time, how to obtain an access token.
pub fn plan_token(cached: Option<SpotifyToken>, now: i64) -> (r: TokenPlan)
    requires
        cached matches Some(t) ==> t.expires_at - TOKEN_EXPIRY_MARGIN >= i64::MIN,
    ensures
        match cached {
            None => r matches TokenPlan::NotAuthenticated(e)
                && e@ == "No valid token found. Please authenticate first."@,
            Some(t) => if token_valid_spec(t.expires_at as int, now as int) {
                r == TokenPlan::UseCached(t.access_token)
            } else {
                r == TokenPlan::Refresh(t.refresh_token)
            },
        },
{
    match cached {
        None => TokenPlan::NotAuthenticated(
            String::from_str("No valid token found. Please authenticate first."),
        ),
        Some(t) => {
            if is_token_valid(&t, now) {
                TokenPlan::UseCached(t.access_token)
            } else {
                TokenPlan::Refresh(t.refresh_token)
            }
        },
    }
}

/// The outcome of a refresh as the caller of `get_spotify_token` sees it: the
/// new token, or a message that asks the user to log in again.
pub fn refresh_outcome(refreshed: Result<SpotifyToken, String>) -> (r: Result<SpotifyToken, String>)
    ensures
        refreshed is Ok ==> r == refreshed,
        refreshed matches Err(e) ==> (r matches Err(m) && m@ == "Token expired and refresh failed: "@
            + e@ + ". Please authenticate again."@),
{
    match refreshed {
        Ok(t) => Ok(t),
        Err(e) => {
            let mut m = String::from_str("Token expired and refresh failed: ");
            m.append(e.as_str());
            m.append(". Please authenticate again.");
            Err(m)
        },
    }
}

/// The answer to a logout, which removes the cached token: `had_session`
/// tells whether there was a cached token to remove.
pub fn logout_message(had_session: bool) -> (r: String)
    ensures
        had_session ==> r@ == "Successfully logged out from Spotify"@,
        !had_session ==> r@ == "No Spotify session found"@,
{
    if had_session {
        String::from_str("Successfully logged out from Spotify")
    } else {
        String::from_str("No Spotify session found")
    }
}

} // verus!
