use whiplash::spotify::{
    authorization_url, code_challenge, code_verifier_from_indices, extract_auth_code,
    generate_code_verifier, index_from_draw, index_from_draws,
    is_token_valid, logout_message, plan_token, refresh_outcome, token_from_response,
    SpotifyToken, TokenPlan, TokenResponse, PKCE_ALPHABET,
};

fn token(expires_at: i64) -> SpotifyToken {
    SpotifyToken {
        access_token: "access".to_string(),
        refresh_token: "refresh".to_string(),
        expires_in: 3600,
        expires_at,
    }
}

#[test]
fn authorization_url_carries_challenge() {
    assert_eq!(
        authorization_url("CHALLENGE"),
        "https://accounts.spotify.com/authorize?client_id=a42d7e4861544e72b357a5350aebfe8d&response_type=code&redirect_uri=http://127.0.0.1:13337&scope=playlist-read-private playlist-read-collaborative user-library-read user-read-private user-read-email&code_challenge_method=S256&code_challenge=CHALLENGE"
    );
}

#[test]
fn code_stops_at_ampersand() {
    let r = extract_auth_code("GET /?code=AQB12_x-y&state=abc HTTP/1.1\r\nHost: 127.0.0.1\r\n");
    assert_eq!(r, Ok("AQB12_x-y".to_string()));
}

#[test]
fn code_stops_at_space() {
    let r = extract_auth_code("GET /?code=XYZ HTTP/1.1\r\n");
    assert_eq!(r, Ok("XYZ".to_string()));
}

#[test]
fn code_missing_is_an_error() {
    let r = extract_auth_code("GET /?error=access_denied HTTP/1.1\r\n");
    assert_eq!(r, Err("Failed to extract code from callback".to_string()));
}

#[test]
fn code_with_nothing_after_it_is_an_error() {
    assert_eq!(
        extract_auth_code("GET /?code="),
        Err("Failed to extract code from callback".to_string())
    );
    assert_eq!(
        extract_auth_code("code=   \r\n"),
        Err("Failed to extract code from callback".to_string())
    );
}

#[test]
fn code_may_be_empty_before_ampersand() {
    assert_eq!(extract_auth_code("GET /?code=&state=1 HTTP/1.1"), Ok(String::new()));
}

#[test]
fn code_ends_at_next_code_marker() {
    assert_eq!(extract_auth_code("x code=abccode=def y"), Ok("abc".to_string()));
}

#[test]
fn code_verifier_shape() {
    let v = generate_code_verifier().unwrap();
    assert_eq!(v.chars().count(), 128);
    assert!(v.chars().all(|c| PKCE_ALPHABET.contains(c)));
    let w = generate_code_verifier().unwrap();
    assert_ne!(v, w);
}

#[test]
fn code_challenge_is_base64url_sha256() {
    assert_eq!(
        code_challenge("dBjftJeZ4CVP-mJ92K9qbCEQX9BVKkzzg7jZrGy-3n0"),
        "q0cuLcnY1gUFgs55yaPFe0sdTupH4pli4DcrYObpK0w"
    );
    assert_eq!(code_challenge("abc"), "ungWv48Bz-pBQUDeXa4iI7ADYaOWF3qctBD_YfIAFa0");
    assert_eq!(code_challenge(""), "47DEQpj8HBSa-_TImW-5JCeuQeRkm5NMpJWZG3hSuFU");
    assert_eq!(code_challenge("anything").len(), 43);
}

#[test]
fn token_valid_with_more_than_a_minute_left() {
    assert!(is_token_valid(&token(1000), 939));
    assert!(!is_token_valid(&token(1000), 940));
    assert!(!is_token_valid(&token(1000), 2000));
}

#[test]
fn token_from_complete_response() {
    let t = token_from_response(
        TokenResponse {
            access_token: Some("a".to_string()),
            refresh_token: Some("r".to_string()),
            expires_in: Some(3600),
        },
        1_700_000_000,
    )
    .unwrap();
    assert_eq!(t.access_token, "a");
    assert_eq!(t.refresh_token, "r");
    assert_eq!(t.expires_in, 3600);
    assert_eq!(t.expires_at, 1_700_003_600);
}

#[test]
fn token_response_missing_fields() {
    let missing_access = token_from_response(
        TokenResponse { access_token: None, refresh_token: Some("r".to_string()), expires_in: None },
        0,
    );
    assert_eq!(missing_access.err(), Some("Missing access_token".to_string()));
    let missing_refresh = token_from_response(
        TokenResponse { access_token: Some("a".to_string()), refresh_token: None, expires_in: Some(1) },
        0,
    );
    assert_eq!(missing_refresh.err(), Some("Missing refresh_token".to_string()));
    let missing_expiry = token_from_response(
        TokenResponse {
            access_token: Some("a".to_string()),
            refresh_token: Some("r".to_string()),
            expires_in: None,
        },
        0,
    );
    assert_eq!(missing_expiry.err(), Some("Missing expires_in".to_string()));
}

#[test]
fn fresh_token_usable_only_beyond_margin() {
    let fresh = |expires_in: i64| {
        token_from_response(
            TokenResponse {
                access_token: Some("a".to_string()),
                refresh_token: Some("r".to_string()),
                expires_in: Some(expires_in),
            },
            500,
        )
        .unwrap()
    };
    assert!(is_token_valid(&fresh(61), 500));
    assert!(!is_token_valid(&fresh(60), 500));
}

#[test]
fn plan_uses_valid_cached_token() {
    match plan_token(Some(token(10_000)), 100) {
        TokenPlan::UseCached(a) => assert_eq!(a, "access"),
        _ => panic!("expected the cached token"),
    }
}

#[test]
fn plan_refreshes_expired_token() {
    match plan_token(Some(token(100)), 100) {
        TokenPlan::Refresh(r) => assert_eq!(r, "refresh"),
        _ => panic!("expected a refresh"),
    }
}

#[test]
fn plan_without_token_asks_to_authenticate() {
    match plan_token(None, 100) {
        TokenPlan::NotAuthenticated(e) => {
            assert_eq!(e, "No valid token found. Please authenticate first.")
        },
        _ => panic!("expected an error"),
    }
}

#[test]
fn failed_refresh_asks_to_authenticate_again() {
    let r = refresh_outcome(Err("Failed to refresh token: bad".to_string()));
    assert_eq!(
        r.err(),
        Some("Token expired and refresh failed: Failed to refresh token: bad. Please authenticate again.".to_string())
    );
    let ok = refresh_outcome(Ok(token(5))).unwrap();
    assert_eq!(ok.expires_at, 5);
}

#[test]
fn logout_messages() {
    assert_eq!(logout_message(true), "Successfully logged out from Spotify");
    assert_eq!(logout_message(false), "No Spotify session found");
}

#[test]
fn draws_map_to_indices() {
    assert_eq!(index_from_draw(0, 66), Some(0));
    assert_eq!(index_from_draw(65, 66), Some(65));
    assert_eq!(index_from_draw(66, 66), Some(0));
    assert_eq!(index_from_draw(1000, 66), Some(1000 % 66));
    assert_eq!(index_from_draw(18446744073709551599, 66), Some(65));
    assert_eq!(index_from_draw(18446744073709551600, 66), None);
    assert_eq!(index_from_draw(u64::MAX, 66), None);
    assert_eq!(index_from_draw(u64::MAX - 1, 1), Some(0));
    assert_eq!(index_from_draw(u64::MAX, 1), None);
}

#[test]
fn verifier_from_indices_picks_alphabet_characters() {
    assert_eq!(code_verifier_from_indices(&vec![0, 1, 25, 26, 51, 52, 61, 62, 63, 64, 65]), "ABZaz09-._~");
    assert_eq!(code_verifier_from_indices(&vec![]), "");
}

#[test]
fn draws_give_first_accepted_index() {
    assert_eq!(index_from_draws(&vec![5, 7], 66), 5);
    assert_eq!(index_from_draws(&vec![u64::MAX, 67], 66), 1);
    assert_eq!(index_from_draws(&vec![u64::MAX, 18446744073709551600, 130], 66), 64);
    assert_eq!(index_from_draws(&vec![u64::MAX], 66), 15);
    assert_eq!(index_from_draws(&vec![u64::MAX, u64::MAX], 66), 15);
}
