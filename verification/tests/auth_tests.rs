use cantus::auth::{
    authorization_code, authorize_url, code_from_pairs, expires_at_after, get_authorize_url, has_scopes, pkce_challenge, random_token,
    usable_cached_token, AuthError, OAuthCredentials,
};
use cantus::playback::TrackId;
use cantus::sync::{add_page_tracks, liked_request, library_path, page_offsets, plan_playlist_sync, SyncDecision};

const SCOPES: &str = "user-read-playback-state user-modify-playback-state user-read-currently-playing \
playlist-read-private playlist-read-collaborative playlist-modify-private playlist-modify-public \
user-library-read user-library-modify";

fn token(scope: &str, refresh: Option<&str>) -> OAuthCredentials {
    OAuthCredentials {
        access_token: "tok".to_string(),
        expires_at: 100,
        refresh_token: refresh.map(str::to_string),
        scope: scope.to_string(),
    }
}

#[test]
fn pkce_challenge_matches_rfc_7636() {
    assert_eq!(
        pkce_challenge("dBjftJeZ4CVP-mB92K27uhbUJU1p1r_wW1gFWFOEjXk"),
        "E9Melhoa2OwvFrEMTJguCHaoeK1t8URWbuGJSstw-cM"
    );
}

#[test]
fn random_tokens_are_url_safe_base64() {
    let token = random_token(32).unwrap();
    assert_eq!(token.len(), 43);
    assert!(token.chars().all(|c| c.is_ascii_alphanumeric() || c == '-' || c == '_'));
    assert_eq!(random_token(16).unwrap().len(), 22);
    assert_eq!(random_token(0).unwrap(), "");
}

#[test]
fn authorize_url_carries_the_challenge() {
    let url = authorize_url("abc", "user-read-playback-state playlist-read-private", "xyz", "dBjftJeZ4CVP-mB92K27uhbUJU1p1r_wW1gFWFOEjXk");
    assert_eq!(
        url,
        "https://accounts.spotify.com/authorize?client_id=abc&response_type=code\
&redirect_uri=http%3A%2F%2F127.0.0.1%3A7474%2Fcallback&code_challenge_method=S256\
&code_challenge=E9Melhoa2OwvFrEMTJguCHaoeK1t8URWbuGJSstw-cM&state=xyz\
&scope=user-read-playback-state+playlist-read-private"
    );
    let (verifier, fresh) = get_authorize_url("abc", SCOPES, "s").unwrap();
    assert_eq!(verifier.len(), 43);
    assert_eq!(fresh, authorize_url("abc", SCOPES, "s", &verifier));
}

#[test]
fn callback_code_needs_the_matching_state() {
    assert_eq!(
        authorization_code("GET /callback?code=AQB%2Bx+y&state=s1 HTTP/1.1\r\n", "s1"),
        Ok("AQB+x y".to_string())
    );
    assert_eq!(authorization_code("GET /callback?code=c&state=s2 HTTP/1.1", "s1"), Err(AuthError::StateMismatch));
    assert_eq!(authorization_code("GET /callback?state=s1&code=c HTTP/1.1", "s1"), Err(AuthError::InvalidResponse));
    assert_eq!(authorization_code("GET /callback HTTP/1.1", "s1"), Err(AuthError::InvalidResponse));
    assert_eq!(authorization_code("GET", "s1"), Err(AuthError::InvalidResponse));
    assert_eq!(authorization_code("GET /?error=access_denied&state=s1 HTTP/1.1", "s1"), Err(AuthError::InvalidResponse));
}

fn pairs(items: &[(&str, &str)]) -> Vec<(String, String)> {
    items.iter().map(|(name, value)| (name.to_string(), value.to_string())).collect()
}

#[test]
fn codes_come_from_the_first_code_pair() {
    assert_eq!(code_from_pairs(&pairs(&[("code", "c1"), ("state", "s")]), "s"), Ok("c1".to_string()));
    assert_eq!(
        code_from_pairs(&pairs(&[("x", "1"), ("code", "c1"), ("code", "c2"), ("state", "s"), ("state", "t")]), "s"),
        Ok("c1".to_string())
    );
    assert_eq!(code_from_pairs(&pairs(&[("code", "c1"), ("state", "t"), ("state", "s")]), "s"), Err(AuthError::StateMismatch));
    assert_eq!(code_from_pairs(&pairs(&[("state", "s"), ("code", "c1")]), "s"), Err(AuthError::InvalidResponse));
    assert_eq!(code_from_pairs(&pairs(&[]), "s"), Err(AuthError::InvalidResponse));
}

#[test]
fn scopes_must_all_be_granted() {
    assert!(has_scopes(SCOPES, SCOPES));
    assert!(has_scopes("b  a\tc", "a b"));
    assert!(!has_scopes("a c", "a b"));
    assert!(has_scopes("", "   "));
    assert!(usable_cached_token(Some(token(SCOPES, None)), SCOPES).is_some());
    assert!(usable_cached_token(Some(token("user-read-playback-state", None)), SCOPES).is_none());
    assert!(usable_cached_token(None, SCOPES).is_none());
}

#[test]
fn tokens_expire_ten_seconds_early() {
    let t = token("", None);
    assert!(!t.expired_at(89));
    assert!(t.expired_at(90));
    assert!(t.expired_at(i64::MAX));
    assert_eq!(expires_at_after(1_000, 3_600), 4_600);
    assert_eq!(expires_at_after(i64::MAX - 1, 3_600), i64::MAX);
    assert_eq!(expires_at_after(i64::MIN + 1, -5), i64::MIN);
    let old = token("a b", Some("refresh"));
    assert!(old.is_expired());
}

#[test]
fn refreshed_tokens_keep_what_the_server_omits() {
    let previous = token("a b", Some("r1"));
    let fresh = token("", None).refreshed(&previous);
    assert_eq!(fresh.refresh_token, Some("r1".to_string()));
    assert_eq!(fresh.scope, "a b");
    let renewed = token("c", Some("r2")).refreshed(&previous);
    assert_eq!(renewed.refresh_token, Some("r2".to_string()));
    assert_eq!(renewed.scope, "c");
    assert_eq!(previous.authorization(), "Bearer tok");
}

#[test]
fn playlist_pages_cover_every_track() {
    assert!(page_offsets(0).is_empty());
    assert_eq!(page_offsets(50), vec![0]);
    assert_eq!(page_offsets(51), vec![0, 50]);
    assert_eq!(page_offsets(120), vec![0, 50, 100]);
}

#[test]
fn page_tracks_join_once() {
    let mut tracks = vec![TrackId(1)];
    add_page_tracks(&mut tracks, &vec![Some(TrackId(2)), None, Some(TrackId(1)), Some(TrackId(2)), Some(TrackId(3))]);
    assert_eq!(tracks, vec![TrackId(1), TrackId(2), TrackId(3)]);
}

#[test]
fn playlist_sync_decisions() {
    let targets = vec!["Chill".to_string()];
    let snap = "s2".to_string();
    let old = "s1".to_string();
    assert_eq!(plan_playlist_sync(&targets, true, &"Other".to_string(), &snap, None, None), (None, SyncDecision::Skip));
    assert_eq!(plan_playlist_sync(&targets, true, &"Chill".to_string(), &snap, None, None), (None, SyncDecision::Fetch));
    assert_eq!(plan_playlist_sync(&targets, true, &"Chill".to_string(), &snap, Some(&snap), None), (None, SyncDecision::Skip));
    assert_eq!(
        plan_playlist_sync(&targets, true, &"4.0".to_string(), &snap, Some(&old), Some(&snap)),
        (Some(7), SyncDecision::Reuse)
    );
    assert_eq!(
        plan_playlist_sync(&targets, false, &"4.0".to_string(), &snap, None, Some(&snap)),
        (None, SyncDecision::Skip)
    );
    assert_eq!(
        plan_playlist_sync(&targets, true, &"4.0".to_string(), &snap, None, Some(&old)),
        (Some(7), SyncDecision::Fetch)
    );
}

#[test]
fn liked_state_requests() {
    assert_eq!(liked_request(Some(false), true), Some(true));
    assert_eq!(liked_request(Some(true), false), Some(false));
    assert_eq!(liked_request(Some(true), true), None);
    assert_eq!(liked_request(None, true), None);
    assert_eq!(library_path("spotify:track:abc"), "me/library?&uris=spotify%3Atrack%3Aabc");
}
