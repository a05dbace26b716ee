use spotify_dl_server::auth::{confirm_target, login_url, requested_scopes, Scope};

/// The state as it stands in the query: `~` is percent-encoded there.
fn in_query(state: &str) -> String {
    state.replace('~', "%7E")
}

const STATE_CHARS: &str = "ABCDEFGHIJKLMNOPQRSTUVWXYZabcdefghijklmnopqrstuvwxyz0123456789-_.~";

#[test]
fn login_url_carries_the_state_it_returns() {
    let (body, state) = login_url("my-client");
    assert_eq!(state.chars().count(), 16);
    assert!(state.chars().all(|c| STATE_CHARS.contains(c)));
    assert!(body.starts_with("{\"url\": \"https://accounts.spotify.com/authorize?"));
    assert!(body.ends_with("\"}"));
    assert!(body.contains(&format!("state={}&", in_query(&state))));
    assert!(body.contains("client_id=my-client"));
    assert!(body.contains("response_type=code"));
    assert!(body.contains("show_dialog=false"));
    assert!(body.contains(
        "redirect_uri=http%3A%2F%2F127.0.0.1%3A3001%2Fstatic%2Fforward.html"
    ));
}

#[test]
fn login_url_asks_for_the_login_scopes() {
    let (body, _) = login_url("id");
    let scope = "scope=ugc-image-upload+user-read-playback-state+user-modify-playback-state\
+user-read-currently-playing+streaming+app-remote-control+user-read-email+user-read-private\
+playlist-read-collaborative+playlist-modify-public+playlist-read-private\
+playlist-modify-private+user-library-modify+user-library-read+user-top-read\
+user-read-recently-played+user-follow-read+user-follow-modify&";
    assert!(body.contains(scope));
    assert!(!body.contains("user-read-playback-position"));
}

#[test]
fn two_logins_draw_their_own_states() {
    let (body1, state1) = login_url("id");
    let (body2, state2) = login_url("id");
    assert!(body1.contains(&in_query(&state1)));
    assert!(body2.contains(&in_query(&state2)));
}

#[test]
fn requested_scopes_are_eighteen() {
    let scopes = requested_scopes();
    assert_eq!(scopes.len(), 18);
    assert_eq!(scopes[0], Scope::UgcImageUpload);
    assert_eq!(scopes[17], Scope::UserFollowModify);
    assert!(!scopes.contains(&Scope::UserReadPlaybackPosition));
}

#[test]
fn confirm_target_decodes_the_redirect() {
    let hex: String = "http://x/?code=1".bytes().map(|b| format!("{:02x}", b)).collect();
    assert_eq!(confirm_target(&hex).unwrap().unwrap(), "http://x/?code=1");
}

#[test]
fn confirm_target_reports_bad_hex_as_error_body() {
    let expected = format!(
        "{{\"error\": \"{}\"}}",
        u8::from_str_radix("zz", 16).unwrap_err()
    );
    assert_eq!(confirm_target("zz").unwrap().unwrap_err(), expected);
    assert_eq!(
        confirm_target("zz").unwrap().unwrap_err(),
        "{\"error\": \"invalid digit found in string\"}"
    );
}

#[test]
fn confirm_target_refuses_odd_codes() {
    assert!(confirm_target("abc").is_none());
}
