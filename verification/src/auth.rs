//! The Spotify login address handed to the browser.
use vstd::prelude::*;
use aspotify::Scope as S;
use vstd::string::StringSliceAdditionalSpecFns;
use crate::hex::{
    decode_hex_checked, decode_hex_ok, hex_decoding_defined, hex_scan, int_parse_error_text, HexScan,
};
use crate::responses::{error_body, error_json, url_body, url_json};

verus! {

/// A permission that a Spotify login asks the user to grant. The variants are those
/// of `aspotify::Scope`, in the same order.
#[derive(Clone, Copy, PartialEq, Eq, Debug)]
pub enum Scope {
    UgcImageUpload,
    UserReadPlaybackState,
    UserModifyPlaybackState,
    UserReadCurrentlyPlaying,
    Streaming,
    AppRemoteControl,
    UserReadEmail,
    UserReadPrivate,
    PlaylistReadCollaborative,
    PlaylistModifyPublic,
    PlaylistReadPrivate,
    PlaylistModifyPrivate,
    UserLibraryModify,
    UserLibraryRead,
    UserTopRead,
    UserReadRecentlyPlayed,
    UserReadPlaybackPosition,
    UserFollowRead,
    UserFollowModify,
}

/// The name Spotify knows a scope by (what `aspotify::Scope::as_str` returns).
pub open spec fn scope_name(scope: Scope) -> Seq<char> {
    match scope {
        Scope::UgcImageUpload => "ugc-image-upload"@,
        Scope::UserReadPlaybackState => "user-read-playback-state"@,
        Scope::UserModifyPlaybackState => "user-modify-playback-state"@,
        Scope::UserReadCurrentlyPlaying => "user-read-currently-playing"@,
        Scope::Streaming => "streaming"@,
        Scope::AppRemoteControl => "app-remote-control"@,
        Scope::UserReadEmail => "user-read-email"@,
        Scope::UserReadPrivate => "user-read-private"@,
        Scope::PlaylistReadCollaborative => "playlist-read-collaborative"@,
        Scope::PlaylistModifyPublic => "playlist-modify-public"@,
        Scope::PlaylistReadPrivate => "playlist-read-private"@,
        Scope::PlaylistModifyPrivate => "playlist-modify-private"@,
        Scope::UserLibraryModify => "user-library-modify"@,
        Scope::UserLibraryRead => "user-library-read"@,
        Scope::UserTopRead => "user-top-read"@,
        Scope::UserReadRecentlyPlayed => "user-read-recently-played"@,
        Scope::UserReadPlaybackPosition => "user-read-playback-position"@,
        Scope::UserFollowRead => "user-follow-read"@,
        Scope::UserFollowModify => "user-follow-modify"@,
    }
}

/// The names of the scopes, separated by single spaces.
pub open spec fn joined_scope_names(scopes: Seq<Scope>) -> Seq<char>
    decreases scopes.len(),
{
    if scopes.len() == 0 {
        Seq::empty()
    } else if scopes.len() == 1 {
        scope_name(scopes[0])
    } else {
        joined_scope_names(scopes.drop_last()) + " "@ + scope_name(scopes.last())
    }
}

/// A character that aspotify may put in a generated login state.
pub open spec fn is_state_char(c: char) -> bool {
    ||| ('A' <= c <= 'Z')
    ||| ('a' <= c <= 'z')
    ||| ('0' <= c <= '9')
    ||| c == '-'
    ||| c == '_'
    ||| c == '.'
    ||| c == '~'
}

/// A login state as aspotify generates them: sixteen characters from its alphabet.
pub open spec fn is_login_state(state: Seq<char>) -> bool {
    &&& state.len() == 16
    &&& forall|i: int| 0 <= i < state.len() ==> is_state_char(#[trigger] state[i])
}

/// The Spotify authorization address that `aspotify::authorization_url` builds from
/// the client id, the space-separated scope names, whether to show the approval
/// dialog again, the redirect address and the login state.
pub uninterp spec fn spotify_authorize_url(
    client_id: Seq<char>,
    scope: Seq<char>,
    show_dialog: bool,
    redirect_uri: Seq<char>,
    state: Seq<char>,
) -> Seq<char>;

/// Calls `aspotify::authorization_url`. Its source draws a fresh random state of
/// sixteen characters from `A-Z a-z 0-9 - _ . ~` and returns it beside the address
/// built from the arguments and that state (with the scopes' names joined by spaces).
/// Which state is drawn is left open.
#[verifier::external_body]
fn authorization_url(
    client_id: &str,
    scopes: &Vec<Scope>,
    force_approve: bool,
    redirect_uri: &str,
) -> (r: (String, String))
    ensures
        is_login_state(r.1@),
        r.0@ == spotify_authorize_url(
            client_id@,
            joined_scope_names(scopes@),
            force_approve,
            redirect_uri@,
            r.1@,
        ),
{
    let all = [S::UgcImageUpload, S::UserReadPlaybackState, S::UserModifyPlaybackState,
        S::UserReadCurrentlyPlaying, S::Streaming, S::AppRemoteControl, S::UserReadEmail,
        S::UserReadPrivate, S::PlaylistReadCollaborative, S::PlaylistModifyPublic,
        S::PlaylistReadPrivate, S::PlaylistModifyPrivate, S::UserLibraryModify,
        S::UserLibraryRead, S::UserTopRead, S::UserReadRecentlyPlayed,
        S::UserReadPlaybackPosition, S::UserFollowRead, S::UserFollowModify];
    let outside = scopes.iter().map(|s| all[*s as usize]);
    aspotify::authorization_url(client_id, outside, force_approve, redirect_uri)
}

/// The scopes the server asks for when the user logs in.
pub open spec fn login_scopes() -> Seq<Scope> {
    seq![
        Scope::UgcImageUpload,
        Scope::UserReadPlaybackState,
        Scope::UserModifyPlaybackState,
        Scope::UserReadCurrentlyPlaying,
        Scope::Streaming,
        Scope::AppRemoteControl,
        Scope::UserReadEmail,
        Scope::UserReadPrivate,
        Scope::PlaylistReadCollaborative,
        Scope::PlaylistModifyPublic,
        Scope::PlaylistReadPrivate,
        Scope::PlaylistModifyPrivate,
        Scope::UserLibraryModify,
        Scope::UserLibraryRead,
        Scope::UserTopRead,
        Scope::UserReadRecentlyPlayed,
        Scope::UserFollowRead,
        Scope::UserFollowModify,
    ]
}

/// Where Spotify sends the browser back to: the forwarding page of the static server.
pub open spec fn login_redirect_uri() -> Seq<char> {
    "http://127.0.0.1:3001/static/forward.html"@
}

/// The scopes of a login, in the order they are requested.
pub fn requested_scopes() -> (r: Vec<Scope>)
    ensures
        r@ == login_scopes(),
{
    let mut r: Vec<Scope> = Vec::new();
    r.push(Scope::UgcImageUpload);
    r.push(Scope::UserReadPlaybackState);
    r.push(Scope::UserModifyPlaybackState);
    r.push(Scope::UserReadCurrentlyPlaying);
    r.push(Scope::Streaming);
    r.push(Scope::AppRemoteControl);
    r.push(Scope::UserReadEmail);
    r.push(Scope::UserReadPrivate);
    r.push(Scope::PlaylistReadCollaborative);
    r.push(Scope::PlaylistModifyPublic);
    r.push(Scope::PlaylistReadPrivate);
    r.push(Scope::PlaylistModifyPrivate);
    r.push(Scope::UserLibraryModify);
    r.push(Scope::UserLibraryRead);
    r.push(Scope::UserTopRead);
    r.push(Scope::UserReadRecentlyPlayed);
    r.push(Scope::UserFollowRead);
    r.push(Scope::UserFollowModify);
    proof {
        assert(r@ =~= login_scopes());
    }
    r
}

/// Starts a login: asks aspotify for the authorization address of the client, with
/// the login scopes, no forced re-approval and the forwarding page as redirect.
/// Gives the JSON body that carries the address, and the login state that the
/// confirmation must later present.
pub fn login_url(client_id: &str) -> (r: (String, String))
    ensures
        is_login_state(r.1@),
        r.0@ == url_body(
            spotify_authorize_url(
                client_id@,
                joined_scope_names(login_scopes()),
                false,
                login_redirect_uri(),
                r.1@,
            ),
        ),
{
    let scopes = requested_scopes();
    let (url, state) = authorization_url(
        client_id,
        &scopes,
        false,
        "http://127.0.0.1:3001/static/forward.html",
    );
    (url_json(url.as_str()), state)
}

/// The first step of the login confirmation: the address the browser was sent back
/// to, which `code` spells in hex, or, when a pair of `code` is not a hex byte, the
/// error body carrying the text that the first bad pair's parse error displays.
/// `None` on the codes where the decoding is not defined.
pub fn confirm_target(code: &str) -> (r: Option<Result<String, String>>)
    ensures
        r is None <==> !hex_decoding_defined(code.spec_bytes()),
        r matches Some(Ok(url)) ==> decode_hex_ok(code.spec_bytes()) == Some(url@),
        r matches Some(Err(body)) ==> hex_scan(code.spec_bytes()) matches HexScan::BadPair(pair)
            && body@ == error_body(int_parse_error_text(pair)),
{
    match decode_hex_checked(code) {
        None => None,
        Some(Ok(url)) => Some(Ok(url)),
        Some(Err(e)) => Some(Err(error_json(e.message.as_str()))),
    }
}

} // verus!
