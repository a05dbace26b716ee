//! The answer to a request for a path the server does not know.
use vstd::prelude::*;
use crate::json::{pretty_json_string_array, strings_to_pretty_json};

verus! {

/// The routes the REST server offers, as listed to a client that asked for another.
pub open spec fn route_list() -> Seq<Seq<char>> {
    seq![
        "/version"@,
        "/spotify/track/<id>"@,
        "/spotify/album/<id>"@,
        "/spotify/playlist/<id>"@,
        "/spotify/artist/<id>"@,
        "/spotify/user_playlists"@,
        "/spotify/search/<name>"@,
        "/downloads/list"@,
        "/downloads/queue"@,
        "/downloads/add/<id>"@,
        "/login/url"@,
        "/login/confirm/<code>"@,
    ]
}

/// The answer to an unknown path: the list of the available routes, as a
/// pretty-printed JSON array.
pub fn general_not_found() -> (r: String)
    ensures
        r@ == pretty_json_string_array(route_list()),
{
    let mut routes: Vec<&str> = Vec::new();
    routes.push("/version");
    routes.push("/spotify/track/<id>");
    routes.push("/spotify/album/<id>");
    routes.push("/spotify/playlist/<id>");
    routes.push("/spotify/artist/<id>");
    routes.push("/spotify/user_playlists");
    routes.push("/spotify/search/<name>");
    routes.push("/downloads/list");
    routes.push("/downloads/queue");
    routes.push("/downloads/add/<id>");
    routes.push("/login/url");
    routes.push("/login/confirm/<code>");
    proof {
        assert(routes@.map_values(|s: &str| s@) =~= route_list());
    }
    strings_to_pretty_json(&routes).unwrap()
}

} // verus!
