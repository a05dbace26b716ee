//! The JSON bodies the REST routes answer with.
use vstd::prelude::*;
use vstd::string::StringExecFns;
use crate::json::{members_of, pairs_to_pretty_json_object, pretty_json_string_object};

verus! {

/// `{"version": "<version>"}`
pub open spec fn version_body(version: Seq<char>) -> Seq<char> {
    "{\"version\": \""@ + version + "\"}"@
}

/// `{"error": "<message>"}`
pub open spec fn error_body(message: Seq<char>) -> Seq<char> {
    "{\"error\": \""@ + message + "\"}"@
}

/// `{ "error": "<message>"}`, the form the login confirmation uses when Spotify
/// refuses the redirect.
pub open spec fn redirect_error_body(message: Seq<char>) -> Seq<char> {
    "{ \"error\": \""@ + message + "\"}"@
}

/// `{"state": "redirect success"}`
pub open spec fn redirect_success_body() -> Seq<char> {
    "{\"state\": \"redirect success\"}"@
}

/// `{"url": "<url>"}`
pub open spec fn url_body(url: Seq<char>) -> Seq<char> {
    "{\"url\": \""@ + url + "\"}"@
}

/// Builds `open + inner + close`.
fn wrap(open: &str, inner: &str, close: &str) -> (r: String)
    ensures
        r@ == open@ + inner@ + close@,
{
    let mut r = String::from_str(open);
    r.append(inner);
    r.append(close);
    r
}

/// The body of the version route: the configured version, quoted in a JSON object.
pub fn version(configured: &str) -> (r: String)
    ensures
        r@ == version_body(configured@),
        r@ == "{\"version\": \""@ + configured@ + "\"}"@,
{
    wrap("{\"version\": \"", configured, "\"}")
}

/// The error body every Spotify route answers with when its request failed.
pub fn error_json(message: &str) -> (r: String)
    ensures
        r@ == error_body(message@),
        r@ == "{\"error\": \""@ + message@ + "\"}"@,
{
    wrap("{\"error\": \"", message, "\"}")
}

/// The answer of a route that looks something up: the serialized result when the
/// lookup succeeded, else the error body carrying the failure's message.
pub fn result_response(outcome: Result<String, String>) -> (r: String)
    ensures
        outcome matches Ok(json) ==> r@ == json@,
        outcome matches Err(message) ==> r@ == error_body(message@),
        r@ == outcome_text(outcome),
{
    match outcome {
        Ok(json) => json,
        Err(message) => error_json(message.as_str()),
    }
}

/// What a lookup's outcome stands for in an answer: the serialized result, or the
/// error body carrying the failure's message.
pub open spec fn outcome_text(outcome: Result<String, String>) -> Seq<char> {
    match outcome {
        Ok(json) => json@,
        Err(message) => error_body(message@),
    }
}

/// The members of the search answer: each kind of result under its name.
pub open spec fn search_members(
    tracks: Result<String, String>,
    albums: Result<String, String>,
    playlists: Result<String, String>,
) -> Map<Seq<char>, Seq<char>> {
    Map::empty().insert("tracks"@, outcome_text(tracks)).insert("albums"@, outcome_text(albums)).insert(
        "playlists"@,
        outcome_text(playlists),
    )
}

/// The answer of the search route: a pretty-printed JSON object whose `tracks`,
/// `albums` and `playlists` members hold, as strings, what each search gave
/// (its serialized result or its error body).
pub fn search_body(
    tracks: Result<String, String>,
    albums: Result<String, String>,
    playlists: Result<String, String>,
) -> (r: String)
    ensures
        r@ == pretty_json_string_object(search_members(tracks, albums, playlists)),
        r@ == pretty_json_string_object(
            Map::empty().insert(
                "tracks"@,
                match tracks {
                    Ok(json) => json@,
                    Err(m) => "{\"error\": \""@ + m@ + "\"}"@,
                },
            ).insert(
                "albums"@,
                match albums {
                    Ok(json) => json@,
                    Err(m) => "{\"error\": \""@ + m@ + "\"}"@,
                },
            ).insert(
                "playlists"@,
                match playlists {
                    Ok(json) => json@,
                    Err(m) => "{\"error\": \""@ + m@ + "\"}"@,
                },
            ),
        ),
{
    let ghost members = search_members(tracks, albums, playlists);
    let t = result_response(tracks);
    let a = result_response(albums);
    let p = result_response(playlists);
    let ghost (tv, av, pv) = (t@, a@, p@);
    let mut pairs: Vec<(&str, String)> = Vec::new();
    pairs.push(("tracks", t));
    pairs.push(("albums", a));
    pairs.push(("playlists", p));
    proof {
        reveal_strlit("tracks");
        reveal_strlit("albums");
        reveal_strlit("playlists");
        assert("tracks"@ != "albums"@ && "tracks"@ != "playlists"@ && "albums"@ != "playlists"@) by {
            assert("tracks"@[0] != "albums"@[0]);
            assert("tracks"@.len() != "playlists"@.len());
            assert("albums"@[0] != "playlists"@[0]);
        }
        assert(forall|i: int, j: int|
            0 <= i < j < pairs@.len() ==> (#[trigger] pairs@[i]).0@ != (#[trigger] pairs@[j]).0@);
        let viewed = pairs@.map_values(|q: (&str, String)| (q.0@, q.1@));
        let two = viewed.drop_last();
        let one = two.drop_last();
        assert(viewed.last() == ("playlists"@, pv));
        assert(two.last() == ("albums"@, av));
        assert(one.last() == ("tracks"@, tv));
        assert(one.drop_last() =~= Seq::<(Seq<char>, Seq<char>)>::empty());
        assert(members_of(one.drop_last()) == Map::<Seq<char>, Seq<char>>::empty());
        assert(members_of(one) == Map::<Seq<char>, Seq<char>>::empty().insert("tracks"@, tv));
        assert(members_of(two) == members_of(one).insert("albums"@, av));
        assert(members_of(viewed) == members_of(two).insert("playlists"@, pv));
        assert(members_of(viewed) =~= members);
    }
    pairs_to_pretty_json_object(&pairs).unwrap()
}

/// The answer of the login confirmation once Spotify has been handed the redirect:
/// a success state, or the refusal's message.
pub fn redirect_response(outcome: Result<(), String>) -> (r: String)
    ensures
        outcome is Ok ==> r@ == redirect_success_body(),
        outcome matches Err(message) ==> r@ == redirect_error_body(message@),
{
    match outcome {
        Ok(()) => String::from_str("{\"state\": \"redirect success\"}"),
        Err(message) => wrap("{ \"error\": \"", message.as_str(), "\"}"),
    }
}

/// The body that hands the browser the Spotify authorization address.
pub fn url_json(url: &str) -> (r: String)
    ensures
        r@ == url_body(url@),
        r@ == "{\"url\": \""@ + url@ + "\"}"@,
{
    wrap("{\"url\": \"", url, "\"}")
}

/// Law: the version body is the text `{"version": "` (thirteen characters), then the
/// configured version whole and unchanged, then `"}`.
pub proof fn lemma_version_body_carries_the_version(v: Seq<char>)
    ensures
        version_body(v).len() == v.len() + 15,
        version_body(v).subrange(0, 13) == "{\"version\": \""@,
        version_body(v).subrange(13, 13 + v.len() as int) == v,
        version_body(v).subrange(13 + v.len() as int, 15 + v.len() as int) == "\"}"@,
        forall|i: int| 0 <= i < v.len() ==> #[trigger] version_body(v)[13 + i] == v[i],
{
    reveal_strlit("{\"version\": \"");
    reveal_strlit("\"}");
    let b = version_body(v);
    assert(b.subrange(0, 13) =~= "{\"version\": \""@);
    assert(b.subrange(13, 13 + v.len() as int) =~= v);
    assert(b.subrange(13 + v.len() as int, 15 + v.len() as int) =~= "\"}"@);
}

/// Law: the login body is the text `{"url": "` (nine characters), then every
/// character of the address as it is (`&` included), then `"}`.
pub proof fn lemma_url_body_carries_the_address(url: Seq<char>)
    ensures
        url_body(url).len() == url.len() + 11,
        url_body(url).subrange(0, 9) == "{\"url\": \""@,
        url_body(url).subrange(9, 9 + url.len() as int) == url,
        url_body(url).subrange(9 + url.len() as int, 11 + url.len() as int) == "\"}"@,
        forall|i: int| 0 <= i < url.len() ==> #[trigger] url_body(url)[9 + i] == url[i],
{
    reveal_strlit("{\"url\": \"");
    reveal_strlit("\"}");
    let b = url_body(url);
    assert(b.subrange(0, 9) =~= "{\"url\": \""@);
    assert(b.subrange(9, 9 + url.len() as int) =~= url);
    assert(b.subrange(9 + url.len() as int, 11 + url.len() as int) =~= "\"}"@);
}

/// Law: the search answer has exactly the members `tracks`, `albums` and
/// `playlists`, and each holds what its own search gave: the JSON when it succeeded,
/// else `{"error": "<message>"}`.
pub proof fn lemma_search_members_come_from_their_own_search(
    tracks: Result<String, String>,
    albums: Result<String, String>,
    playlists: Result<String, String>,
)
    ensures
        search_members(tracks, albums, playlists).dom() =~= set!["tracks"@, "albums"@, "playlists"@],
        search_members(tracks, albums, playlists)["tracks"@] == match tracks {
            Ok(json) => json@,
            Err(m) => "{\"error\": \""@ + m@ + "\"}"@,
        },
        search_members(tracks, albums, playlists)["albums"@] == match albums {
            Ok(json) => json@,
            Err(m) => "{\"error\": \""@ + m@ + "\"}"@,
        },
        search_members(tracks, albums, playlists)["playlists"@] == match playlists {
            Ok(json) => json@,
            Err(m) => "{\"error\": \""@ + m@ + "\"}"@,
        },
{
    reveal_strlit("tracks");
    reveal_strlit("albums");
    reveal_strlit("playlists");
    assert("tracks"@[0] != "albums"@[0]);
    assert("tracks"@.len() != "playlists"@.len());
    assert("albums"@[0] != "playlists"@[0]);
}

/// The header every REST answer carries, which lets any origin read it.
pub open spec fn allow_origin_header() -> (Seq<char>, Seq<char>) {
    ("Access-Control-Allow-Origin"@, "*"@)
}

/// The headers the static file server adds to every answer: any origin, the usual
/// methods, and a `Content-Type` request header.
pub open spec fn static_cors_headers() -> Seq<(Seq<char>, Seq<char>)> {
    seq![
        allow_origin_header(),
        ("Access-Control-Allow-Methods"@, "OPTIONS, DELETE, POST, GET, PATCH, PUT"@),
        ("Access-Control-Allow-Headers"@, "Content-Type"@),
    ]
}

/// The name and value of the header that every REST answer carries.
pub fn api_cors_header() -> (r: (&'static str, &'static str))
    ensures
        (r.0@, r.1@) == allow_origin_header(),
{
    ("Access-Control-Allow-Origin", "*")
}

/// The headers, in order, that the static file server adds to every answer.
pub fn static_headers() -> (r: Vec<(&'static str, &'static str)>)
    ensures
        r@.map_values(|h: (&str, &str)| (h.0@, h.1@)) == static_cors_headers(),
{
    let mut r: Vec<(&'static str, &'static str)> = Vec::new();
    r.push(api_cors_header());
    r.push(("Access-Control-Allow-Methods", "OPTIONS, DELETE, POST, GET, PATCH, PUT"));
    r.push(("Access-Control-Allow-Headers", "Content-Type"));
    proof {
        assert(r@.map_values(|h: (&str, &str)| (h.0@, h.1@)) =~= static_cors_headers());
    }
    r
}

} // verus!
