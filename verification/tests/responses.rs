use spotify_dl_server::responses::{
    api_cors_header, error_json, redirect_response, result_response, search_body, static_headers,
    url_json, version,
};

#[test]
fn version_body() {
    assert_eq!(version("0.3.1"), "{\"version\": \"0.3.1\"}");
}

#[test]
fn error_body() {
    assert_eq!(error_json("not found"), "{\"error\": \"not found\"}");
}

#[test]
fn lookup_success_passes_the_json_through() {
    let json = "{\"name\":\"Song\",\"id\":\"abc\"}".to_string();
    assert_eq!(result_response(Ok(json.clone())), json);
}

#[test]
fn lookup_failure_becomes_an_error_body() {
    assert_eq!(
        result_response(Err("invalid id".to_string())),
        "{\"error\": \"invalid id\"}"
    );
}

#[test]
fn redirect_success_body() {
    assert_eq!(redirect_response(Ok(())), "{\"state\": \"redirect success\"}");
}

#[test]
fn redirect_failure_body() {
    assert_eq!(
        redirect_response(Err("incorrect state".to_string())),
        "{ \"error\": \"incorrect state\"}"
    );
}

#[test]
fn url_body() {
    assert_eq!(url_json("https://example.com/a?b=c"), "{\"url\": \"https://example.com/a?b=c\"}");
}

#[test]
fn rest_answers_allow_any_origin() {
    assert_eq!(api_cors_header(), ("Access-Control-Allow-Origin", "*"));
}

#[test]
fn static_answers_carry_three_cors_headers() {
    assert_eq!(
        static_headers(),
        vec![
            ("Access-Control-Allow-Origin", "*"),
            ("Access-Control-Allow-Methods", "OPTIONS, DELETE, POST, GET, PATCH, PUT"),
            ("Access-Control-Allow-Headers", "Content-Type"),
        ]
    );
}

#[test]
fn search_body_holds_each_outcome_under_its_name() {
    let body = search_body(
        Ok("[{\"name\":\"T\"}]".to_string()),
        Err("rate limited".to_string()),
        Ok("[]".to_string()),
    );
    let expected = "{\n  \"albums\": \"{\\\"error\\\": \\\"rate limited\\\"}\",\n  \
\"playlists\": \"[]\",\n  \"tracks\": \"[{\\\"name\\\":\\\"T\\\"}]\"\n}";
    assert_eq!(body, expected);
    let parsed: serde_json::Value = serde_json::from_str(&body).unwrap();
    assert_eq!(parsed["albums"], "{\"error\": \"rate limited\"}");
    assert_eq!(parsed["tracks"], "[{\"name\":\"T\"}]");
    assert_eq!(parsed["playlists"], "[]");
}
