use zoro_api::detail::AnimeData;
use zoro_api::json::detail_to_json;
use zoro_api::json::search_to_json;
use zoro_api::routes::detail_route;
use zoro_api::routes::detail_url;
use zoro_api::routes::get_status;
use zoro_api::routes::info;
use zoro_api::routes::search_route;
use zoro_api::routes::search_url;
use zoro_api::routes::url_encode;
use zoro_api::routes::FetchOutcome;
use zoro_api::search::SearchData;
use zoro_api::search::SearchResult;

#[test]
fn info_body_is_fixed() {
    assert_eq!(info(), "This is definitely a string with important info");
}

#[test]
fn status_body_is_fixed() {
    assert_eq!(get_status(), "{\"status\":\"UP\"}");
}

#[test]
fn http_failure_keeps_status_and_falls_back() {
    let r = search_route(FetchOutcome::HttpFailure(404));
    assert_eq!(r.status, 404);
    assert_eq!(r.body, "Something went wrong!");
}

#[test]
fn detail_http_failure_falls_back() {
    let r = detail_route(FetchOutcome::HttpFailure(503));
    assert_eq!(r.status, 503);
    assert_eq!(r.body, "Something went wrong!");
}

#[test]
fn transport_failure_is_bad_gateway() {
    let r = search_route(FetchOutcome::Transport);
    assert_eq!(r.status, 502);
    assert_eq!(r.body, "{\"error\":\"upstream fetch failed\"}");
}

#[test]
fn search_route_end_to_end() {
    let html = "<div class=\"film_list-wrap\"><div class=\"flw-item\"><div></div><div><h3><a href=\"/jujutsu-kaisen-tv-534?ref=search\">JJK</a></h3></div></div></div>";
    let r = search_route(FetchOutcome::Success(html.to_string()));
    assert_eq!(r.status, 200);
    assert_eq!(r.body, "{\"results\":[{\"id\":\"jujutsu-kaisen-tv-534\"}]}");
}

#[test]
fn search_route_bad_markup_is_bad_gateway() {
    let html = "<div class=\"film_list-wrap\"><div class=\"flw-item\"><div></div><div><h3><a>x</a></h3></div></div></div>";
    let r = search_route(FetchOutcome::Success(html.to_string()));
    assert_eq!(r.status, 502);
    assert_eq!(r.body, "{\"error\":\"upstream format changed\"}");
}

#[test]
fn detail_route_end_to_end() {
    let html = "<div class=\"film-description\"><div> S </div></div>\
        <h2 class=\"film-name dynamic-name\"> N </h2>\
        <img class=\"film-poster-img\" src=\"p\">";
    let r = detail_route(FetchOutcome::Success(html.to_string()));
    assert_eq!(r.status, 200);
    assert_eq!(r.body, "{\"name\":\"N\",\"synopsis\":\"S\",\"poster_image\":\"p\"}");
}

#[test]
fn detail_route_bad_markup_is_bad_gateway() {
    let r = detail_route(FetchOutcome::Success("<p>moved</p>".to_string()));
    assert_eq!(r.status, 502);
    assert_eq!(r.body, "{\"error\":\"upstream format changed\"}");
}

#[test]
fn search_url_encodes_the_keyword() {
    assert_eq!(search_url("Jujutsu-Kaisen"), "https://zoro.to/search?keyword=Jujutsu-Kaisen");
    assert_eq!(search_url("jujutsu kaisen"), "https://zoro.to/search?keyword=jujutsu%20kaisen");
}

#[test]
fn detail_url_has_the_search_suffix() {
    assert_eq!(
        detail_url("jujutsu-kaisen-tv-534"),
        "https://zoro.to/jujutsu-kaisen-tv-534?ref=search"
    );
}

#[test]
fn url_encode_multibyte() {
    assert_eq!(url_encode("caf\u{e9}"), "caf%C3%A9");
    assert_eq!(url_encode("a&b=c"), "a%26b%3Dc");
}

#[test]
fn search_json_round_trip() {
    let sr = SearchResult {
        results: vec![SearchData { id: "jujutsu-kaisen-tv-534".to_string() }],
    };
    let s = search_to_json(&sr);
    assert_eq!(s, "{\"results\":[{\"id\":\"jujutsu-kaisen-tv-534\"}]}");
    let v: serde_json::Value = serde_json::from_str(&s).unwrap();
    let items = v["results"].as_array().unwrap();
    let back = SearchResult {
        results: items
            .iter()
            .map(|it| SearchData { id: it["id"].as_str().unwrap().to_string() })
            .collect(),
    };
    assert_eq!(back.results.len(), sr.results.len());
    assert_eq!(back.results[0].id, sr.results[0].id);
}

#[test]
fn search_json_empty() {
    let sr = SearchResult { results: Vec::new() };
    assert_eq!(search_to_json(&sr), "{\"results\":[]}");
}

#[test]
fn json_escaping_matches_the_usual_writers() {
    let d = AnimeData {
        name: "A \"B\" \\ C".to_string(),
        synopsis: "line1\nline2\ttab\u{1}end".to_string(),
        poster_image: "http://x/y.png".to_string(),
    };
    let s = detail_to_json(&d);
    assert_eq!(
        s,
        "{\"name\":\"A \\\"B\\\" \\\\ C\",\"synopsis\":\"line1\\nline2\\ttab\\u0001end\",\"poster_image\":\"http://x/y.png\"}"
    );
    let v: serde_json::Value = serde_json::from_str(&s).unwrap();
    assert_eq!(v["name"].as_str().unwrap(), d.name);
    assert_eq!(v["synopsis"].as_str().unwrap(), d.synopsis);
    assert_eq!(v["poster_image"].as_str().unwrap(), d.poster_image);
}
