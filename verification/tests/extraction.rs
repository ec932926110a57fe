use zoro_api::detail::detail_extract;
use zoro_api::err::ExtractError;
use zoro_api::search::search_extract;

#[test]
fn search_single_card() {
    let html = "<div class=\"film_list-wrap\"><div class=\"flw-item\"><div></div><div><h3><a href=\"/jujutsu-kaisen-tv-534?ref=search\">JJK</a></h3></div></div></div>";
    let r = search_extract(html).unwrap();
    assert_eq!(r.results.len(), 1);
    assert_eq!(r.results[0].id, "jujutsu-kaisen-tv-534");
}

#[test]
fn search_two_cards_in_document_order() {
    let html = "<div class=\"film_list-wrap\">\
        <div class=\"flw-item\"><div></div><div><h3><a href=\"/first-1?ref=search\">A</a></h3></div></div>\
        <div class=\"flw-item\"><div></div><div><h3><a href=\"/second-2?ref=search\">B</a></h3></div></div>\
        </div>";
    let r = search_extract(html).unwrap();
    assert_eq!(r.results.len(), 2);
    assert_eq!(r.results[0].id, "first-1");
    assert_eq!(r.results[1].id, "second-2");
}

#[test]
fn search_strips_every_slash() {
    let html = "<div class=\"film_list-wrap\"><div class=\"flw-item\"><div></div><div><h3><a href=\"/watch/some-show-9?ref=search\">S</a></h3></div></div></div>";
    let r = search_extract(html).unwrap();
    assert_eq!(r.results.len(), 1);
    assert_eq!(r.results[0].id, "watchsome-show-9");
}

#[test]
fn search_empty_container_is_ok() {
    let html = "<div class=\"film_list-wrap\"><p>nothing here</p></div>";
    let r = search_extract(html).unwrap();
    assert_eq!(r.results.len(), 0);
}

#[test]
fn search_no_container_is_ok() {
    let html = "<html><body><p>unrelated page</p></body></html>";
    let r = search_extract(html).unwrap();
    assert_eq!(r.results.len(), 0);
}

#[test]
fn search_anchor_without_href_fails() {
    let html = "<div class=\"film_list-wrap\"><div class=\"flw-item\"><div></div><div><h3><a>no link</a></h3></div></div></div>";
    let r = search_extract(html);
    assert_eq!(r.err().unwrap(), ExtractError::MissingHref);
}

#[test]
fn detail_full_page() {
    let html = "<div class=\"film-description\"><div>  A sorcerer's story.  </div></div>\
        <h2 class=\"film-name dynamic-name\">\tJujutsu Kaisen \n</h2>\
        <img class=\"film-poster-img\" src=\" https://img.example/poster.jpg \">";
    let d = detail_extract(html).unwrap();
    assert_eq!(d.name, "Jujutsu Kaisen");
    assert_eq!(d.synopsis, "A sorcerer's story.");
    assert_eq!(d.poster_image, " https://img.example/poster.jpg ");
}

#[test]
fn detail_missing_synopsis_fails() {
    let html = "<h2 class=\"film-name dynamic-name\">T</h2>\
        <img class=\"film-poster-img\" src=\"x\">";
    assert_eq!(detail_extract(html).err().unwrap(), ExtractError::MissingSynopsis);
}

#[test]
fn detail_missing_name_fails() {
    let html = "<div class=\"film-description\"><div>S</div></div>\
        <img class=\"film-poster-img\" src=\"x\">";
    assert_eq!(detail_extract(html).err().unwrap(), ExtractError::MissingName);
}

#[test]
fn detail_missing_poster_fails() {
    let html = "<div class=\"film-description\"><div>S</div></div>\
        <h2 class=\"film-name dynamic-name\">T</h2>";
    assert_eq!(detail_extract(html).err().unwrap(), ExtractError::MissingPoster);
}

#[test]
fn detail_poster_without_src_fails() {
    let html = "<div class=\"film-description\"><div>S</div></div>\
        <h2 class=\"film-name dynamic-name\">T</h2>\
        <img class=\"film-poster-img\">";
    assert_eq!(detail_extract(html).err().unwrap(), ExtractError::MissingPosterSrc);
}

#[test]
fn error_messages_are_distinct() {
    let all = vec![
        ExtractError::MissingHref,
        ExtractError::MissingSynopsis,
        ExtractError::MissingName,
        ExtractError::MissingPoster,
        ExtractError::MissingPosterSrc,
    ];
    for i in 0..all.len() {
        for j in 0..all.len() {
            if i != j {
                assert_ne!(all[i].message(), all[j].message());
            }
        }
    }
}
