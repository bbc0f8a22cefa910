use wnacg_downloader::comic_id::{
    comic_id_from_page, extract_comic_id, extract_comic_id_from_html, ComicIdError,
};
use wnacg_downloader::site::comic_url;

#[test]
fn plain_number_is_the_id() {
    assert_eq!(extract_comic_id("328415"), Ok(328415));
    assert_eq!(extract_comic_id("+7"), Ok(7));
    assert_eq!(extract_comic_id("-5"), Ok(-5));
    assert_eq!(extract_comic_id("9223372036854775807"), Ok(i64::MAX));
}

#[test]
fn detail_page_urls_give_the_id() {
    assert_eq!(
        extract_comic_id("https://www.wnacg.com/photos-index-aid-328415.html"),
        Ok(328415)
    );
    assert_eq!(
        extract_comic_id("https://www.wnacg.com/photos-index-page-1-aid-328415.html"),
        Ok(328415)
    );
    assert_eq!(extract_comic_id("aid-12abc"), Ok(12));
}

#[test]
fn comic_id_errors() {
    assert_eq!(
        extract_comic_id("https://www.wnacg.com/photos-view-id-27566986.html"),
        Err(ComicIdError::MarkerNotFound)
    );
    assert_eq!(extract_comic_id("photos-aid-x"), Err(ComicIdError::NoDigits));
    assert_eq!(
        extract_comic_id("aid-99999999999999999999"),
        Err(ComicIdError::InvalidNumber)
    );
    assert_eq!(extract_comic_id(""), Err(ComicIdError::MarkerNotFound));
    assert_eq!(ComicIdError::NoDigits.message(), "没有解析到数字 ID");
}

#[test]
fn page_html_gives_the_id() {
    let body = "<a href=\"/photos-index-aid-349565.html\">x</a>";
    assert_eq!(extract_comic_id_from_html(body), Ok(349565));
    let body = "photos-index-aid-x photos-gallery-aid-12.html";
    assert_eq!(extract_comic_id_from_html(body), Ok(12));
    let body = "photos-index-page-1-aid-77 photos-gallery-aid-12";
    assert_eq!(extract_comic_id_from_html(body), Ok(77));
    assert_eq!(
        extract_comic_id_from_html("<html></html>"),
        Err(ComicIdError::PageMarkerNotFound)
    );
    assert_eq!(
        extract_comic_id_from_html("photos-index-aid-99999999999999999999"),
        Err(ComicIdError::InvalidNumber)
    );
}

#[test]
fn page_id_prefers_the_final_url() {
    assert_eq!(
        comic_id_from_page(
            "https://www.wnacg.com/photos-index-aid-5.html",
            "photos-index-aid-6"
        ),
        Ok(5)
    );
    assert_eq!(
        comic_id_from_page(
            "https://www.wnacg.com/photos-view-id-27566986.html",
            "<a href=\"photos-index-aid-6.html\">"
        ),
        Ok(6)
    );
}

#[test]
fn comic_url_round_trips() {
    let url = comic_url("www.wnacg.com", 328415);
    assert_eq!(url, "https://www.wnacg.com/photos-index-aid-328415.html");
    assert_eq!(extract_comic_id(&url), Ok(328415));
}
