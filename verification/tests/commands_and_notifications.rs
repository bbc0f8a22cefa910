use wnacg_downloader::commands::{comics_to_download, greet, remaining_shelf_pages, ShelfComic};
use wnacg_downloader::errors::{format_error_chain, AnyhowErrorToStringChain, ToAnyhow};
use wnacg_downloader::img_list::{
    img_list_brackets_ordered, img_list_json, image_urls, ImgInImgList, ImgListError,
};
use wnacg_downloader::notify::{
    bark_message_from_payload, bark_request_url, notification_targets, NotificationTarget,
    WebhookPayload,
};
use wnacg_downloader::options::{
    download_options, failure_reason, resolve_download_dir, resume_dir,
    CliConfig,
};
use wnacg_downloader::images::DownloadFormat;
use wnacg_downloader::query::{
    CommonQuery, DownloadQuery, KeywordSearchQuery, TagSearchQuery,
};
use wnacg_downloader::site::{
    custom_proxy_url, download_start_url, download_task_query_pairs, gallery_url, login_cookie,
    referer_url, search_query_pairs, search_url, shelf_url, tag_search_url, task_api_url,
    user_profile_url, login_url, DownloadRequest, LoginError, LoginResp,
};

fn strings(v: &[&str]) -> Vec<String> {
    v.iter().map(|s| s.to_string()).collect()
}

fn payload(status: &str) -> WebhookPayload {
    WebhookPayload {
        event: "download_finished".to_string(),
        status: status.to_string(),
        comic_id: Some(42),
        title: "标题".to_string(),
        download_dir: None,
        zip_path: None,
        image_count: Some(10),
        completed_images: 3,
        total_images: 10,
        reason: Some("网络错误".to_string()),
    }
}

#[test]
fn greeting() {
    assert_eq!(greet("wnacg"), "Hello, wnacg! You've been greeted from Rust!");
}

#[test]
fn shelf_helpers() {
    assert_eq!(remaining_shelf_pages(4), vec![2, 3, 4]);
    assert!(remaining_shelf_pages(1).is_empty());
    assert!(remaining_shelf_pages(-3).is_empty());
    let comics = vec![
        ShelfComic { id: 1, title: "a".into(), is_downloaded: true },
        ShelfComic { id: 2, title: "b".into(), is_downloaded: false },
        ShelfComic { id: 3, title: "c".into(), is_downloaded: false },
    ];
    let ids: Vec<i64> = comics_to_download(comics).iter().map(|c| c.id).collect();
    assert_eq!(ids, vec![2, 3]);
}

#[test]
fn bark_messages() {
    let (title, body) = bark_message_from_payload(&payload("success"));
    assert_eq!(title, "下载完成 #42");
    assert_eq!(body, "标题");
    let (title, body) = bark_message_from_payload(&payload("failed"));
    assert_eq!(title, "下载失败 #42");
    assert_eq!(body, "网络错误 | 标题 | 3/10");
    let mut p = payload("failed");
    p.comic_id = None;
    p.reason = None;
    let (title, body) = bark_message_from_payload(&p);
    assert_eq!(title, "下载失败 #-");
    assert_eq!(body, "未知错误 | 标题 | 3/10");
}

#[test]
fn bark_urls_are_percent_encoded() {
    assert_eq!(
        bark_request_url("https://api.day.app/KEY//", "下载完成 #1", "a b~c"),
        "https://api.day.app/KEY/%E4%B8%8B%E8%BD%BD%E5%AE%8C%E6%88%90%20%231/a%20b~c"
    );
}

#[test]
fn notification_target_order() {
    let targets = notification_targets(&Some("http://hook".to_string()), &Some("http://bark".to_string()));
    assert_eq!(targets.len(), 2);
    assert!(matches!(&targets[0], NotificationTarget::Webhook(u) if u == "http://hook"));
    assert!(matches!(&targets[1], NotificationTarget::Bark(u) if u == "http://bark"));
    assert!(notification_targets(&Some(String::new()), &None).is_empty());
}

#[test]
fn error_chains() {
    assert_eq!(format_error_chain(&strings(&["a", "b"])), "0: a\n1: b\n");
    assert_eq!(format_error_chain(&vec![]), "");
    let err = anyhow::Error::msg("inner").context("outer");
    assert_eq!(err.to_string_chain(), "0: outer\n1: inner\n");
}

#[test]
fn selector_errors_become_anyhow() {
    let bad = scraper::Selector::parse("##").map(|_| 1).to_anyhow();
    assert!(bad.is_err());
    let good = scraper::Selector::parse("div").map(|_| 1).to_anyhow();
    assert_eq!(good.unwrap(), 1);
}

#[test]
fn image_list_json() {
    let body = "<script>\r\nvar imglist = [{ url: fast_img_host+\\\"//img.x/1.jpg\\\", caption: \\\"[01]\\\"}];\r\n</script>";
    assert!(img_list_brackets_ordered(body));
    let json = img_list_json(body).unwrap();
    assert_eq!(json, "[{ \"url\": \"//img.x/1.jpg\", \"caption\": \"[01]\"}]");
    let v: serde_json::Value = serde_json::from_str(&json).unwrap();
    assert_eq!(v[0]["url"], "//img.x/1.jpg");
    assert_eq!(img_list_json("nothing"), Err(ImgListError::NoImgListLine));
    assert_eq!(img_list_json("var imglist = x]"), Err(ImgListError::NoOpenBracket));
    assert_eq!(img_list_json("var imglist = [x"), Err(ImgListError::NoCloseBracket));
    assert_eq!(ImgListError::NoImgListLine.cli_message(), "没有找到包含 `imglist` 的行");
    assert_eq!(ImgListError::NoOpenBracket.cli_message(), "没有找到 `[`");
    assert_eq!(ImgListError::NoCloseBracket.cli_message(), "没有找到 `]`");
    assert_eq!(ImgListError::NoImgListLine.message(), "没有找到包含`imglist`的行");
    assert!(!img_list_brackets_ordered("var imglist = ] x ["));
}

#[test]
fn image_download_urls() {
    let list = vec![
        ImgInImgList { url: "//img.x/1.jpg".into(), caption: "1".into() },
        ImgInImgList { url: "//img.x/shoucang.jpg".into(), caption: "s".into() },
        ImgInImgList { url: "//img.x/2.png".into(), caption: "2".into() },
    ];
    assert_eq!(image_urls(&list), strings(&["https://img.x/1.jpg", "https://img.x/2.png"]));
}

#[test]
fn download_command_lines() {
    let q = DownloadQuery {
        target: "328415".into(),
        format: Some("png".into()),
        img_concurrency: Some(5),
        img_interval_sec: Some(1),
        use_original_filename: Some(true),
        api_domain: None,
        proxy: Some("http://p:1".into()),
        download_dir: None,
        config: Some("/c.json".into()),
    };
    assert_eq!(
        q.download_args(),
        strings(&[
            "download", "328415", "--format", "png", "--img-concurrency", "5",
            "--img-interval-sec", "1", "--use-original-filename", "--proxy", "http://p:1",
            "--config", "/c.json"
        ])
    );
    assert_eq!(
        q.comic_args(),
        strings(&["comic", "--json", "328415", "--proxy", "http://p:1", "--config", "/c.json"])
    );
    let c = q.common_query();
    assert_eq!(c.proxy.as_deref(), Some("http://p:1"));
    let mut args = vec!["x".to_string()];
    CommonQuery {
        api_domain: Some("d".into()),
        proxy: None,
        download_dir: Some("/dl".into()),
        config: None,
    }
    .append_cli_args(&mut args);
    assert_eq!(args, strings(&["x", "--api-domain", "d", "--download-dir", "/dl"]));
}

#[test]
fn search_command_lines() {
    let k = KeywordSearchQuery {
        q: "fate".into(),
        page: None,
        api_domain: None,
        proxy: None,
        download_dir: None,
        config: None,
    };
    assert_eq!(k.cli_args(), strings(&["search", "--json", "--page", "1", "keyword", "fate"]));
    let t = TagSearchQuery {
        tag: "人妻".into(),
        page: Some(3),
        api_domain: Some("d".into()),
        proxy: None,
        download_dir: None,
        config: None,
    };
    assert_eq!(
        t.cli_args(),
        strings(&["search", "--json", "--page", "3", "--api-domain", "d", "tag", "人妻"])
    );
}

#[test]
fn site_addresses() {
    assert_eq!(referer_url("www.wnacg.com"), "https://www.wnacg.com/");
    assert_eq!(search_url("d"), "https://d/search/index.php");
    assert_eq!(tag_search_url("d", 2, "tag"), "https://d/albums-index-page-2-tag-tag.html");
    assert_eq!(gallery_url("d", 9), "https://d/photos-gallery-aid-9.html");
    assert_eq!(shelf_url("d", 1, 0), "https://d/users-users_fav-page-1-c-0.html");
    assert_eq!(user_profile_url("d"), "https://d/users.html");
    assert_eq!(login_url("d"), "https://d/users-check_login.html");
    assert_eq!(custom_proxy_url("127.0.0.1", 7890), "http://127.0.0.1:7890");
    let pairs = search_query_pairs("k", 2);
    assert_eq!(pairs[0], ("q".to_string(), "k".to_string()));
    assert_eq!(pairs[4], ("p".to_string(), "2".to_string()));
}

#[test]
fn task_api_addresses() {
    assert_eq!(task_api_url("http://h:3001/api/", None), "http://h:3001/api/tasks");
    assert_eq!(task_api_url("http://h:3001/api", Some("x")), "http://h:3001/api/tasks/x");
    assert_eq!(download_start_url("http://h/api//"), "http://h/api/download/start");
    let req = DownloadRequest {
        target: "1".into(),
        format: DownloadFormat::Webp,
        img_concurrency: Some(10),
        img_interval_sec: Some(1),
        use_original_filename: false,
        api_domain: "d".into(),
        proxy: None,
        download_dir: Some("/dl".into()),
        config: None,
    };
    let pairs: Vec<(String, String)> = download_task_query_pairs(&req);
    let expected: Vec<(String, String)> = [
        ("target", "1"),
        ("format", "webp"),
        ("img_concurrency", "10"),
        ("img_interval_sec", "1"),
        ("api_domain", "d"),
        ("download_dir", "/dl"),
    ]
    .iter()
    .map(|(k, v)| (k.to_string(), v.to_string()))
    .collect();
    assert_eq!(pairs, expected);
    let unset = DownloadRequest { img_concurrency: None, img_interval_sec: None, ..req };
    let keys: Vec<String> = download_task_query_pairs(&unset).into_iter().map(|(k, _)| k).collect();
    assert_eq!(keys, vec!["target", "format", "api_domain", "download_dir"]);
}

#[test]
fn login_answers() {
    let ok = LoginResp { ret: true, html: String::new() };
    assert_eq!(login_cookie(&ok, Some("c=1".into())), Ok("c=1".to_string()));
    assert_eq!(login_cookie(&ok, None), Err(LoginError::NoCookie));
    let no = LoginResp { ret: false, html: "bad".into() };
    assert_eq!(login_cookie(&no, Some("c=1".into())), Err(LoginError::Refused));
}

#[test]
fn download_settings() {
    let mut config = CliConfig::empty();
    let o = download_options(&config, "/dl".into(), DownloadFormat::Jpeg, Some(0), Some(3), true);
    assert_eq!(
        (o.img_concurrency, o.img_interval_sec, o.img_retry_count, o.task_retry_count),
        (1, 3, 2, 1)
    );
    let o = download_options(&config, "/dl".into(), DownloadFormat::Jpeg, None, None, true);
    assert_eq!((o.img_concurrency, o.img_interval_sec), (10, 1));
    config.default_img_concurrency = Some(5);
    config.default_img_interval_sec = Some(0);
    config.default_task_retry_count = Some(0);
    let o = download_options(&config, "/dl".into(), DownloadFormat::Jpeg, None, None, false);
    assert_eq!((o.img_concurrency, o.img_interval_sec, o.task_retry_count), (5, 0, 0));
    // A value given with the request wins over the configured default.
    let o = download_options(&config, "/dl".into(), DownloadFormat::Jpeg, Some(3), Some(2), false);
    assert_eq!((o.img_concurrency, o.img_interval_sec), (3, 2));
    config.default_download_dir = Some("/cfg".into());
    assert_eq!(resolve_download_dir(None, &config).as_deref(), Some("/cfg"));
    assert_eq!(resolve_download_dir(Some("/arg".into()), &config).as_deref(), Some("/arg"));
    assert_eq!(failure_reason("坏了", Some("/t")), "坏了。临时目录已保留，可续传：/t");
    assert_eq!(failure_reason("坏了", None), "坏了");
    assert_eq!(resume_dir(None, Some("/f")), Some("/f"));
    assert_eq!(resume_dir(Some("/t"), Some("/f")), Some("/t"));
}
