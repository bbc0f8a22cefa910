use wnacg_downloader::listing::{absolute_url, last_page, page_count_of_label};
use wnacg_downloader::naming::{is_temp_download_dir, temp_download_dir_name, zip_entry_order, zip_file_name};
use wnacg_downloader::report::{
    comic_summary_lines, search_page_line, searched_comic_line, task_not_found_message,
    task_summary_lines, SearchedComic, TaskFields,
};
use wnacg_downloader::site::{proxy_setting, ProxyMode, ProxySetting};

#[test]
fn search_result_lines() {
    assert_eq!(search_page_line(2, 17), "page 2/17");
    let c = SearchedComic { id: 328415, title: "T".into(), additional_info: "52張".into(), is_downloaded: true };
    assert_eq!(searched_comic_line(&c), "[328415] downloaded | T | 52張");
    let c = SearchedComic { id: 1, title: "A".into(), additional_info: "".into(), is_downloaded: false };
    assert_eq!(searched_comic_line(&c), "[1] - | A | ");
}

#[test]
fn comic_summary() {
    let (a, b, c) = comic_summary_lines(42, "Title", "https://c/x.jpg", 52);
    assert_eq!(a, "[42] Title");
    assert_eq!(b, "cover: https://c/x.jpg");
    assert_eq!(c, "pages: 52");
}

fn fields() -> TaskFields {
    TaskFields {
        id: None,
        status: None,
        title: None,
        target: None,
        completed_pages: None,
        total_pages: None,
        error: None,
        zip_path: None,
    }
}

#[test]
fn task_summary_of_an_empty_answer_uses_dashes() {
    assert_eq!(task_summary_lines(&fields(), &None), vec!["#- [-] -", "progress: 0/0", ""]);
    assert_eq!(
        task_summary_lines(&fields(), &Some("abc".into())),
        vec!["#abc [-] -", "progress: 0/0", ""]
    );
}

#[test]
fn task_summary_of_a_full_answer() {
    let mut t = fields();
    t.id = Some("id1".into());
    t.status = Some("failed".into());
    t.target = Some("328415".into());
    t.completed_pages = Some(3);
    t.total_pages = Some(52);
    t.error = Some("boom".into());
    t.zip_path = Some("/d/x.zip".into());
    assert_eq!(
        task_summary_lines(&t, &Some("other".into())),
        vec!["#id1 [failed] 328415", "progress: 3/52", "error: boom", "zip: /d/x.zip", ""]
    );
    t.title = Some("Title".into());
    assert_eq!(task_summary_lines(&t, &None)[0], "#id1 [failed] Title");
}

#[test]
fn unknown_task_message() {
    assert_eq!(task_not_found_message("x-1"), "task `x-1` not found");
}

#[test]
fn download_folder_names() {
    let temp = temp_download_dir_name("[1] T");
    assert_eq!(temp, ".下载中-[1] T");
    assert!(is_temp_download_dir(&temp));
    assert!(!is_temp_download_dir("[1] T"));
    assert_eq!(zip_file_name("[1] T"), "[1] T.zip");
}

#[test]
fn proxy_settings_follow_the_mode() {
    assert!(matches!(proxy_setting(ProxyMode::System, "h", 1), ProxySetting::System));
    assert!(matches!(proxy_setting(ProxyMode::NoProxy, "h", 1), ProxySetting::Direct));
    match proxy_setting(ProxyMode::Custom, "127.0.0.1", 7890) {
        ProxySetting::Custom(url) => assert_eq!(url, "http://127.0.0.1:7890"),
        _ => panic!("expected a custom proxy"),
    }
}

#[test]
fn zip_entries_are_sorted_by_name_bytes() {
    let names: Vec<String> =
        vec!["0002.jpg", "元数据.json", "0010.jpg", "0001.gif", "0002.jpg", "B.png", "a.png"]
            .into_iter()
            .map(String::from)
            .collect();
    let mut expected = names.clone();
    expected.sort();
    assert_eq!(zip_entry_order(&names), expected);
    assert_eq!(
        zip_entry_order(&names),
        vec!["0001.gif", "0002.jpg", "0002.jpg", "0010.jpg", "B.png", "a.png", "元数据.json"]
    );
    assert!(zip_entry_order(&Vec::new()).is_empty());
}

#[test]
fn page_values() {
    assert_eq!(absolute_url("d", "//t.qy0.ru/a.jpg"), "https://t.qy0.ru/a.jpg");
    assert_eq!(absolute_url("d", "/img/a.jpg"), "https://d/img/a.jpg");
    assert_eq!(absolute_url("d", "https://x/a.jpg"), "https://x/a.jpg");
    assert_eq!(page_count_of_label(" 52P "), Some(52));
    assert_eq!(page_count_of_label("7 PP"), Some(7));
    assert_eq!(page_count_of_label("many"), None);
    assert_eq!(last_page(1, &vec![2, 3, 17, 2]), 17);
    assert_eq!(last_page(5, &vec![]), 5);
    assert_eq!(last_page(9, &vec![2, 3]), 9);
}
