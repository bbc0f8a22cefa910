use wnacg_downloader::tasks::{
    downloaded_line, finish_task, handle_stderr_line, handle_stdout_line, load_tasks_blocking,
    clock_text, mark_spawn_failed, now_string, parse_progress, progress_line, zipped_line, ComicInfo,
    DownloadTask, TaskStore,
};

fn task(id: &str, updated_at: &str) -> DownloadTask {
    DownloadTask::new(id.to_string(), format!("target-{id}"), None, updated_at.to_string())
}

#[test]
fn new_tasks_are_downloading() {
    let info = ComicInfo {
        id: 7,
        title: "T".to_string(),
        cover: "C".to_string(),
        image_count: 12,
    };
    let t = DownloadTask::new("id".to_string(), "7".to_string(), Some(&info), "100".to_string());
    assert_eq!(t.status, "downloading");
    assert_eq!(t.title.as_deref(), Some("T"));
    assert_eq!(t.cover.as_deref(), Some("C"));
    assert_eq!(t.total_pages, Some(12));
    assert_eq!(t.completed_pages, 0);
    assert_eq!(t.created_at, "100");
    assert_eq!(t.updated_at, "100");
    assert!(t.finished_at.is_none() && t.error.is_none() && t.zip_path.is_none());
    let t = DownloadTask::new("id".to_string(), "7".to_string(), None, "100".to_string());
    assert!(t.title.is_none() && t.cover.is_none() && t.total_pages.is_none());
}

#[test]
fn progress_lines() {
    assert_eq!(parse_progress("[3/10] https://x/1.jpg"), Some((3, 10)));
    assert_eq!(parse_progress("[+3/10]"), Some((3, 10)));
    assert_eq!(parse_progress("[3/10"), None);
    assert_eq!(parse_progress("3/10]"), None);
    assert_eq!(parse_progress("[a/10]"), None);
    assert_eq!(parse_progress("[310]"), None);
    assert_eq!(parse_progress("[-3/10]"), None);
    let line = progress_line(3, 10, "https://x/1.jpg");
    assert_eq!(line, "[3/10] https://x/1.jpg");
    assert_eq!(parse_progress(&line), Some((3, 10)));
}

#[test]
fn output_lines_update_the_task() {
    let mut t = task("a", "1");
    handle_stdout_line(&mut t, &progress_line(2, 5, "u"), "2".to_string());
    assert_eq!(t.completed_pages, 2);
    assert_eq!(t.total_pages, Some(5));
    assert_eq!(t.updated_at, "2");
    handle_stdout_line(&mut t, &zipped_line("/data/x.zip  "), "3".to_string());
    assert_eq!(t.zip_path.as_deref(), Some("/data/x.zip"));
    handle_stdout_line(&mut t, &downloaded_line(" /data/y.zip"), "4".to_string());
    assert_eq!(t.zip_path.as_deref(), Some("/data/y.zip"));
    assert_eq!(t.stdout.len(), 3);
    handle_stdout_line(&mut t, "other", "5".to_string());
    assert_eq!(t.completed_pages, 2);
    assert_eq!(t.stdout.last().map(String::as_str), Some("other"));
    handle_stderr_line(&mut t, "oops", "6".to_string());
    assert_eq!(t.stderr, vec!["oops".to_string()]);
    assert_eq!(t.updated_at, "6");
}

#[test]
fn finished_tasks() {
    let mut t = task("a", "1");
    t.total_pages = Some(9);
    finish_task(&mut t, true, "7".to_string(), "8".to_string());
    assert_eq!(t.status, "success");
    assert_eq!(t.completed_pages, 9);
    assert_eq!(t.title.as_deref(), Some("target-a"));
    assert_eq!(t.finished_at.as_deref(), Some("8"));
    assert_eq!(t.updated_at, "7");

    let mut t = task("b", "1");
    handle_stdout_line(&mut t, "out", "2".to_string());
    handle_stderr_line(&mut t, "err", "2".to_string());
    finish_task(&mut t, false, "3".to_string(), "3".to_string());
    assert_eq!(t.status, "failed");
    assert_eq!(t.error.as_deref(), Some("err"));

    let mut t = task("c", "1");
    handle_stdout_line(&mut t, "only out", "2".to_string());
    finish_task(&mut t, false, "3".to_string(), "3".to_string());
    assert_eq!(t.error.as_deref(), Some("only out"));

    let mut t = task("d", "1");
    finish_task(&mut t, false, "3".to_string(), "3".to_string());
    assert_eq!(t.error.as_deref(), Some("下载失败"));

    let mut t = task("e", "1");
    mark_spawn_failed(&mut t, "no such file", "4".to_string(), "5".to_string());
    assert_eq!(t.status, "failed");
    assert_eq!(t.error.as_deref(), Some("启动下载任务失败: no such file"));
    assert_eq!(t.finished_at.as_deref(), Some("4"));
}

#[test]
fn store_reads_back_what_was_written() {
    let mut store = TaskStore::new();
    store.insert(task("a", "1700000001"));
    store.insert(task("b", "1700000003"));
    store.insert(task("c", "1700000002"));
    assert_eq!(store.len(), 3);
    assert_eq!(store.get("b").map(|t| t.updated_at.as_str()), Some("1700000003"));
    assert!(store.get("z").is_none());
    store.insert(task("a", "1700000009"));
    assert_eq!(store.len(), 3);
    assert_eq!(store.get("a").map(|t| t.updated_at.as_str()), Some("1700000009"));
    let ids: Vec<&str> = store.list_newest_first().iter().map(|t| t.id.as_str()).collect();
    assert_eq!(ids, vec!["a", "b", "c"]);
}

#[test]
fn store_updates() {
    let mut store = TaskStore::new();
    store.insert(task("a", "1"));
    assert!(store.update_stdout("a", "[1/4] u", "2".to_string()));
    assert_eq!(store.get("a").unwrap().completed_pages, 1);
    assert!(!store.update_stdout("missing", "[1/4] u", "2".to_string()));
    assert!(store.update_stderr("a", "e", "3".to_string()));
    assert!(store.update_finished("a", false, "4".to_string(), "4".to_string()));
    assert_eq!(store.get("a").unwrap().error.as_deref(), Some("e"));
    assert!(store.update_spawn_failed("a", "x", "5".to_string(), "5".to_string()));
    assert_eq!(store.get("a").unwrap().error.as_deref(), Some("启动下载任务失败: x"));
    assert_eq!(store.len(), 1);
}

#[test]
fn loading_tasks() {
    let (store, import) = load_tasks_blocking(vec![task("a", "1")], None);
    assert!(!import);
    assert_eq!(store.len(), 1);
    let (store, import) = load_tasks_blocking(vec![], Some(vec![task("x", "1"), task("y", "2")]));
    assert!(import);
    assert_eq!(store.len(), 2);
    let (store, import) = load_tasks_blocking(vec![], Some(vec![]));
    assert!(!import);
    assert_eq!(store.len(), 0);
    let store = TaskStore::from_tasks(vec![task("x", "1"), task("x", "2")]);
    assert_eq!(store.len(), 1);
    assert_eq!(store.get("x").unwrap().updated_at, "2");
}

#[test]
fn now_is_a_number_of_seconds() {
    let now = now_string();
    let secs: u64 = now.parse().unwrap();
    assert!(secs > 1_600_000_000);
}

#[test]
fn clock_readings_before_the_epoch_read_as_zero() {
    assert_eq!(clock_text(None), "0");
    assert_eq!(clock_text(Some(0)), "0");
    assert_eq!(clock_text(Some(1_700_000_000)), "1700000000");
}
