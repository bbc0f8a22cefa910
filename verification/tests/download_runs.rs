use wnacg_downloader::download_run::{
    after_fetch_failure, details_failed_notice, incomplete_download_reason, next_action, start_run, FetchStep, RunAction, RunEvent,
};

fn failed(reason: &str, temp: Option<&str>, fin: Option<&str>) -> RunEvent {
    RunEvent::AttemptFailed {
        title: "T".to_string(),
        reason: reason.to_string(),
        completed_images: 3,
        total_images: 5,
        temp_dir: temp.map(str::to_string),
        final_dir: fin.map(str::to_string),
    }
}

#[test]
fn failed_attempt_is_retried_within_budget_then_reported() {
    let mut run = start_run(42, "Title".to_string(), 5, 1);
    match next_action(&mut run, failed("boom", Some("/t"), Some("/f"))) {
        RunAction::Retry { message } => {
            assert_eq!(message, "download attempt failed, retrying (2/2): boom")
        }
        _ => panic!("expected a retry"),
    }
    assert_eq!(run.retries_done, 1);
    match next_action(&mut run, failed("again", Some("/t"), Some("/f"))) {
        RunAction::Fail { notice, error } => {
            assert_eq!(error, "again。临时目录已保留，可续传：/t");
            assert_eq!(notice.event, "download_finished");
            assert_eq!(notice.status, "failed");
            assert_eq!(notice.comic_id, Some(42));
            assert_eq!(notice.title, "T");
            assert_eq!(notice.download_dir.as_deref(), Some("/t"));
            assert_eq!(notice.zip_path, None);
            assert_eq!(notice.image_count, Some(5));
            assert_eq!((notice.completed_images, notice.total_images), (3, 5));
            assert_eq!(notice.reason.as_deref(), Some("again。临时目录已保留，可续传：/t"));
        }
        _ => panic!("expected a failure"),
    }
    assert_eq!(run.retries_done, 1);
}

#[test]
fn no_retry_budget_reports_first_failure_with_final_dir() {
    let mut run = start_run(7, "Title".to_string(), 2, 0);
    match next_action(&mut run, failed("x", None, Some("/f"))) {
        RunAction::Fail { notice, error } => {
            assert_eq!(error, "x。临时目录已保留，可续传：/f");
            assert_eq!(notice.download_dir.as_deref(), Some("/f"));
        }
        _ => panic!("expected a failure"),
    }
    let mut run = start_run(7, "Title".to_string(), 2, 0);
    match next_action(&mut run, failed("x", None, None)) {
        RunAction::Fail { notice, error } => {
            assert_eq!(error, "x");
            assert_eq!(notice.download_dir, None);
        }
        _ => panic!("expected a failure"),
    }
}

#[test]
fn finished_download_is_archived_cleaned_and_reported() {
    let mut run = start_run(9, "Comic".to_string(), 4, 1);
    let ok = RunEvent::AttemptSucceeded { final_dir: "/d/Comic".to_string(), completed_images: 4, total_images: 4 };
    assert!(matches!(next_action(&mut run, ok), RunAction::Archive));
    let archived = RunEvent::Archived {
        final_dir: "/d/Comic".to_string(),
        zip_path: "/d/Comic.zip".to_string(),
        completed_images: 4,
        total_images: 4,
    };
    assert!(matches!(next_action(&mut run, archived), RunAction::RemoveDir));
    let removed = RunEvent::DirRemoved { zip_path: "/d/Comic.zip".to_string(), completed_images: 4, total_images: 4 };
    match next_action(&mut run, removed) {
        RunAction::Succeed { notice, zipped, downloaded } => {
            assert_eq!(zipped, "zipped to /d/Comic.zip");
            assert_eq!(downloaded, "downloaded to /d/Comic.zip");
            assert_eq!(notice.status, "success");
            assert_eq!(notice.title, "Comic");
            assert_eq!(notice.zip_path.as_deref(), Some("/d/Comic.zip"));
            assert_eq!(notice.download_dir, None);
            assert_eq!(notice.reason, None);
        }
        _ => panic!("expected success"),
    }
}

#[test]
fn archive_and_cleanup_failures_are_reported() {
    let mut run = start_run(9, "Comic".to_string(), 4, 1);
    let e = RunEvent::ArchiveFailed {
        final_dir: "/d/C".to_string(),
        completed_images: 4,
        total_images: 4,
        error: "disk full".to_string(),
    };
    match next_action(&mut run, e) {
        RunAction::Fail { notice, error } => {
            assert_eq!(error, "将 `/d/C` 打包为 zip 失败");
            assert_eq!(notice.reason.as_deref(), Some("打包 zip 失败，目录已保留：disk full"));
            assert_eq!(notice.download_dir.as_deref(), Some("/d/C"));
        }
        _ => panic!("expected a failure"),
    }
    let e = RunEvent::DirRemoveFailed {
        final_dir: "/d/C".to_string(),
        zip_path: "/d/C.zip".to_string(),
        completed_images: 4,
        total_images: 4,
        error: "busy".to_string(),
    };
    match next_action(&mut run, e) {
        RunAction::Fail { notice, error } => {
            assert_eq!(error, "删除已打包目录 `/d/C` 失败: busy");
            assert_eq!(notice.reason.as_deref(), Some("删除已打包目录 `/d/C` 失败，目录已保留: busy"));
            assert_eq!(notice.zip_path.as_deref(), Some("/d/C.zip"));
        }
        _ => panic!("expected a failure"),
    }
}

#[test]
fn details_failure_is_reported_under_the_target() {
    let n = details_failed_notice(5, "https://x/aid-5", "timeout");
    assert_eq!(n.title, "https://x/aid-5");
    assert_eq!(n.comic_id, Some(5));
    assert_eq!(n.reason.as_deref(), Some("获取漫画详情失败: timeout"));
    assert_eq!((n.completed_images, n.total_images, n.image_count), (0, 0, None));
}

#[test]
fn image_fetch_retries_then_gives_up() {
    assert!(matches!(after_fetch_failure(0, 2, "T", "u", "e"), FetchStep::RetryAfter(1)));
    assert!(matches!(after_fetch_failure(1, 2, "T", "u", "e"), FetchStep::RetryAfter(2)));
    match after_fetch_failure(2, 2, "T", "https://i/1.jpg", "timeout") {
        FetchStep::GiveUp(why) => {
            assert_eq!(why, "下载 `T` 的图片 `https://i/1.jpg` 失败，已重试 2 次: timeout")
        }
        _ => panic!("expected to give up"),
    }
    assert!(matches!(after_fetch_failure(0, 0, "T", "u", "e"), FetchStep::GiveUp(_)));
}

#[test]
fn incomplete_download_reports_the_first_failure() {
    assert_eq!(incomplete_download_reason(&vec![]), None);
    let failures = vec!["a".to_string(), "b".to_string()];
    assert_eq!(incomplete_download_reason(&failures).as_deref(), Some("漫画下载不完整: a"));
}
