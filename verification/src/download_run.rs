//! The course of one download on the command line. The downloader tries to
//! download a comic's images, retries a failed attempt while its retry
//! budget lasts, packs the finished folder into a zip archive and deletes
//! the folder; each step's outcome decides the next step and, at the end,
//! the notification it sends.

use vstd::prelude::*;
use crate::notify::WebhookPayload;
use crate::options::{failure_reason, resume_dir};
use crate::tasks::{downloaded_line, opt_text, zipped_line};
use crate::text::{nat_decimal, push_str, successor_to_string, usize_to_string};

verus! {

/// A download of one comic in progress.
pub struct DownloadRun {
    pub comic_id: i64,
    pub title: String,
    pub image_count: i64,
    /// How many times a failed attempt may be retried.
    pub task_retry_count: usize,
    /// How many times a failed attempt has been retried so far.
    pub retries_done: usize,
}

/// What a step of a download ended with.
#[allow(inconsistent_fields)]
pub enum RunEvent {
    /// An attempt failed; what it downloaded is kept in `temp_dir`, or in
    /// `final_dir`.
    AttemptFailed {
        title: String,
        reason: String,
        completed_images: usize,
        total_images: usize,
        temp_dir: Option<String>,
        final_dir: Option<String>,
    },
    /// An attempt downloaded every image into `final_dir`.
    AttemptSucceeded { final_dir: String, completed_images: usize, total_images: usize },
    /// Packing `final_dir` into an archive failed with `error`.
    ArchiveFailed { final_dir: String, completed_images: usize, total_images: usize, error: String },
    /// `final_dir` was packed into the archive `zip_path`.
    Archived { final_dir: String, zip_path: String, completed_images: usize, total_images: usize },
    /// Deleting the packed folder failed with `error`.
    DirRemoveFailed {
        final_dir: String,
        zip_path: String,
        completed_images: usize,
        total_images: usize,
        error: String,
    },
    /// The packed folder was deleted.
    DirRemoved { zip_path: String, completed_images: usize, total_images: usize },
}

/// What the downloader does next.
pub enum RunAction {
    /// Print `message`, wait, and download again.
    Retry { message: String },
    /// Pack the downloaded folder into a zip archive.
    Archive,
    /// Delete the packed folder.
    RemoveDir,
    /// Send `notice`, then stop with the error `error`.
    Fail { notice: WebhookPayload, error: String },
    /// Print `zipped`, send `notice`, then print `downloaded`.
    Succeed { notice: WebhookPayload, zipped: String, downloaded: String },
}

/// `n` is the notification of a download's end with these fields.
pub open spec fn notice_is(
    n: WebhookPayload,
    success: bool,
    comic_id: i64,
    title: Seq<char>,
    download_dir: Option<Seq<char>>,
    zip_path: Option<Seq<char>>,
    image_count: Option<i64>,
    completed_images: usize,
    total_images: usize,
    reason: Option<Seq<char>>,
) -> bool {
    &&& n.event@ == "download_finished"@
    &&& n.status@ == if success { "success"@ } else { "failed"@ }
    &&& n.comic_id == Some(comic_id)
    &&& n.title@ == title
    &&& opt_text(n.download_dir) == download_dir
    &&& opt_text(n.zip_path) == zip_path
    &&& n.image_count == image_count
    &&& n.completed_images == completed_images
    &&& n.total_images == total_images
    &&& opt_text(n.reason) == reason
}

/// The retry count of a run that had `retries_done` retries, after `n`
/// more failed attempts in a row; `None` once it has given up.
pub open spec fn retries_after_failures(retries_done: nat, task_retry_count: nat, n: nat) -> Option<nat>
    decreases n,
{
    if n == 0 {
        Some(retries_done)
    } else {
        match retries_after_failures(retries_done, task_retry_count, (n - 1) as nat) {
            Some(r) => if r < task_retry_count {
                Some(r + 1)
            } else {
                None
            },
            None => None,
        }
    }
}

/// The line printed before a retry.
pub open spec fn retry_message(retries_done: nat, task_retry_count: nat, reason: Seq<char>) -> Seq<char> {
    "download attempt failed, retrying ("@ + nat_decimal(retries_done + 2) + "/"@ + nat_decimal(
        task_retry_count + 1,
    ) + "): "@ + reason
}

/// The directory a failed download keeps: the temporary one, else the final one.
pub open spec fn kept_dir(temp_dir: Option<String>, final_dir: Option<String>) -> Option<Seq<char>> {
    match temp_dir {
        Some(t) => Some(t@),
        None => opt_text(final_dir),
    }
}

/// The reason a download that gave up reports.
pub open spec fn given_up_reason(reason: Seq<char>, kept: Option<Seq<char>>) -> Seq<char> {
    match kept {
        Some(d) => reason + "。临时目录已保留，可续传："@ + d,
        None => reason,
    }
}

/// One step of a download: from the run `b` and the outcome `event` of its
/// last step to the run `a` and the action `action`.
pub open spec fn run_step(b: DownloadRun, event: RunEvent, a: DownloadRun, action: RunAction) -> bool {
    &&& a.comic_id == b.comic_id
    &&& a.title@ == b.title@
    &&& a.image_count == b.image_count
    &&& a.task_retry_count == b.task_retry_count
    &&& match event {
        RunEvent::AttemptFailed { title, reason, completed_images, total_images, temp_dir, final_dir } => {
            if b.retries_done < b.task_retry_count {
                &&& a.retries_done == b.retries_done + 1
                &&& action matches RunAction::Retry { message } && message@ == retry_message(
                    b.retries_done as nat,
                    b.task_retry_count as nat,
                    reason@,
                )
            } else {
                let kept = kept_dir(temp_dir, final_dir);
                let why = given_up_reason(reason@, kept);
                &&& a.retries_done == b.retries_done
                &&& action matches RunAction::Fail { notice, error } && error@ == why && notice_is(
                    notice,
                    false,
                    b.comic_id,
                    title@,
                    kept,
                    None,
                    Some(b.image_count),
                    completed_images,
                    total_images,
                    Some(why),
                )
            }
        },
        RunEvent::AttemptSucceeded { .. } => a.retries_done == b.retries_done && action is Archive,
        RunEvent::ArchiveFailed { final_dir, completed_images, total_images, error } => {
            &&& a.retries_done == b.retries_done
            &&& action matches RunAction::Fail { notice, error: e } && e@ == "将 `"@ + final_dir@
                + "` 打包为 zip 失败"@ && notice_is(
                notice,
                false,
                b.comic_id,
                b.title@,
                Some(final_dir@),
                None,
                Some(b.image_count),
                completed_images,
                total_images,
                Some("打包 zip 失败，目录已保留："@ + error@),
            )
        },
        RunEvent::Archived { .. } => a.retries_done == b.retries_done && action is RemoveDir,
        RunEvent::DirRemoveFailed { final_dir, zip_path, completed_images, total_images, error } => {
            &&& a.retries_done == b.retries_done
            &&& action matches RunAction::Fail { notice, error: e } && e@ == "删除已打包目录 `"@
                + final_dir@ + "` 失败: "@ + error@ && notice_is(
                notice,
                false,
                b.comic_id,
                b.title@,
                Some(final_dir@),
                Some(zip_path@),
                Some(b.image_count),
                completed_images,
                total_images,
                Some("删除已打包目录 `"@ + final_dir@ + "` 失败，目录已保留: "@ + error@),
            )
        },
        RunEvent::DirRemoved { zip_path, completed_images, total_images } => {
            &&& a.retries_done == b.retries_done
            &&& action matches RunAction::Succeed { notice, zipped, downloaded } && zipped@
                == "zipped to "@ + zip_path@ && downloaded@ == "downloaded to "@ + zip_path@
                && notice_is(
                notice,
                true,
                b.comic_id,
                b.title@,
                None,
                Some(zip_path@),
                Some(b.image_count),
                completed_images,
                total_images,
                None,
            )
        },
    }
}

/// A download that starts with no retry done.
pub fn start_run(comic_id: i64, title: String, image_count: i64, task_retry_count: usize) -> (r: DownloadRun)
    ensures
        r.comic_id == comic_id,
        r.title == title,
        r.image_count == image_count,
        r.task_retry_count == task_retry_count,
        r.retries_done == 0,
{
    DownloadRun { comic_id, title, image_count, task_retry_count, retries_done: 0 }
}

/// The notification of a download's end.
fn notice(
    success: bool,
    comic_id: i64,
    title: String,
    download_dir: Option<String>,
    zip_path: Option<String>,
    image_count: Option<i64>,
    completed_images: usize,
    total_images: usize,
    reason: Option<String>,
) -> (n: WebhookPayload)
    ensures
        notice_is(
            n,
            success,
            comic_id,
            title@,
            opt_text(download_dir),
            opt_text(zip_path),
            image_count,
            completed_images,
            total_images,
            opt_text(reason),
        ),
{
    WebhookPayload {
        event: String::from_str("download_finished"),
        status: if success {
            String::from_str("success")
        } else {
            String::from_str("failed")
        },
        comic_id: Some(comic_id),
        title,
        download_dir,
        zip_path,
        image_count,
        completed_images,
        total_images,
        reason,
    }
}

/// A text made of two parts.
fn joined2(a: &str, b: &str) -> (r: String)
    ensures
        r@ == a@ + b@,
{
    let mut r = String::from_str(a);
    push_str(&mut r, b);
    r
}

/// A text made of three parts.
fn joined(a: &str, b: &str, c: &str) -> (r: String)
    ensures
        r@ == a@ + b@ + c@,
{
    let mut r = String::from_str(a);
    push_str(&mut r, b);
    push_str(&mut r, c);
    r
}

/// The next step of a download, given how its last step ended: a failed
/// attempt is retried while the retry budget lasts, then reported with
/// where the partial download is kept; a finished download is packed, its
/// folder deleted, and its success reported; a failure to pack or to
/// delete is reported and ends the download.
pub fn next_action(run: &mut DownloadRun, event: RunEvent) -> (action: RunAction)
    ensures
        run_step(*old(run), event, *final(run), action),
{
    match event {
        RunEvent::AttemptFailed { title, reason, completed_images, total_images, temp_dir, final_dir } => {
            if run.retries_done < run.task_retry_count {
                let shown = successor_to_string(run.retries_done + 1);
                let budget = successor_to_string(run.task_retry_count);
                run.retries_done = run.retries_done + 1;
                let mut message = String::from_str("download attempt failed, retrying (");
                push_str(&mut message, shown.as_str());
                push_str(&mut message, "/");
                push_str(&mut message, budget.as_str());
                push_str(&mut message, "): ");
                push_str(&mut message, reason.as_str());
                RunAction::Retry { message }
            } else {
                let temp: Option<&str> = match &temp_dir {
                    Some(t) => Some(t.as_str()),
                    None => None,
                };
                let fin: Option<&str> = match &final_dir {
                    Some(f) => Some(f.as_str()),
                    None => None,
                };
                let kept: Option<String> = match resume_dir(temp, fin) {
                    Some(d) => Some(String::from_str(d)),
                    None => None,
                };
                let why = failure_reason(reason.as_str(), match &kept {
                    Some(d) => Some(d.as_str()),
                    None => None,
                });
                let n = notice(
                    false,
                    run.comic_id,
                    title,
                    kept,
                    None,
                    Some(run.image_count),
                    completed_images,
                    total_images,
                    Some(why.clone()),
                );
                RunAction::Fail { notice: n, error: why }
            }
        },
        RunEvent::AttemptSucceeded { .. } => RunAction::Archive,
        RunEvent::ArchiveFailed { final_dir, completed_images, total_images, error } => {
            let e = joined("将 `", final_dir.as_str(), "` 打包为 zip 失败");
            let reason = joined2("打包 zip 失败，目录已保留：", error.as_str());
            let n = notice(
                false,
                run.comic_id,
                run.title.clone(),
                Some(final_dir),
                None,
                Some(run.image_count),
                completed_images,
                total_images,
                Some(reason),
            );
            RunAction::Fail { notice: n, error: e }
        },
        RunEvent::Archived { .. } => RunAction::RemoveDir,
        RunEvent::DirRemoveFailed { final_dir, zip_path, completed_images, total_images, error } => {
            let e = joined("删除已打包目录 `", final_dir.as_str(), "` 失败: ");
            let mut e = e;
            push_str(&mut e, error.as_str());
            let reason = joined("删除已打包目录 `", final_dir.as_str(), "` 失败，目录已保留: ");
            let mut reason = reason;
            push_str(&mut reason, error.as_str());
            let n = notice(
                false,
                run.comic_id,
                run.title.clone(),
                Some(final_dir),
                Some(zip_path),
                Some(run.image_count),
                completed_images,
                total_images,
                Some(reason),
            );
            RunAction::Fail { notice: n, error: e }
        },
        RunEvent::DirRemoved { zip_path, completed_images, total_images } => {
            let zipped = zipped_line(zip_path.as_str());
            let downloaded = downloaded_line(zip_path.as_str());
            let n = notice(
                true,
                run.comic_id,
                run.title.clone(),
                None,
                Some(zip_path),
                Some(run.image_count),
                completed_images,
                total_images,
                None,
            );
            RunAction::Succeed { notice: n, zipped, downloaded }
        },
    }
}

/// The notification of a download whose comic's details could not be
/// fetched: it is reported under the target the user gave.
pub fn details_failed_notice(comic_id: i64, target: &str, error: &str) -> (n: WebhookPayload)
    ensures
        notice_is(
            n,
            false,
            comic_id,
            target@,
            None,
            None,
            None,
            0,
            0,
            Some("获取漫画详情失败: "@ + error@),
        ),
{
    let reason = joined2("获取漫画详情失败: ", error);
    notice(false, comic_id, String::from_str(target), None, None, None, 0, 0, Some(reason))
}

/// A run gives up at the failed attempt after its retry budget is spent:
/// from no retries, `n` failed attempts in a row leave it retrying exactly
/// when `n` is at most the budget, with `n` retries done.
pub proof fn law_retry_budget(task_retry_count: nat, n: nat)
    ensures
        retries_after_failures(0, task_retry_count, n) == if n <= task_retry_count {
            Some(n)
        } else {
            None::<nat>
        },
    decreases n,
{
    if n > 0 {
        law_retry_budget(task_retry_count, (n - 1) as nat);
    }
}

/// A failed attempt moves the run one failure further along
/// `retries_after_failures`: it retries exactly when that count is still
/// defined.
pub proof fn law_failure_step(b: DownloadRun, event: RunEvent, a: DownloadRun, action: RunAction)
    requires
        run_step(b, event, a, action),
        event is AttemptFailed,
    ensures
        match retries_after_failures(b.retries_done as nat, b.task_retry_count as nat, 1) {
            Some(r) => action is Retry && a.retries_done == r,
            None => action is Fail && a.retries_done == b.retries_done,
        },
{
    assert(retries_after_failures(b.retries_done as nat, b.task_retry_count as nat, 0) == Some(
        b.retries_done as nat,
    ));
}

/// A download is reported as a success only once its folder has been packed
/// into a zip archive and deleted, so that only the archive is kept; the
/// success notice names the archive.
pub proof fn law_success_only_after_cleanup(b: DownloadRun, event: RunEvent, a: DownloadRun, action: RunAction)
    requires
        run_step(b, event, a, action),
        action is Succeed,
    ensures
        event matches RunEvent::DirRemoved { zip_path, .. } && action matches RunAction::Succeed {
            notice,
            ..
        } && opt_text(notice.zip_path) == Some(zip_path@),
{
}

/// Every end of a download is notified, success or failure alike: a step
/// that ends the download carries a `download_finished` notice whose status
/// says how it ended; the other steps carry on.
pub proof fn law_end_is_notified(b: DownloadRun, event: RunEvent, a: DownloadRun, action: RunAction)
    requires
        run_step(b, event, a, action),
    ensures
        match action {
            RunAction::Fail { notice, .. } => notice.event@ == "download_finished"@ && notice.status@
                == "failed"@ && notice.reason is Some,
            RunAction::Succeed { notice, .. } => notice.event@ == "download_finished"@
                && notice.status@ == "success"@,
            _ => true,
        },
{
}

/// What follows a failed fetch of one image.
pub enum FetchStep {
    /// Wait this many seconds, then fetch the image again.
    RetryAfter(u64),
    /// Stop: the image could not be downloaded, for this reason.
    GiveUp(String),
}

/// After the failed fetch number `attempt` (from 0) of an image that may be
/// retried `retry_count` times: wait one second more than the attempt
/// number and fetch again while retries are left, else give up with a
/// reason naming the comic, the image, the retries made and the last error.
pub fn after_fetch_failure(
    attempt: usize,
    retry_count: usize,
    comic_title: &str,
    url: &str,
    error: &str,
) -> (r: FetchStep)
    ensures
        (r is RetryAfter) == (fetch_attempt_after_failures(attempt as nat, retry_count as nat, 1) is Some),
        attempt < retry_count ==> r == FetchStep::RetryAfter((attempt + 1) as u64),
        attempt >= retry_count ==> (r matches FetchStep::GiveUp(why) && why@ == "下载 `"@ + comic_title@
            + "` 的图片 `"@ + url@ + "` 失败，已重试 "@ + nat_decimal(retry_count as nat) + " 次: "@
            + error@),
{
    assert(fetch_attempt_after_failures(attempt as nat, retry_count as nat, 0) == Some(attempt as nat));
    if attempt < retry_count {
        FetchStep::RetryAfter(attempt as u64 + 1)
    } else {
        let mut why = joined("下载 `", comic_title, "` 的图片 `");
        push_str(&mut why, url);
        push_str(&mut why, "` 失败，已重试 ");
        push_str(&mut why, usize_to_string(retry_count).as_str());
        push_str(&mut why, " 次: ");
        push_str(&mut why, error);
        FetchStep::GiveUp(why)
    }
}

/// The fetches of one image, `n` failures in a row after the first fetch
/// number `attempt`: `Some(next attempt)` while it retries, `None` once it
/// gives up.
pub open spec fn fetch_attempt_after_failures(attempt: nat, retry_count: nat, n: nat) -> Option<nat>
    decreases n,
{
    if n == 0 {
        Some(attempt)
    } else {
        match fetch_attempt_after_failures(attempt, retry_count, (n - 1) as nat) {
            Some(a) => if a < retry_count {
                Some(a + 1)
            } else {
                None
            },
            None => None,
        }
    }
}

/// An image is fetched at most `retry_count + 1` times: from the first
/// fetch, the `n`-th failure in a row leads to another fetch exactly when
/// `n` is at most `retry_count`.
pub proof fn law_image_fetch_budget(retry_count: nat, n: nat)
    ensures
        fetch_attempt_after_failures(0, retry_count, n) == if n <= retry_count {
            Some(n)
        } else {
            None::<nat>
        },
    decreases n,
{
    if n > 0 {
        law_image_fetch_budget(retry_count, (n - 1) as nat);
    }
}

/// Why a download attempt is incomplete: nothing when every image was
/// saved; else the first failure (in the order the image downloads ended).
pub fn incomplete_download_reason(failures: &Vec<String>) -> (r: Option<String>)
    ensures
        match r {
            None => failures@.len() == 0,
            Some(why) => failures@.len() > 0 && why@ == "漫画下载不完整: "@ + failures@[0]@,
        },
{
    if failures.len() == 0 {
        None
    } else {
        Some(joined2("漫画下载不完整: ", failures[0].as_str()))
    }
}

} // verus!
