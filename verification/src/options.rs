//! The downloader's settings: its configuration file, the options of one
//! download, and what a failed download reports.

use vstd::prelude::*;
use crate::images::DownloadFormat;
use crate::text::push_str;

verus! {

/// The downloader's configuration file.
pub struct CliConfig {
    pub webhook_url: Option<String>,
    pub bark_url: Option<String>,
    pub default_download_dir: Option<String>,
    pub default_img_concurrency: Option<usize>,
    pub default_img_interval_sec: Option<u64>,
    pub default_img_retry_count: Option<usize>,
    pub default_task_retry_count: Option<usize>,
}

impl CliConfig {
    /// A configuration that sets nothing (used when there is no file).
    pub fn empty() -> (c: Self)
        ensures
            c.webhook_url is None,
            c.bark_url is None,
            c.default_download_dir is None,
            c.default_img_concurrency is None,
            c.default_img_interval_sec is None,
            c.default_img_retry_count is None,
            c.default_task_retry_count is None,
    {
        CliConfig {
            webhook_url: None,
            bark_url: None,
            default_download_dir: None,
            default_img_concurrency: None,
            default_img_interval_sec: None,
            default_img_retry_count: None,
            default_task_retry_count: None,
        }
    }
}

/// The options of one download.
pub struct DownloadOptions {
    pub download_dir: String,
    pub format: DownloadFormat,
    pub img_concurrency: usize,
    pub img_interval_sec: u64,
    pub img_retry_count: usize,
    pub task_retry_count: usize,
    pub use_original_filename: bool,
}

/// The value of an option: the configured one when set, else the given one.
pub open spec fn configured_or<T>(configured: Option<T>, given: T) -> T {
    match configured {
        Some(v) => v,
        None => given,
    }
}

/// The number of images downloaded at a time when neither the request nor
/// the configuration file says.
pub open spec fn default_img_concurrency() -> usize {
    10
}

/// The pause after each image, in seconds, when neither the request nor the
/// configuration file says.
pub open spec fn default_img_interval_sec() -> u64 {
    1
}

/// The options of a download: a concurrency or interval given with the
/// request wins; the configuration file's `default_*` values fill in when
/// none is given, and 10 images at a time, 1 second apart, when neither
/// says; at least one image is downloaded at a time; images are retried
/// twice and the download once unless configured otherwise.
pub fn download_options(
    config: &CliConfig,
    download_dir: String,
    format: DownloadFormat,
    img_concurrency: Option<usize>,
    img_interval_sec: Option<u64>,
    use_original_filename: bool,
) -> (o: DownloadOptions)
    ensures
        o.download_dir == download_dir,
        o.format == format,
        o.img_concurrency == ({
            let n = match img_concurrency {
                Some(n) => n,
                None => configured_or(config.default_img_concurrency, default_img_concurrency()),
            };
            if n >= 1 {
                n
            } else {
                1
            }
        }),
        o.img_interval_sec == match img_interval_sec {
            Some(s) => s,
            None => configured_or(config.default_img_interval_sec, default_img_interval_sec()),
        },
        o.img_retry_count == configured_or(config.default_img_retry_count, 2),
        o.task_retry_count == configured_or(config.default_task_retry_count, 1),
        o.use_original_filename == use_original_filename,
{
    let concurrency = match img_concurrency {
        Some(n) => n,
        None => match config.default_img_concurrency {
            Some(c) => c,
            None => 10,
        },
    };
    DownloadOptions {
        download_dir,
        format,
        img_concurrency: if concurrency >= 1 { concurrency } else { 1 },
        img_interval_sec: match img_interval_sec {
            Some(s) => s,
            None => match config.default_img_interval_sec {
                Some(s) => s,
                None => 1,
            },
        },
        img_retry_count: match config.default_img_retry_count {
            Some(n) => n,
            None => 2,
        },
        task_retry_count: match config.default_task_retry_count {
            Some(n) => n,
            None => 1,
        },
        use_original_filename,
    }
}

/// The directory to download to, when one is given or configured (the
/// command line's wins); `None` leaves the choice to the caller.
pub fn resolve_download_dir(download_dir: Option<String>, config: &CliConfig) -> (r: Option<String>)
    ensures
        r == match download_dir {
            Some(d) => Some(d),
            None => config.default_download_dir,
        },
{
    match download_dir {
        Some(d) => Some(d),
        None => match &config.default_download_dir {
            Some(d) => Some(d.clone()),
            None => None,
        },
    }
}

/// The reason a failed download reports: its cause, and where the partial
/// download is kept for resuming, if anywhere.
pub fn failure_reason(reason: &str, resume_dir: Option<&str>) -> (r: String)
    ensures
        r@ == match resume_dir {
            Some(d) => reason@ + "。临时目录已保留，可续传："@ + d@,
            None => reason@,
        },
{
    let mut r = String::from_str(reason);
    if let Some(d) = resume_dir {
        push_str(&mut r, "。临时目录已保留，可续传：");
        push_str(&mut r, d);
    }
    r
}

/// The directory a failed download keeps: the temporary one, else the final
/// one.
pub fn resume_dir<'a>(temp_dir: Option<&'a str>, final_dir: Option<&'a str>) -> (r: Option<&'a str>)
    ensures
        r == match temp_dir {
            Some(t) => Some(t),
            None => final_dir,
        },
{
    match temp_dir {
        Some(t) => Some(t),
        None => final_dir,
    }
}

} // verus!
