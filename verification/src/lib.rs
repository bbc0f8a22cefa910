//! Verified core of a downloader for wnacg comics: comic-id extraction,
//! file naming, page scraping helpers, download-task bookkeeping and
//! notification messages.

pub mod text;
pub mod comic_id;
pub mod naming;
pub mod tasks;
pub mod query;
pub mod images;
pub mod img_list;
pub mod notify;
pub mod errors;
pub mod site;
pub mod options;
pub mod commands;
pub mod report;
pub mod download_run;
pub mod listing;
