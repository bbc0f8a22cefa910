use wnacg_downloader::commands::{
    library_order, save_config_effects, AppSettings, FileLoggerChange, LibraryEntry,
};
use wnacg_downloader::images::{saved_image_names, DownloadFormat};
use wnacg_downloader::site::ProxyMode;

fn settings(mode: ProxyMode, host: &str, port: u16, logger: bool) -> AppSettings {
    AppSettings { proxy_mode: mode, proxy_host: host.to_string(), proxy_port: port, enable_file_logger: logger }
}

#[test]
fn saving_unchanged_settings_does_nothing_else() {
    let a = settings(ProxyMode::Custom, "127.0.0.1", 7890, true);
    let b = settings(ProxyMode::Custom, "127.0.0.1", 7890, true);
    let e = save_config_effects(&a, &b);
    assert!(!e.reload_client);
    assert_eq!(e.file_logger, FileLoggerChange::Keep);
}

#[test]
fn proxy_and_logger_changes_are_acted_on() {
    let a = settings(ProxyMode::System, "127.0.0.1", 7890, false);
    assert!(save_config_effects(&a, &settings(ProxyMode::NoProxy, "127.0.0.1", 7890, false)).reload_client);
    assert!(save_config_effects(&a, &settings(ProxyMode::System, "localhost", 7890, false)).reload_client);
    assert!(save_config_effects(&a, &settings(ProxyMode::System, "127.0.0.1", 1080, false)).reload_client);
    assert_eq!(
        save_config_effects(&a, &settings(ProxyMode::System, "127.0.0.1", 7890, true)).file_logger,
        FileLoggerChange::Reload
    );
    assert_eq!(
        save_config_effects(&settings(ProxyMode::System, "h", 1, true), &settings(ProxyMode::System, "h", 1, false))
            .file_logger,
        FileLoggerChange::Disable
    );
}

fn entry(name: &str, modified: Option<u128>) -> LibraryEntry {
    LibraryEntry { name: name.to_string(), metadata_modified: modified }
}

#[test]
fn library_lists_finished_downloads_newest_first() {
    let entries = vec![
        entry("A", Some(10)),
        entry(".下载中-B", Some(99)),
        entry("C", None),
        entry("D", Some(30)),
        entry("E", Some(10)),
        entry("F", Some(20)),
    ];
    assert_eq!(library_order(&entries), vec![3, 5, 0, 4]);
    assert_eq!(library_order(&Vec::new()), Vec::<usize>::new());
}

#[test]
fn resumed_download_skips_images_saved_in_format_or_as_gif() {
    assert_eq!(saved_image_names("0001", DownloadFormat::Jpeg), vec!["0001.jpg", "0001.gif"]);
    assert_eq!(saved_image_names("x", DownloadFormat::Webp), vec!["x.webp", "x.gif"]);
    assert!(saved_image_names("0001", DownloadFormat::Original).is_empty());
}
