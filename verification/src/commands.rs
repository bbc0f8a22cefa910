//! The decisions behind the desktop app's commands.

use vstd::prelude::*;
use crate::naming::{is_temp_download_dir, partial_mark};
use crate::site::ProxyMode;
use crate::text::{push_str, starts_with, str_equal};

verus! {

/// The greeting of the app's demo command.
pub fn greet(name: &str) -> (r: String)
    ensures
        r@ == "Hello, "@ + name@ + "! You've been greeted from Rust!"@,
{
    let mut r = String::from_str("Hello, ");
    push_str(&mut r, name);
    push_str(&mut r, "! You've been greeted from Rust!");
    r
}

/// A comic on a user's shelf.
pub struct ShelfComic {
    pub id: i64,
    pub title: String,
    pub is_downloaded: bool,
}

/// The shelf pages fetched after the first: `2..=page_count`.
pub fn remaining_shelf_pages(page_count: i64) -> (r: Vec<i64>)
    ensures
        r@.len() == if page_count >= 2 {
            (page_count - 1) as nat
        } else {
            0
        },
        forall|i: int| 0 <= i < r@.len() ==> r@[i] == i + 2,
{
    let mut r: Vec<i64> = Vec::new();
    if page_count < 2 {
        return r;
    }
    let mut k: i64 = 0;
    while k < page_count - 1
        invariant
            0 <= k <= page_count - 1,
            r@.len() == k,
            forall|i: int| 0 <= i < r@.len() ==> r@[i] == i + 2,
        decreases page_count - 1 - k,
    {
        r.push(k + 2);
        k = k + 1;
    }
    r
}

/// The shelf comics still to download, in shelf order: those not
/// downloaded yet.
pub fn comics_to_download(comics: Vec<ShelfComic>) -> (r: Vec<ShelfComic>)
    ensures
        r@ == comics@.filter(|c: ShelfComic| !c.is_downloaded),
{
    let ghost all = comics@;
    let mut r: Vec<ShelfComic> = Vec::new();
    for c in it: comics.into_iter()
        invariant
            it.seq() == all,
            r@ == all.take(it.index() as int).filter(|c: ShelfComic| !c.is_downloaded),
    {
        let ghost k = it.index();
        assert(all.take(k + 1).drop_last() =~= all.take(k as int));
        proof {
            reveal_with_fuel(Seq::filter, 1);
        }
        if !c.is_downloaded {
            r.push(c);
        }
        assert(r@ =~= all.take(k + 1).filter(|c: ShelfComic| !c.is_downloaded));
    }
    assert(all.take(all.len() as int) =~= all);
    r
}

/// The settings of the desktop app that saving its configuration acts on.
pub struct AppSettings {
    pub proxy_mode: ProxyMode,
    pub proxy_host: String,
    pub proxy_port: u16,
    pub enable_file_logger: bool,
}

/// What becomes of the file logger when the configuration is saved.
#[derive(Debug, Clone, Copy, PartialEq, Eq, Structural)]
pub enum FileLoggerChange {
    /// The setting did not change.
    Keep,
    /// File logging was turned on: the file logger is reloaded.
    Reload,
    /// File logging was turned off: the file logger is disabled.
    Disable,
}

/// What saving a configuration does besides storing it.
pub struct SaveEffects {
    /// The proxy changed: the site's HTTP clients are rebuilt.
    pub reload_client: bool,
    pub file_logger: FileLoggerChange,
}

/// Whether the proxy settings differ.
pub open spec fn proxy_changed(old: AppSettings, new: AppSettings) -> bool {
    old.proxy_mode != new.proxy_mode || old.proxy_host@ != new.proxy_host@ || old.proxy_port
        != new.proxy_port
}

/// What becomes of the file logger when `old` is replaced by `new`.
pub open spec fn file_logger_change(old: AppSettings, new: AppSettings) -> FileLoggerChange {
    if old.enable_file_logger == new.enable_file_logger {
        FileLoggerChange::Keep
    } else if new.enable_file_logger {
        FileLoggerChange::Reload
    } else {
        FileLoggerChange::Disable
    }
}

/// What saving the configuration `new` over `old` does: the HTTP clients are
/// rebuilt when the proxy mode, host or port changed, and the file logger
/// follows a change of its switch.
pub fn save_config_effects(old: &AppSettings, new: &AppSettings) -> (r: SaveEffects)
    ensures
        r.reload_client == proxy_changed(*old, *new),
        r.file_logger == file_logger_change(*old, *new),
{
    let reload_client = old.proxy_mode != new.proxy_mode || !str_equal(
        old.proxy_host.as_str(),
        new.proxy_host.as_str(),
    ) || old.proxy_port != new.proxy_port;
    let file_logger = if old.enable_file_logger == new.enable_file_logger {
        FileLoggerChange::Keep
    } else if new.enable_file_logger {
        FileLoggerChange::Reload
    } else {
        FileLoggerChange::Disable
    };
    SaveEffects { reload_client, file_logger }
}

/// A folder of the download directory, as the library of downloaded comics
/// sees it.
pub struct LibraryEntry {
    pub name: String,
    /// When the folder's metadata file was last modified (nanoseconds since
    /// the Unix epoch); `None` when it has none.
    pub metadata_modified: Option<u128>,
}

/// A folder listed in the library: a finished download with a metadata file.
pub open spec fn listed(e: LibraryEntry) -> bool {
    !starts_with(e.name@, partial_mark()) && e.metadata_modified is Some
}

/// The modification time of a listed folder's metadata.
pub open spec fn modified(e: LibraryEntry) -> u128 {
    e.metadata_modified.unwrap()
}

/// Entry `i` comes before entry `j` in the library: its metadata is newer,
/// or as new and it came first in the directory.
pub open spec fn listed_before(es: Seq<LibraryEntry>, i: int, j: int) -> bool {
    modified(es[i]) > modified(es[j]) || (modified(es[i]) == modified(es[j]) && i < j)
}

/// Whether entry `i`'s metadata is at least as new as `t`.
fn not_older(entries: &Vec<LibraryEntry>, i: usize, t: u128) -> (b: bool)
    requires
        i < entries@.len(),
        listed(entries@[i as int]),
    ensures
        b == (modified(entries@[i as int]) >= t),
{
    match entries[i].metadata_modified {
        Some(m) => m >= t,
        None => false,
    }
}

/// The library of downloaded comics, as indices into the directory's
/// entries: every finished download with a metadata file (folders of
/// downloads in progress left out), newest metadata first, folders whose
/// metadata is as new in directory order.
pub fn library_order(entries: &Vec<LibraryEntry>) -> (r: Vec<usize>)
    ensures
        forall|i: int| 0 <= i < r@.len() ==> r@[i] < entries@.len() && listed(entries@[r@[i] as int]),
        forall|k: int|
            0 <= k < entries@.len() && listed(#[trigger] entries@[k]) ==> exists|i: int|
                0 <= i < r@.len() && r@[i] == k,
        forall|i: int, j: int|
            0 <= i < j < r@.len() ==> listed_before(entries@, r@[i] as int, r@[j] as int),
{
    let mut r: Vec<usize> = Vec::new();
    let mut k: usize = 0;
    while k < entries.len()
        invariant
            k <= entries@.len(),
            forall|i: int| 0 <= i < r@.len() ==> r@[i] < k && listed(entries@[r@[i] as int]),
            forall|m: int|
                0 <= m < k && listed(#[trigger] entries@[m]) ==> exists|i: int|
                    0 <= i < r@.len() && r@[i] == m,
            forall|i: int, j: int|
                0 <= i < j < r@.len() ==> listed_before(entries@, r@[i] as int, r@[j] as int),
        decreases entries@.len() - k,
    {
        let temp = is_temp_download_dir(entries[k].name.as_str());
        let t: Option<u128> = if temp {
            None
        } else {
            entries[k].metadata_modified
        };
        if let Some(t) = t {
            assert(listed(entries@[k as int]));
            let mut p: usize = 0;
            while p < r.len() && not_older(entries, r[p], t)
                invariant
                    p <= r@.len(),
                    k < entries@.len(),
                    forall|i: int| 0 <= i < r@.len() ==> r@[i] < k && listed(entries@[r@[i] as int]),
                    forall|i: int| 0 <= i < p ==> modified(entries@[r@[i] as int]) >= t,
                decreases r@.len() - p,
            {
                p = p + 1;
            }
            let ghost old_r = r@;
            assert(forall|j: int| p <= j < old_r.len() ==> modified(entries@[old_r[j] as int]) < t)
                by {
                assert forall|j: int| p <= j < old_r.len() implies modified(
                    entries@[old_r[j] as int],
                ) < t by {
                    if j > p {
                        assert(listed_before(entries@, old_r[p as int] as int, old_r[j] as int));
                    }
                }
            }
            r.insert(p, k);
            assert(r@ == old_r.insert(p as int, k));
            assert forall|i: int, j: int| 0 <= i < j < r@.len() implies listed_before(
                entries@,
                r@[i] as int,
                r@[j] as int,
            ) by {
                if j < p {
                    assert(r@[i] == old_r[i] && r@[j] == old_r[j]);
                } else if j == p {
                    assert(r@[i] == old_r[i]);
                } else if i < p {
                    assert(r@[i] == old_r[i] && r@[j] == old_r[j - 1]);
                    assert(listed_before(entries@, old_r[i] as int, old_r[j - 1] as int));
                } else if i == p {
                    assert(r@[j] == old_r[j - 1]);
                } else {
                    assert(r@[i] == old_r[i - 1] && r@[j] == old_r[j - 1]);
                    assert(listed_before(entries@, old_r[i - 1] as int, old_r[j - 1] as int));
                }
            }
            assert forall|m: int|
                0 <= m < k + 1 && listed(#[trigger] entries@[m]) implies exists|i: int|
                0 <= i < r@.len() && r@[i] == m by {
                if m == k {
                    assert(r@[p as int] == k);
                } else {
                    let i0 = choose|i: int| 0 <= i < old_r.len() && old_r[i] == m;
                    if i0 < p {
                        assert(r@[i0] == m);
                    } else {
                        assert(r@[i0 + 1] == m);
                    }
                }
            }
        } else {
            assert(!listed(entries@[k as int])) by {
                if !temp {
                    assert(entries@[k as int].metadata_modified is None);
                }
            }
        }
        k = k + 1;
    }
    r
}

} // verus!
