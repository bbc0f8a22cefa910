//! The addresses of the comic site's pages and of the task API, the answer
//! to a login, and the settings of a download.

use vstd::prelude::*;
use crate::comic_id::{aid_marker, comic_id_of, law_comic_id_after_marker, ComicIdError};
use crate::images::DownloadFormat;
use crate::text::{
    find_first, lemma_find_from, occurs_at, i64_to_string, int_decimal, nat_decimal, push_str, trim_end_char,
    trim_end_slashes, u64_to_string, usize_to_string,
};

verus! {

/// `https://<domain>/<path>`.
pub open spec fn site_url(domain: Seq<char>, path: Seq<char>) -> Seq<char> {
    "https://"@ + domain + "/"@ + path
}

/// `https://<domain>/<path>`.
fn site_url_of(domain: &str, path: &str) -> (r: String)
    ensures
        r@ == site_url(domain@, path@),
{
    let mut r = String::from_str("https://");
    push_str(&mut r, domain);
    push_str(&mut r, "/");
    push_str(&mut r, path);
    r
}

/// The referer sent with every request to the site: its home page.
pub fn referer_url(domain: &str) -> (r: String)
    ensures
        r@ == site_url(domain@, ""@),
{
    site_url_of(domain, "")
}

/// The keyword search page.
pub fn search_url(domain: &str) -> (r: String)
    ensures
        r@ == site_url(domain@, "search/index.php"@),
{
    site_url_of(domain, "search/index.php")
}

/// The query of a keyword search: newest first, searching all fields.
pub fn search_query_pairs(keyword: &str, page_num: i64) -> (r: Vec<(String, String)>)
    ensures
        r@.len() == 5,
        r@[0].0@ == "q"@ && r@[0].1@ == keyword@,
        r@[1].0@ == "syn"@ && r@[1].1@ == "yes"@,
        r@[2].0@ == "f"@ && r@[2].1@ == "_all"@,
        r@[3].0@ == "s"@ && r@[3].1@ == "create_time_DESC"@,
        r@[4].0@ == "p"@ && r@[4].1@ == int_decimal(page_num as int),
{
    let mut r: Vec<(String, String)> = Vec::new();
    r.push((String::from_str("q"), String::from_str(keyword)));
    r.push((String::from_str("syn"), String::from_str("yes")));
    r.push((String::from_str("f"), String::from_str("_all")));
    r.push((String::from_str("s"), String::from_str("create_time_DESC")));
    r.push((String::from_str("p"), i64_to_string(page_num)));
    r
}

/// The path of the `page`-th page of the comics with tag `tag`.
pub open spec fn tag_page_path(page: i64, tag: Seq<char>) -> Seq<char> {
    "albums-index-page-"@ + int_decimal(page as int) + "-tag-"@ + tag + ".html"@
}

/// The `page`-th page of the comics with tag `tag`.
pub fn tag_search_url(domain: &str, page_num: i64, tag: &str) -> (r: String)
    ensures
        r@ == site_url(domain@, tag_page_path(page_num, tag@)),
{
    let mut path = String::from_str("albums-index-page-");
    push_str(&mut path, i64_to_string(page_num).as_str());
    push_str(&mut path, "-tag-");
    push_str(&mut path, tag);
    push_str(&mut path, ".html");
    site_url_of(domain, path.as_str())
}

/// The path of a page named `<prefix><id>.html`.
pub open spec fn id_page_path(prefix: Seq<char>, id: i64) -> Seq<char> {
    prefix + int_decimal(id as int) + ".html"@
}

/// `https://<domain>/<prefix><id>.html`.
fn id_page_url(domain: &str, prefix: &str, id: i64) -> (r: String)
    ensures
        r@ == site_url(domain@, id_page_path(prefix@, id)),
{
    let mut path = String::from_str(prefix);
    push_str(&mut path, i64_to_string(id).as_str());
    push_str(&mut path, ".html");
    site_url_of(domain, path.as_str())
}

/// The detail page of a comic.
pub fn comic_url(domain: &str, id: i64) -> (r: String)
    ensures
        r@ == site_url(domain@, id_page_path("photos-index-aid-"@, id)),
{
    id_page_url(domain, "photos-index-aid-", id)
}

/// The gallery page of a comic, which lists its images.
pub fn gallery_url(domain: &str, id: i64) -> (r: String)
    ensures
        r@ == site_url(domain@, id_page_path("photos-gallery-aid-"@, id)),
{
    id_page_url(domain, "photos-gallery-aid-", id)
}

/// The `page`-th page of the user's shelf `shelf_id`.
pub fn shelf_url(domain: &str, page_num: i64, shelf_id: i64) -> (r: String)
    ensures
        r@ == site_url(
            domain@,
            "users-users_fav-page-"@ + int_decimal(page_num as int) + "-c-"@ + int_decimal(
                shelf_id as int,
            ) + ".html"@,
        ),
{
    let mut path = String::from_str("users-users_fav-page-");
    push_str(&mut path, i64_to_string(page_num).as_str());
    push_str(&mut path, "-c-");
    push_str(&mut path, i64_to_string(shelf_id).as_str());
    push_str(&mut path, ".html");
    site_url_of(domain, path.as_str())
}

/// The user's profile page.
pub fn user_profile_url(domain: &str) -> (r: String)
    ensures
        r@ == site_url(domain@, "users.html"@),
{
    site_url_of(domain, "users.html")
}

/// The login endpoint.
pub fn login_url(domain: &str) -> (r: String)
    ensures
        r@ == site_url(domain@, "users-check_login.html"@),
{
    site_url_of(domain, "users-check_login.html")
}

/// The address of an HTTP proxy at `host:port`.
pub fn custom_proxy_url(host: &str, port: u16) -> (r: String)
    ensures
        r@ == "http://"@ + host@ + ":"@ + nat_decimal(port as nat),
{
    let mut r = String::from_str("http://");
    push_str(&mut r, host);
    push_str(&mut r, ":");
    push_str(&mut r, u64_to_string(port as u64).as_str());
    r
}

/// How the desktop app reaches the site.
#[derive(Debug, Clone, Copy, PartialEq, Eq, Structural)]
pub enum ProxyMode {
    /// Use the system's proxy settings.
    System,
    /// Connect directly.
    NoProxy,
    /// Use the configured HTTP proxy.
    Custom,
}

/// The proxy a client is built with.
pub enum ProxySetting {
    System,
    Direct,
    /// The proxy at this address; when the address is refused, the client
    /// connects directly.
    Custom(String),
}

/// The proxy a client is built with under `mode`.
pub fn proxy_setting(mode: ProxyMode, host: &str, port: u16) -> (r: ProxySetting)
    ensures
        mode == ProxyMode::System ==> r is System,
        mode == ProxyMode::NoProxy ==> r is Direct,
        mode == ProxyMode::Custom ==> (r matches ProxySetting::Custom(u) && u@ == "http://"@ + host@
            + ":"@ + nat_decimal(port as nat)),
{
    match mode {
        ProxyMode::System => ProxySetting::System,
        ProxyMode::NoProxy => ProxySetting::Direct,
        ProxyMode::Custom => ProxySetting::Custom(custom_proxy_url(host, port)),
    }
}

// ---------------------------------------------------------------------------
// Login
// ---------------------------------------------------------------------------

/// The site's answer to a login request.
pub struct LoginResp {
    pub ret: bool,
    pub html: String,
}

/// Why a login failed.
#[derive(Debug, Clone, Copy, PartialEq, Eq, Structural)]
pub enum LoginError {
    /// The site refused the credentials.
    Refused,
    /// The answer set no cookie.
    NoCookie,
}

/// The cookie a login gives: the answer's `set-cookie` header, when the
/// site accepted the credentials.
pub fn login_cookie(resp: &LoginResp, set_cookie: Option<String>) -> (r: Result<String, LoginError>)
    ensures
        !resp.ret ==> r == Err::<String, LoginError>(LoginError::Refused),
        resp.ret ==> match set_cookie {
            Some(c) => r == Ok::<String, LoginError>(c),
            None => r == Err::<String, LoginError>(LoginError::NoCookie),
        },
{
    if !resp.ret {
        return Err(LoginError::Refused);
    }
    match set_cookie {
        Some(c) => Ok(c),
        None => Err(LoginError::NoCookie),
    }
}

// ---------------------------------------------------------------------------
// The task API
// ---------------------------------------------------------------------------

/// The task list, or one task, of the task API at `base`.
pub fn task_api_url(base: &str, task_id: Option<&str>) -> (r: String)
    ensures
        r@ == trim_end_char(base@, '/') + match task_id {
            Some(id) => "/tasks/"@ + id@,
            None => "/tasks"@,
        },
{
    let mut r = trim_end_slashes(base);
    match task_id {
        Some(id) => {
            push_str(&mut r, "/tasks/");
            push_str(&mut r, id);
        },
        None => push_str(&mut r, "/tasks"),
    }
    r
}

/// The endpoint of the task API at `base` that starts a download.
pub fn download_start_url(base: &str) -> (r: String)
    ensures
        r@ == trim_end_char(base@, '/') + "/download/start"@,
{
    let mut r = trim_end_slashes(base);
    push_str(&mut r, "/download/start");
    r
}

/// A download as the downloader's command line asks for it.
pub struct DownloadRequest {
    pub target: String,
    pub format: DownloadFormat,
    /// Images at a time, when given.
    pub img_concurrency: Option<usize>,
    /// Seconds between images, when given.
    pub img_interval_sec: Option<u64>,
    pub use_original_filename: bool,
    pub api_domain: String,
    pub proxy: Option<String>,
    pub download_dir: Option<String>,
    pub config: Option<String>,
}

/// The texts of query pairs.
pub open spec fn pair_texts(v: Seq<(String, String)>) -> Seq<(Seq<char>, Seq<char>)> {
    v.map_values(|p: (String, String)| (p.0@, p.1@))
}

/// `(key, value)` when the value is set, else nothing.
pub open spec fn optional_pair(key: Seq<char>, value: Option<String>) -> Seq<(Seq<char>, Seq<char>)> {
    match value {
        Some(v) => seq![(key, v@)],
        None => Seq::empty(),
    }
}

/// `(key, decimal text of the value)` when the value is set, else nothing.
pub open spec fn optional_number_pair(key: Seq<char>, value: Option<nat>) -> Seq<(Seq<char>, Seq<char>)> {
    match value {
        Some(n) => seq![(key, nat_decimal(n))],
        None => Seq::empty(),
    }
}

/// The name of a download format on the command line.
pub open spec fn format_cli_name(f: DownloadFormat) -> Seq<char> {
    match f {
        DownloadFormat::Jpeg => "jpeg"@,
        DownloadFormat::Png => "png"@,
        DownloadFormat::Webp => "webp"@,
        DownloadFormat::Original => "original"@,
    }
}

/// The query with which the downloader hands a download to the task API.
pub open spec fn download_task_query(r: DownloadRequest) -> Seq<(Seq<char>, Seq<char>)> {
    seq![
        ("target"@, r.target@),
        ("format"@, format_cli_name(r.format)),
    ] + optional_number_pair(
        "img_concurrency"@,
        match r.img_concurrency {
            Some(n) => Some(n as nat),
            None => None,
        },
    ) + optional_number_pair(
        "img_interval_sec"@,
        match r.img_interval_sec {
            Some(n) => Some(n as nat),
            None => None,
        },
    ) + (if r.use_original_filename {
        seq![("use_original_filename"@, "true"@)]
    } else {
        Seq::empty()
    }) + seq![("api_domain"@, r.api_domain@)] + optional_pair("proxy"@, r.proxy)
        + optional_pair("download_dir"@, r.download_dir) + optional_pair("config"@, r.config)
}

/// Appends a query pair.
fn push_pair(v: &mut Vec<(String, String)>, key: &str, value: String)
    ensures
        pair_texts(final(v)@) == pair_texts(old(v)@).push((key@, value@)),
{
    v.push((String::from_str(key), value));
    assert(pair_texts(final(v)@) =~= pair_texts(old(v)@).push((key@, value@)));
}

/// Appends `(key, value)` when the value is set.
fn push_optional_pair(v: &mut Vec<(String, String)>, key: &str, value: &Option<String>)
    ensures
        pair_texts(final(v)@) == pair_texts(old(v)@) + optional_pair(key@, *value),
{
    match value {
        Some(s) => push_pair(v, key, s.clone()),
        None => {},
    }
    assert(pair_texts(final(v)@) =~= pair_texts(old(v)@) + optional_pair(key@, *value));
}

/// The query with which the downloader hands a download to the task API.
pub fn download_task_query_pairs(req: &DownloadRequest) -> (r: Vec<(String, String)>)
    ensures
        pair_texts(r@) == download_task_query(*req),
{
    let mut v: Vec<(String, String)> = Vec::new();
    push_pair(&mut v, "target", req.target.clone());
    push_pair(&mut v, "format", String::from_str(req.format.cli_name()));
    if let Some(n) = req.img_concurrency {
        push_pair(&mut v, "img_concurrency", usize_to_string(n));
    }
    if let Some(n) = req.img_interval_sec {
        push_pair(&mut v, "img_interval_sec", u64_to_string(n));
    }
    if req.use_original_filename {
        push_pair(&mut v, "use_original_filename", String::from_str("true"));
    }
    push_pair(&mut v, "api_domain", req.api_domain.clone());
    push_optional_pair(&mut v, "proxy", &req.proxy);
    push_optional_pair(&mut v, "download_dir", &req.download_dir);
    push_optional_pair(&mut v, "config", &req.config);
    assert(pair_texts(v@) =~= download_task_query(*req));
    v
}


/// The comic id read from a comic's detail-page URL is the comic's id (for
/// every non-negative id and every domain without `aid-` in it).
pub proof fn law_comic_url_gives_id(domain: Seq<char>, id: i64)
    requires
        id >= 0,
        find_first(domain, aid_marker()) is None,
    ensures
        comic_id_of(site_url(domain, id_page_path("photos-index-aid-"@, id))) == Ok::<
            i64,
            ComicIdError,
        >(id),
{
    reveal_strlit("https://");
    reveal_strlit("/");
    reveal_strlit("photos-index-aid-");
    reveal_strlit("/photos-index-");
    reveal_strlit("aid-");
    reveal_strlit(".html");
    let head: Seq<char> = "https://"@;
    let tail: Seq<char> = "/photos-index-"@;
    let prefix = head + domain + tail;
    let m = aid_marker();
    let n = head.len() + domain.len();
    lemma_find_from(domain, m, 0);
    lemma_find_from(prefix, m, 0);
    assert forall|j: int| 0 <= j implies !occurs_at(prefix, m, j) by {
        if occurs_at(prefix, m, j) {
            assert(prefix.subrange(j, j + 4)[0] == prefix[j]);
            assert(prefix[j] == 'a');
            if j < head.len() {
                assert(prefix[j] == head[j]);
            } else if j < n {
                if j + 4 <= n {
                    assert(domain.subrange(j - 8, j - 4) =~= prefix.subrange(j, j + 4));
                    assert(occurs_at(domain, m, j - 8));
                } else {
                    assert(prefix[n as int] == '/');
                    assert(prefix.subrange(j, j + 4)[n - j] == prefix[n as int]);
                }
            } else {
                assert(prefix[j] == tail[j - n]);
            }
        }
    }
    assert(find_first(prefix, m) is None);
    assert(site_url(domain, id_page_path("photos-index-aid-"@, id)) =~= prefix + m + int_decimal(
        id as int,
    ) + ".html"@);
    law_comic_id_after_marker(prefix, id, ".html"@);
}
/// A download handed to the task API keeps asking for original file names:
/// the query holds the pair `use_original_filename=true` exactly when the
/// request asks for them, and otherwise no pair with that key.
pub proof fn law_query_carries_original_names(r: DownloadRequest)
    ensures
        r.use_original_filename ==> download_task_query(r).contains(
            ("use_original_filename"@, "true"@),
        ),
        !r.use_original_filename ==> forall|i: int|
            0 <= i < download_task_query(r).len() ==> #[trigger] download_task_query(r)[i].0
                != "use_original_filename"@,
{
    reveal_strlit("use_original_filename");
    reveal_strlit("target");
    reveal_strlit("format");
    reveal_strlit("img_concurrency");
    reveal_strlit("img_interval_sec");
    reveal_strlit("api_domain");
    reveal_strlit("proxy");
    reveal_strlit("download_dir");
    reveal_strlit("config");
    let q = download_task_query(r);
    let a = seq![("target"@, r.target@), ("format"@, format_cli_name(r.format))];
    let b = optional_number_pair(
        "img_concurrency"@,
        match r.img_concurrency {
            Some(n) => Some(n as nat),
            None => None,
        },
    );
    let c = optional_number_pair(
        "img_interval_sec"@,
        match r.img_interval_sec {
            Some(n) => Some(n as nat),
            None => None,
        },
    );
    let d: Seq<(Seq<char>, Seq<char>)> = if r.use_original_filename {
        seq![("use_original_filename"@, "true"@)]
    } else {
        Seq::empty()
    };
    let e = seq![("api_domain"@, r.api_domain@)] + optional_pair("proxy"@, r.proxy) + optional_pair(
        "download_dir"@,
        r.download_dir,
    ) + optional_pair("config"@, r.config);
    assert(q =~= a + b + c + d + e);
    let key: Seq<char> = "use_original_filename"@;
    if r.use_original_filename {
        assert(q[(a + b + c).len() as int] == ("use_original_filename"@, "true"@));
    } else {
        let keys = set![
            "target"@,
            "format"@,
            "img_concurrency"@,
            "img_interval_sec"@,
            "api_domain"@,
            "proxy"@,
            "download_dir"@,
            "config"@,
        ];
        assert forall|i: int| 0 <= i < q.len() implies #[trigger] q[i].0 != key by {
            assert(keys.contains(q[i].0));
            assert(q[i].0.len() != key.len());
        }
    }
}

} // verus!
