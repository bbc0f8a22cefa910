//! The command lines that the task API hands to the downloader.

use vstd::prelude::*;
use crate::tasks::texts;
use crate::text::{i64_to_string, int_decimal, nat_decimal, u64_to_string, usize_to_string};

verus! {

/// Options that every downloader command accepts.
pub struct CommonQuery {
    pub api_domain: Option<String>,
    pub proxy: Option<String>,
    pub download_dir: Option<String>,
    pub config: Option<String>,
}

/// A keyword search request of the task API.
pub struct KeywordSearchQuery {
    pub q: String,
    pub page: Option<i64>,
    pub api_domain: Option<String>,
    pub proxy: Option<String>,
    pub download_dir: Option<String>,
    pub config: Option<String>,
}

/// A tag search request of the task API.
pub struct TagSearchQuery {
    pub tag: String,
    pub page: Option<i64>,
    pub api_domain: Option<String>,
    pub proxy: Option<String>,
    pub download_dir: Option<String>,
    pub config: Option<String>,
}

/// A comic or download request of the task API.
pub struct DownloadQuery {
    pub target: String,
    pub format: Option<String>,
    pub img_concurrency: Option<usize>,
    pub img_interval_sec: Option<u64>,
    pub use_original_filename: Option<bool>,
    pub api_domain: Option<String>,
    pub proxy: Option<String>,
    pub download_dir: Option<String>,
    pub config: Option<String>,
}

/// `[flag, value]` when the option is set, else nothing.
pub open spec fn option_args(flag: Seq<char>, value: Option<String>) -> Seq<Seq<char>> {
    match value {
        Some(v) => seq![flag, v@],
        None => Seq::empty(),
    }
}

/// The command-line options for the common options of a request.
pub open spec fn common_args(
    api_domain: Option<String>,
    proxy: Option<String>,
    download_dir: Option<String>,
    config: Option<String>,
) -> Seq<Seq<char>> {
    option_args("--api-domain"@, api_domain) + option_args("--proxy"@, proxy) + option_args(
        "--download-dir"@,
        download_dir,
    ) + option_args("--config"@, config)
}

/// The command line of a comic lookup.
pub open spec fn comic_command(q: DownloadQuery) -> Seq<Seq<char>> {
    seq!["comic"@, "--json"@, q.target@] + common_args(q.api_domain, q.proxy, q.download_dir, q.config)
}

/// The command line of a download.
pub open spec fn download_command(q: DownloadQuery) -> Seq<Seq<char>> {
    seq!["download"@, q.target@] + match q.format {
        Some(f) => seq!["--format"@, f@],
        None => Seq::empty(),
    } + match q.img_concurrency {
        Some(n) => seq!["--img-concurrency"@, nat_decimal(n as nat)],
        None => Seq::empty(),
    } + match q.img_interval_sec {
        Some(n) => seq!["--img-interval-sec"@, nat_decimal(n as nat)],
        None => Seq::empty(),
    } + if q.use_original_filename == Some(true) {
        seq!["--use-original-filename"@]
    } else {
        Seq::empty()
    } + common_args(q.api_domain, q.proxy, q.download_dir, q.config)
}

/// The command line of a search by `mode` (`keyword` or `tag`) for `term`:
/// the search's options, the common options, then the mode and the term
/// (options after the mode would be taken as the mode's own, which it has
/// none of).
pub open spec fn search_command(
    mode: Seq<char>,
    term: Seq<char>,
    page: Option<i64>,
    common: Seq<Seq<char>>,
) -> Seq<Seq<char>> {
    seq![
        "search"@,
        "--json"@,
        "--page"@,
        int_decimal(
            match page {
                Some(p) => p as int,
                None => 1,
            },
        ),
    ] + common + seq![mode, term]
}

/// Appends a string to a list of arguments.
fn push_arg(args: &mut Vec<String>, arg: String)
    ensures
        texts(final(args)@) == texts(old(args)@).push(arg@),
{
    args.push(arg);
    assert(texts(final(args)@) =~= texts(old(args)@).push(arg@));
}

/// Appends `flag value` when the option is set.
fn push_option(args: &mut Vec<String>, flag: &str, value: Option<String>)
    ensures
        texts(final(args)@) == texts(old(args)@) + option_args(flag@, value),
{
    match value {
        Some(v) => {
            push_arg(args, String::from_str(flag));
            push_arg(args, v);
            assert(texts(final(args)@) =~= texts(old(args)@) + option_args(flag@, Some(v)));
        },
        None => {
            assert(texts(final(args)@) =~= texts(old(args)@) + option_args(flag@, None));
        },
    }
}

impl CommonQuery {
    /// Appends the command-line options for these common options.
    pub fn append_cli_args(self, args: &mut Vec<String>)
        ensures
            texts(final(args)@) == texts(old(args)@) + common_args(
                self.api_domain,
                self.proxy,
                self.download_dir,
                self.config,
            ),
    {
        let ghost q = self;
        push_option(args, "--api-domain", self.api_domain);
        push_option(args, "--proxy", self.proxy);
        push_option(args, "--download-dir", self.download_dir);
        push_option(args, "--config", self.config);
        assert(texts(final(args)@) =~= texts(old(args)@) + common_args(
            q.api_domain,
            q.proxy,
            q.download_dir,
            q.config,
        ));
    }
}

/// A copy of an optional string.
fn clone_option(o: &Option<String>) -> (r: Option<String>)
    ensures
        r == *o,
{
    match o {
        Some(s) => Some(s.clone()),
        None => None,
    }
}

impl DownloadQuery {
    /// The common options of the request.
    pub fn common_query(&self) -> (c: CommonQuery)
        ensures
            c.api_domain == self.api_domain,
            c.proxy == self.proxy,
            c.download_dir == self.download_dir,
            c.config == self.config,
    {
        CommonQuery {
            api_domain: clone_option(&self.api_domain),
            proxy: clone_option(&self.proxy),
            download_dir: clone_option(&self.download_dir),
            config: clone_option(&self.config),
        }
    }

    /// The downloader's command line that looks the comic up:
    /// `comic --json <target> [common options]`.
    pub fn comic_args(&self) -> (args: Vec<String>)
        ensures
            texts(args@) == comic_command(*self),
    {
        let mut args: Vec<String> = Vec::new();
        push_arg(&mut args, String::from_str("comic"));
        push_arg(&mut args, String::from_str("--json"));
        push_arg(&mut args, self.target.clone());
        self.common_query().append_cli_args(&mut args);
        proof {
            reveal_strlit("comic");
        }
        assert(texts(args@) =~= comic_command(*self));
        args
    }

    /// The downloader's command line that downloads the comic:
    /// `download <target> [--format f] [--img-concurrency n]
    /// [--img-interval-sec n] [--use-original-filename] [common options]`.
    pub fn download_args(&self) -> (args: Vec<String>)
        ensures
            texts(args@) == download_command(*self),
    {
        let mut args: Vec<String> = Vec::new();
        push_arg(&mut args, String::from_str("download"));
        push_arg(&mut args, self.target.clone());
        if let Some(format) = &self.format {
            push_arg(&mut args, String::from_str("--format"));
            push_arg(&mut args, format.clone());
        }
        if let Some(img_concurrency) = self.img_concurrency {
            push_arg(&mut args, String::from_str("--img-concurrency"));
            push_arg(&mut args, usize_to_string(img_concurrency));
        }
        if let Some(img_interval_sec) = self.img_interval_sec {
            push_arg(&mut args, String::from_str("--img-interval-sec"));
            push_arg(&mut args, u64_to_string(img_interval_sec));
        }
        let use_original = match self.use_original_filename {
            Some(b) => b,
            None => false,
        };
        if use_original {
            push_arg(&mut args, String::from_str("--use-original-filename"));
        }
        self.common_query().append_cli_args(&mut args);
        assert(texts(args@) =~= download_command(*self));
        args
    }
}

impl KeywordSearchQuery {
    /// The downloader's command line for the search:
    /// `search --json --page <page, default 1> [common options] keyword <q>`.
    pub fn cli_args(self) -> (args: Vec<String>)
        ensures
            texts(args@) == search_command(
                "keyword"@,
                self.q@,
                self.page,
                common_args(self.api_domain, self.proxy, self.download_dir, self.config),
            ),
    {
        let ghost q = self;
        let page = match self.page {
            Some(p) => p,
            None => 1,
        };
        let mut args: Vec<String> = Vec::new();
        push_arg(&mut args, String::from_str("search"));
        push_arg(&mut args, String::from_str("--json"));
        push_arg(&mut args, String::from_str("--page"));
        push_arg(&mut args, i64_to_string(page));
        CommonQuery {
            api_domain: self.api_domain,
            proxy: self.proxy,
            download_dir: self.download_dir,
            config: self.config,
        }.append_cli_args(&mut args);
        push_arg(&mut args, String::from_str("keyword"));
        push_arg(&mut args, self.q);
        assert(texts(args@) =~= search_command(
            "keyword"@,
            q.q@,
            q.page,
            common_args(q.api_domain, q.proxy, q.download_dir, q.config),
        ));
        args
    }
}

impl TagSearchQuery {
    /// The downloader's command line for the search:
    /// `search --json --page <page, default 1> [common options] tag <tag>`.
    pub fn cli_args(self) -> (args: Vec<String>)
        ensures
            texts(args@) == search_command(
                "tag"@,
                self.tag@,
                self.page,
                common_args(self.api_domain, self.proxy, self.download_dir, self.config),
            ),
    {
        let ghost q = self;
        let page = match self.page {
            Some(p) => p,
            None => 1,
        };
        let mut args: Vec<String> = Vec::new();
        push_arg(&mut args, String::from_str("search"));
        push_arg(&mut args, String::from_str("--json"));
        push_arg(&mut args, String::from_str("--page"));
        push_arg(&mut args, i64_to_string(page));
        CommonQuery {
            api_domain: self.api_domain,
            proxy: self.proxy,
            download_dir: self.download_dir,
            config: self.config,
        }.append_cli_args(&mut args);
        push_arg(&mut args, String::from_str("tag"));
        push_arg(&mut args, self.tag);
        assert(texts(args@) =~= search_command(
            "tag"@,
            q.tag@,
            q.page,
            common_args(q.api_domain, q.proxy, q.download_dir, q.config),
        ));
        args
    }
}

/// `q` with its `use_original_filename` set to `v`.
pub open spec fn with_original_names(q: DownloadQuery, v: Option<bool>) -> DownloadQuery {
    DownloadQuery {
        target: q.target,
        format: q.format,
        img_concurrency: q.img_concurrency,
        img_interval_sec: q.img_interval_sec,
        use_original_filename: v,
        api_domain: q.api_domain,
        proxy: q.proxy,
        download_dir: q.download_dir,
        config: q.config,
    }
}

/// Only `use_original_filename=true` turns original file names on: asking
/// with `false` gives the same command line as not asking at all, and
/// asking with `true` adds the one argument `--use-original-filename`.
pub proof fn law_original_names_flag(q: DownloadQuery)
    ensures
        download_command(with_original_names(q, Some(false))) == download_command(
            with_original_names(q, None),
        ),
        download_command(with_original_names(q, Some(true))).len() == download_command(
            with_original_names(q, None),
        ).len() + 1,
        download_command(with_original_names(q, Some(true))).contains("--use-original-filename"@),
{
    let t = download_command(with_original_names(q, Some(true)));
    let head = seq!["download"@, q.target@] + match q.format {
        Some(f) => seq!["--format"@, f@],
        None => Seq::empty(),
    } + match q.img_concurrency {
        Some(n) => seq!["--img-concurrency"@, nat_decimal(n as nat)],
        None => Seq::empty(),
    } + match q.img_interval_sec {
        Some(n) => seq!["--img-interval-sec"@, nat_decimal(n as nat)],
        None => Seq::empty(),
    };
    assert(t[head.len() as int] == "--use-original-filename"@);
}

} // verus!
