//! Reading a comic's numeric id out of what a user types (an id or a page URL)
//! and out of a comic page's HTML.

use vstd::prelude::*;
use crate::text::{
    all_digits, chars_of, digit_prefix, digit_run_end, find_chars, find_first, int_decimal,
    is_digit, lemma_digit_prefix_of, lemma_find_from, lemma_nat_decimal, lemma_parse_i64_decimal,
    occurs_at, parse_i64_chars, parse_i64_spec, slice_chars,
};

verus! {

/// Why no comic id could be read.
#[derive(Debug, Clone, Copy, PartialEq, Eq, Structural)]
pub enum ComicIdError {
    /// The input is no number and holds no `aid-` marker.
    MarkerNotFound,
    /// The `aid-` marker is not followed by any digit.
    NoDigits,
    /// The digits do not make an `i64`.
    InvalidNumber,
    /// A page holds none of the comic-link markers followed by digits.
    PageMarkerNotFound,
}

impl ComicIdError {
    /// A human-readable description of the error.
    pub fn message(&self) -> (r: String)
        ensures
            r@ == match *self {
                ComicIdError::MarkerNotFound => "未找到 `aid-` 标记"@,
                ComicIdError::NoDigits => "没有解析到数字 ID"@,
                ComicIdError::InvalidNumber => "解析漫画 ID 失败"@,
                ComicIdError::PageMarkerNotFound =>
                    "页面中未找到 `photos-index-aid-*` / `photos-index-page-1-aid-*` / `photos-gallery-aid-*` 标记"@,
            },
    {
        match self {
            ComicIdError::MarkerNotFound => String::from_str("未找到 `aid-` 标记"),
            ComicIdError::NoDigits => String::from_str("没有解析到数字 ID"),
            ComicIdError::InvalidNumber => String::from_str("解析漫画 ID 失败"),
            ComicIdError::PageMarkerNotFound => String::from_str(
                "页面中未找到 `photos-index-aid-*` / `photos-index-page-1-aid-*` / `photos-gallery-aid-*` 标记",
            ),
        }
    }
}

/// The marker that precedes a comic id in a comic URL.
pub open spec fn aid_marker() -> Seq<char> {
    "aid-"@
}

/// The digits that follow the first occurrence of `marker` in `s`, if the
/// marker occurs and at least one digit follows it.
pub open spec fn digits_after(s: Seq<char>, marker: Seq<char>) -> Option<Seq<char>> {
    match find_first(s, marker) {
        Some(p) => {
            let d = digit_prefix(s.skip(p + marker.len()));
            if d.len() > 0 {
                Some(d)
            } else {
                None
            }
        },
        None => None,
    }
}

/// What `extract_comic_id` returns for the text `s`: the whole text read as
/// an `i64`, or else the digits right after the first `aid-`.
pub open spec fn comic_id_of(s: Seq<char>) -> Result<i64, ComicIdError> {
    match parse_i64_spec(s) {
        Some(id) => Ok(id),
        None => match find_first(s, aid_marker()) {
            None => Err(ComicIdError::MarkerNotFound),
            Some(p) => {
                let d = digit_prefix(s.skip(p + 4));
                if d.len() == 0 {
                    Err(ComicIdError::NoDigits)
                } else {
                    match parse_i64_spec(d) {
                        Some(id) => Ok(id),
                        None => Err(ComicIdError::InvalidNumber),
                    }
                }
            },
        },
    }
}

/// The markers that precede a comic id in the links of a comic page, in the
/// order they are tried.
pub open spec fn page_markers() -> Seq<Seq<char>> {
    seq!["photos-index-aid-"@, "photos-index-page-1-aid-"@, "photos-gallery-aid-"@]
}

/// What `extract_comic_id_from_html` returns: the id after the first marker
/// (in the order of `markers`) that occurs followed by digits.
pub open spec fn page_comic_id_with(s: Seq<char>, markers: Seq<Seq<char>>) -> Result<i64, ComicIdError>
    decreases markers.len(),
{
    if markers.len() == 0 {
        Err(ComicIdError::PageMarkerNotFound)
    } else {
        match digits_after(s, markers[0]) {
            Some(d) => match parse_i64_spec(d) {
                Some(id) => Ok(id),
                None => Err(ComicIdError::InvalidNumber),
            },
            None => page_comic_id_with(s, markers.skip(1)),
        }
    }
}

/// What `extract_comic_id_from_html` returns for the page `s`.
pub open spec fn page_comic_id(s: Seq<char>) -> Result<i64, ComicIdError> {
    page_comic_id_with(s, page_markers())
}

/// The digits right after the first `marker` in `s`, or `None`.
fn digits_after_marker(s: &Vec<char>, marker: &Vec<char>) -> (r: Option<Vec<char>>)
    ensures
        match r {
            Some(d) => digits_after(s@, marker@) == Some(d@),
            None => digits_after(s@, marker@) is None,
        },
{
    match find_chars(s, marker, 0) {
        Some(p) => {
            proof {
                lemma_find_from(s@, marker@, 0);
            }
            assert(occurs_at(s@, marker@, p as int));
            let n = s.len();
            let m = marker.len();
            assert(p + m <= n);
            let start = p + m;
            let end = digit_run_end(s, start);
            if end > start {
                Some(slice_chars(s, start, end))
            } else {
                None
            }
        },
        None => None,
    }
}

/// The comic id in `input`: either the whole input is an integer, or the id
/// is the run of digits after the first `aid-` (as in
/// `https://www.wnacg.com/photos-index-aid-328415.html`).
pub fn extract_comic_id(input: &str) -> (r: Result<i64, ComicIdError>)
    ensures
        r == comic_id_of(input@),
{
    let s = chars_of(input);
    if let Some(id) = parse_i64_chars(&s) {
        return Ok(id);
    }
    let marker = chars_of("aid-");
    proof {
        reveal_strlit("aid-");
    }
    match find_chars(&s, &marker, 0) {
        None => Err(ComicIdError::MarkerNotFound),
        Some(p) => {
            proof {
                lemma_find_from(s@, marker@, 0);
            }
            let start = p + 4;
            let end = digit_run_end(&s, start);
            if end == start {
                return Err(ComicIdError::NoDigits);
            }
            let digits = slice_chars(&s, start, end);
            match parse_i64_chars(&digits) {
                Some(id) => Ok(id),
                None => Err(ComicIdError::InvalidNumber),
            }
        },
    }
}

/// The comic id that a comic page links to: the digits after the first of
/// `photos-index-aid-`, `photos-index-page-1-aid-`, `photos-gallery-aid-`
/// that occurs followed by digits.
pub fn extract_comic_id_from_html(body: &str) -> (r: Result<i64, ComicIdError>)
    ensures
        r == page_comic_id(body@),
{
    let s = chars_of(body);
    let markers = vec![
        chars_of("photos-index-aid-"),
        chars_of("photos-index-page-1-aid-"),
        chars_of("photos-gallery-aid-"),
    ];
    let ghost all = page_markers();
    assert(markers@.len() == 3);
    assert(all.skip(0) =~= all);
    let mut k: usize = 0;
    while k < markers.len()
        invariant
            k <= markers@.len() == 3,
            all == page_markers(),
            forall|j: int| 0 <= j < 3 ==> #[trigger] markers@[j]@ == all[j],
            page_comic_id(s@) == page_comic_id_with(s@, all.skip(k as int)),
            s@ == body@,
        decreases 3 - k,
    {
        let ghost rest = all.skip(k as int);
        assert(rest[0] == all[k as int]);
        assert(rest.skip(1) =~= all.skip(k + 1));
        if let Some(d) = digits_after_marker(&s, &markers[k]) {
            return match parse_i64_chars(&d) {
                Some(id) => Ok(id),
                None => Err(ComicIdError::InvalidNumber),
            };
        }
        k = k + 1;
    }
    assert(all.skip(3).len() == 0);
    Err(ComicIdError::PageMarkerNotFound)
}

/// The comic id of a page reached from a user's input: read from the page's
/// final URL, or else from the page's HTML.
pub fn comic_id_from_page(final_url: &str, body: &str) -> (r: Result<i64, ComicIdError>)
    ensures
        r == match comic_id_of(final_url@) {
            Ok(id) => Ok(id),
            Err(_) => page_comic_id(body@),
        },
{
    match extract_comic_id(final_url) {
        Ok(id) => Ok(id),
        Err(_) => extract_comic_id_from_html(body),
    }
}


// ---------------------------------------------------------------------------
// Laws
// ---------------------------------------------------------------------------

/// A pattern whose first character occurs nowhere else in it is first found
/// right after a prefix that does not hold it.
pub proof fn lemma_first_occurrence_after(prefix: Seq<char>, pat: Seq<char>, rest: Seq<char>)
    requires
        pat.len() > 0,
        forall|k: int| 0 < k < pat.len() ==> #[trigger] pat[k] != pat[0],
        find_first(prefix, pat) is None,
    ensures
        find_first(prefix + pat + rest, pat) == Some(prefix.len() as int),
{
    let s = prefix + pat + rest;
    let n = prefix.len() as int;
    lemma_find_from(prefix, pat, 0);
    lemma_find_from(s, pat, 0);
    assert(occurs_at(s, pat, n)) by {
        assert(s.subrange(n, n + pat.len()) =~= pat);
    }
    assert forall|j: int| 0 <= j < n implies !occurs_at(s, pat, j) by {
        if occurs_at(s, pat, j) {
            if j + pat.len() <= n {
                assert(prefix.subrange(j, j + pat.len()) =~= s.subrange(j, j + pat.len()));
                assert(occurs_at(prefix, pat, j));
            } else {
                let k = n - j;
                assert(s.subrange(j, j + pat.len())[k] == s[n]);
                assert(s[n] == pat[0]);
            }
        }
    }
}

/// A comic id typed as a plain number is that number (for every `i64`).
pub proof fn law_comic_id_of_number(id: i64)
    ensures
        comic_id_of(int_decimal(id as int)) == Ok::<i64, ComicIdError>(id),
{
    lemma_parse_i64_decimal(id);
}

/// In a text with no earlier `aid-`, the digits after `aid-` are the comic id:
/// `…photos-index-aid-328415.html` and `…photos-index-page-1-aid-328415.html`
/// both give 328415.
pub proof fn law_comic_id_after_marker(prefix: Seq<char>, id: i64, suffix: Seq<char>)
    requires
        id >= 0,
        find_first(prefix, aid_marker()) is None,
        suffix.len() == 0 || !is_digit(suffix[0]),
    ensures
        comic_id_of(prefix + aid_marker() + int_decimal(id as int) + suffix) == Ok::<
            i64,
            ComicIdError,
        >(id),
{
    reveal_strlit("aid-");
    let m = aid_marker();
    let d = int_decimal(id as int);
    let rest = d + suffix;
    let s = prefix + m + rest;
    assert(s =~= prefix + m + d + suffix);
    lemma_first_occurrence_after(prefix, m, rest);
    lemma_nat_decimal(id as nat);
    lemma_parse_i64_decimal(id);
    let n = prefix.len() as int;
    assert(s.skip(n + 4) =~= rest);
    if suffix.len() > 0 {
        assert(rest[d.len() as int] == suffix[0]);
    }
    assert(rest.take(d.len() as int) =~= d);
    lemma_digit_prefix_of(rest, d.len() as int);
    // The whole text is no number: it holds the letter `a`.
    assert(s[n] == 'a');
    assert(parse_i64_spec(s) is None) by {
        if n > 0 {
            assert(s.skip(1)[n - 1] == 'a');
            assert(!all_digits(s.skip(1)));
        } else {
            assert(s[0] == 'a');
        }
        assert(!all_digits(s));
    }
}

/// A page that links to a comic's detail page, with no earlier such link,
/// gives that comic's id.
pub proof fn law_page_comic_id(prefix: Seq<char>, id: i64, suffix: Seq<char>)
    requires
        id >= 0,
        find_first(prefix, "photos-index-aid-"@) is None,
        suffix.len() == 0 || !is_digit(suffix[0]),
    ensures
        page_comic_id(prefix + "photos-index-aid-"@ + int_decimal(id as int) + suffix) == Ok::<
            i64,
            ComicIdError,
        >(id),
{
    reveal_strlit("photos-index-aid-");
    let m: Seq<char> = "photos-index-aid-"@;
    let d = int_decimal(id as int);
    let rest = d + suffix;
    let s = prefix + m + rest;
    assert(s =~= prefix + m + d + suffix);
    lemma_first_occurrence_after(prefix, m, rest);
    lemma_nat_decimal(id as nat);
    lemma_parse_i64_decimal(id);
    let n = prefix.len() as int;
    assert(s.skip(n + m.len()) =~= rest);
    if suffix.len() > 0 {
        assert(rest[d.len() as int] == suffix[0]);
    }
    assert(rest.take(d.len() as int) =~= d);
    lemma_digit_prefix_of(rest, d.len() as int);
    assert(page_markers()[0] == m);
    assert(digits_after(s, m) == Some(d));
}
} // verus!
