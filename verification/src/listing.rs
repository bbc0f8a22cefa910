//! Values read off the site's list and detail pages once the page has been
//! walked: image addresses made absolute, a comic's page count, and the
//! last page of a result list.

use vstd::prelude::*;
use crate::text::{
    chars_of, matches_at, parse_i64_chars, parse_i64_spec, push_str, starts_with, trim,
    trim_chars, trim_end_char, trim_end_char_chars,
};

verus! {

/// An address as the pages write it, made absolute: protocol-relative
/// (`//host/...`) addresses get `https:`, site-relative (`/...`) ones the
/// site's `https://<domain>`, and others stay as they are.
pub open spec fn absolute_url_text(api_domain: Seq<char>, src: Seq<char>) -> Seq<char> {
    if starts_with(src, "//"@) {
        "https:"@ + src
    } else if starts_with(src, "/"@) {
        "https://"@ + api_domain + src
    } else {
        src
    }
}

/// Whether `s` starts with `p`.
fn starts_with_str(s: &Vec<char>, p: &str) -> (b: bool)
    ensures
        b == starts_with(s@, p@),
{
    let pv = chars_of(p);
    let b = matches_at(s, &pv, 0);
    proof {
        if pv@.len() <= s@.len() {
            assert(s@.subrange(0, pv@.len() as int) =~= s@.take(pv@.len() as int));
        }
    }
    b
}

/// An address as the pages write it, made absolute (see `absolute_url_text`).
pub fn absolute_url(api_domain: &str, src: &str) -> (r: String)
    ensures
        r@ == absolute_url_text(api_domain@, src@),
{
    let v = chars_of(src);
    if starts_with_str(&v, "//") {
        let mut r = String::from_str("https:");
        push_str(&mut r, src);
        r
    } else if starts_with_str(&v, "/") {
        let mut r = String::from_str("https://");
        push_str(&mut r, api_domain);
        push_str(&mut r, src);
        r
    } else {
        String::from_str(src)
    }
}

/// The page count a detail page's `頁數` label gives: its value, trimmed,
/// without the trailing `P`s, trimmed again, read as an integer.
pub open spec fn page_count_text(value: Seq<char>) -> Option<i64> {
    parse_i64_spec(trim(trim_end_char(trim(value), 'P')))
}

/// The page count in the value of a `頁數` label, as `52P` writes it;
/// `None` when it is no integer.
pub fn page_count_of_label(value: &str) -> (r: Option<i64>)
    ensures
        r == page_count_text(value@),
{
    let v = chars_of(value);
    let t = trim_chars(&v);
    let u = trim_end_char_chars(&t, 'P');
    let w = trim_chars(&u);
    parse_i64_chars(&w)
}

/// The last page of a result list: the current page, or the highest page
/// that the list's page links name, whichever is higher.
pub open spec fn last_page_of(current: i64, linked: Seq<i64>) -> i64
    decreases linked.len(),
{
    if linked.len() == 0 {
        current
    } else {
        let rest = last_page_of(current, linked.drop_last());
        if linked.last() > rest {
            linked.last()
        } else {
            rest
        }
    }
}

/// The last page of a result list (see `last_page_of`).
pub fn last_page(current: i64, linked: &Vec<i64>) -> (r: i64)
    ensures
        r == last_page_of(current, linked@),
        r >= current,
        forall|i: int| 0 <= i < linked@.len() ==> r >= #[trigger] linked@[i],
{
    let mut best = current;
    let mut i: usize = 0;
    assert(linked@.take(0) =~= Seq::<i64>::empty());
    while i < linked.len()
        invariant
            i <= linked@.len(),
            best == last_page_of(current, linked@.take(i as int)),
            best >= current,
            forall|k: int| 0 <= k < i ==> best >= #[trigger] linked@[k],
        decreases linked@.len() - i,
    {
        assert(linked@.take(i + 1).drop_last() =~= linked@.take(i as int));
        if linked[i] > best {
            best = linked[i];
        }
        i = i + 1;
    }
    assert(linked@.take(linked@.len() as int) =~= linked@);
    best
}

} // verus!
