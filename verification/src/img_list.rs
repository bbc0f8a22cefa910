//! The list of a comic's images, as its gallery page embeds it in a line of
//! JavaScript (`var imglist = [...]`).

use vstd::prelude::*;
use crate::tasks::texts;
use crate::text::{
    chars_of, ends_with, find_chars, find_first, lemma_find_from, lemma_find_from_skip,
    replace_all, replace_all_chars, rfind_char, rfind_char_in, slice_chars, string_of,
    push_str,
};

verus! {

/// One image of a comic's image list.
pub struct ImgInImgList {
    pub url: String,
    pub caption: String,
}

/// Why the image list could not be found in a gallery page.
#[derive(Debug, Clone, Copy, PartialEq, Eq, Structural)]
pub enum ImgListError {
    /// No line holds `var imglist = `.
    NoImgListLine,
    /// The image-list line holds no `[`.
    NoOpenBracket,
    /// The image-list line holds no `]`.
    NoCloseBracket,
}

impl ImgListError {
    /// The description the desktop app gives of the error.
    pub fn message(&self) -> (r: String)
        ensures
            r@ == match *self {
                ImgListError::NoImgListLine => "没有找到包含`imglist`的行"@,
                ImgListError::NoOpenBracket => "没有在`imglist`行中找到`[`"@,
                ImgListError::NoCloseBracket => "没有在`imglist`行中找到`]`"@,
            },
    {
        match self {
            ImgListError::NoImgListLine => String::from_str("没有找到包含`imglist`的行"),
            ImgListError::NoOpenBracket => String::from_str("没有在`imglist`行中找到`[`"),
            ImgListError::NoCloseBracket => String::from_str("没有在`imglist`行中找到`]`"),
        }
    }
}

impl ImgListError {
    /// The description the command-line downloader gives of the error.
    pub fn cli_message(&self) -> (r: String)
        ensures
            r@ == match *self {
                ImgListError::NoImgListLine => "没有找到包含 `imglist` 的行"@,
                ImgListError::NoOpenBracket => "没有找到 `[`"@,
                ImgListError::NoCloseBracket => "没有找到 `]`"@,
            },
    {
        match self {
            ImgListError::NoImgListLine => String::from_str("没有找到包含 `imglist` 的行"),
            ImgListError::NoOpenBracket => String::from_str("没有找到 `[`"),
            ImgListError::NoCloseBracket => String::from_str("没有找到 `]`"),
        }
    }
}

/// A line without its final carriage return.
pub open spec fn strip_cr(line: Seq<char>) -> Seq<char> {
    if line.len() > 0 && line.last() == '\r' {
        line.drop_last()
    } else {
        line
    }
}

/// `str::lines`: the text split at each `\n`, a `\r` before it dropped, and
/// no empty line after a final `\n`.
pub open spec fn lines(s: Seq<char>) -> Seq<Seq<char>>
    decreases s.len(),
{
    if s.len() == 0 {
        Seq::empty()
    } else {
        match find_first(s, seq!['\n']) {
            Some(p) => if 0 <= p < s.len() {
                seq![strip_cr(s.take(p))] + lines(s.skip(p + 1))
            } else {
                Seq::empty()
            },
            None => seq![s],
        }
    }
}

/// The first of `ls` that contains `pat`.
pub open spec fn first_containing(ls: Seq<Seq<char>>, pat: Seq<char>) -> Option<Seq<char>>
    decreases ls.len(),
{
    if ls.len() == 0 {
        None
    } else if find_first(ls[0], pat) is Some {
        Some(ls[0])
    } else {
        first_containing(ls.skip(1), pat)
    }
}

/// The marker of the line that holds the image list.
pub open spec fn imglist_marker() -> Seq<char> {
    "var imglist = "@
}

/// The image-list line of a gallery page: its first line with the marker.
pub open spec fn imglist_line(body: Seq<char>) -> Option<Seq<char>> {
    first_containing(lines(body), imglist_marker())
}

/// The image-list line's first `[` does not follow its last `]` by more than
/// one character (else taking the text between them panics).
pub open spec fn imglist_brackets_ordered(body: Seq<char>) -> bool {
    match imglist_line(body) {
        Some(line) => match (find_first(line, seq!['[']), rfind_char(line, ']')) {
            (Some(start), Some(end)) => start <= end + 1,
            _ => true,
        },
        None => true,
    }
}

/// The JavaScript array literal made JSON: its `url:` and `caption:` keys
/// quoted, the `fast_img_host+` concatenations dropped and escaped quotes
/// unescaped.
pub open spec fn json_of_array_literal(js: Seq<char>) -> Seq<char> {
    replace_all(
        replace_all(
            replace_all(replace_all(js, "url:"@, "\"url\":"@), "caption:"@, "\"caption\":"@),
            "fast_img_host+"@,
            ""@,
        ),
        "\\\""@,
        "\""@,
    )
}

/// What `img_list_json` returns for a gallery page.
pub open spec fn img_list_json_of(body: Seq<char>) -> Result<Seq<char>, ImgListError> {
    match imglist_line(body) {
        None => Err(ImgListError::NoImgListLine),
        Some(line) => match find_first(line, seq!['[']) {
            None => Err(ImgListError::NoOpenBracket),
            Some(start) => match rfind_char(line, ']') {
                None => Err(ImgListError::NoCloseBracket),
                Some(end) => Ok(json_of_array_literal(line.subrange(start, end + 1))),
            },
        },
    }
}

/// `lines(s)` unfolded once at the line starting at 0.
proof fn lemma_lines_step(s: Seq<char>)
    requires
        s.len() > 0,
    ensures
        match find_first(s, seq!['\n']) {
            Some(p) => 0 <= p < s.len() && lines(s) == seq![strip_cr(s.take(p))] + lines(s.skip(p + 1)),
            None => lines(s) == seq![s],
        },
{
    lemma_find_from(s, seq!['\n'], 0);
}

/// The first line of `s`, as `str::lines` splits it, that contains `marker`.
fn line_containing_marker(s: &Vec<char>, marker: &Vec<char>) -> (r: Option<Vec<char>>)
    ensures
        match r {
            Some(l) => first_containing(lines(s@), marker@) == Some(l@),
            None => first_containing(lines(s@), marker@) is None,
        },
{
    let newline = vec!['\n'];
    assert(newline@ =~= seq!['\n']);
    let mut pos: usize = 0;
    assert(s@.skip(0) =~= s@);
    while pos < s.len()
        invariant
            pos <= s@.len(),
            newline@ == seq!['\n'],
            first_containing(lines(s@), marker@) == first_containing(lines(s@.skip(pos as int)), marker@),
        decreases s@.len() - pos,
    {
        let ghost rest = s@.skip(pos as int);
        proof {
            lemma_lines_step(rest);
            lemma_find_from_skip(s@, newline@, pos as int, 0);
        }
        let found = find_chars(s, &newline, pos);
        let end = match found {
            Some(e) => e,
            None => s.len(),
        };
        proof {
            lemma_find_from(s@, newline@, pos as int);
        }
        let raw = slice_chars(s, pos, end);
        let line = if found.is_some() && end > pos && s[end - 1] == '\r' {
            slice_chars(s, pos, end - 1)
        } else {
            raw
        };
        proof {
            match found {
                Some(e) => {
                    assert(raw@ =~= rest.take(e - pos));
                    if e > pos && s@[e - 1] == '\r' {
                        assert(line@ =~= rest.take(e - pos).drop_last());
                    }
                    assert(line@ == strip_cr(rest.take(e - pos)));
                    assert(rest.skip(e - pos + 1) =~= s@.skip(e + 1));
                },
                None => {
                    assert(raw@ =~= rest);
                },
            }
            assert(lines(rest)[0] == line@);
            assert(lines(rest).skip(1) =~= match found {
                Some(e) => lines(s@.skip(e + 1)),
                None => Seq::<Seq<char>>::empty(),
            });
        }
        if find_chars(&line, marker, 0).is_some() {
            return Some(line);
        }
        assert(first_containing(lines(rest), marker@) == first_containing(lines(rest).skip(1), marker@));
        match found {
            Some(e) => {
                pos = e + 1;
            },
            None => {
                return None;
            },
        }
    }
    assert(s@.skip(pos as int) =~= Seq::<char>::empty());
    None
}

/// Whether the image-list line's brackets are in an order that lets the
/// text between them be taken (see `imglist_brackets_ordered`).
pub fn img_list_brackets_ordered(body: &str) -> (b: bool)
    ensures
        b == imglist_brackets_ordered(body@),
{
    let s = chars_of(body);
    let marker = chars_of("var imglist = ");
    match line_containing_marker(&s, &marker) {
        None => true,
        Some(line) => {
            let open = vec!['['];
            assert(open@ =~= seq!['[']);
            proof {
                crate::text::lemma_rfind_char(line@, ']');
            }
            match (find_chars(&line, &open, 0), rfind_char_in(&line, ']')) {
                (Some(start), Some(end)) => start <= end + 1,
                _ => true,
            }
        },
    }
}

/// Replaces every `from` in `s` by `to`.
fn replace_str(s: &Vec<char>, from: &str, to: &str) -> (r: Vec<char>)
    requires
        from@.len() > 0,
    ensures
        r@ == replace_all(s@, from@, to@),
{
    let f = chars_of(from);
    let t = chars_of(to);
    replace_all_chars(s, &f, &t)
}

/// The image list of a gallery page as JSON text: the array literal of its
/// first line holding `var imglist = `, from the first `[` to the last `]`,
/// with its keys quoted, `fast_img_host+` dropped and `\"` unescaped.
pub fn img_list_json(body: &str) -> (r: Result<String, ImgListError>)
    requires
        imglist_brackets_ordered(body@),
    ensures
        match r {
            Ok(j) => img_list_json_of(body@) == Ok::<Seq<char>, ImgListError>(j@),
            Err(e) => img_list_json_of(body@) == Err::<Seq<char>, ImgListError>(e),
        },
{
    let s = chars_of(body);
    let marker = chars_of("var imglist = ");
    let line = match line_containing_marker(&s, &marker) {
        Some(l) => l,
        None => return Err(ImgListError::NoImgListLine),
    };
    let open = vec!['['];
    assert(open@ =~= seq!['[']);
    let start = match find_chars(&line, &open, 0) {
        Some(p) => p,
        None => return Err(ImgListError::NoOpenBracket),
    };
    let end = match rfind_char_in(&line, ']') {
        Some(p) => p,
        None => return Err(ImgListError::NoCloseBracket),
    };
    proof {
        crate::text::lemma_rfind_char(line@, ']');
    }
    let literal = slice_chars(&line, start, end + 1);
    proof {
        reveal_strlit("url:");
        reveal_strlit("caption:");
        reveal_strlit("fast_img_host+");
        reveal_strlit("\\\"");
    }
    let a = replace_str(&literal, "url:", "\"url\":");
    let b = replace_str(&a, "caption:", "\"caption\":");
    let c = replace_str(&b, "fast_img_host+", "");
    let d = replace_str(&c, "\\\"", "\"");
    Ok(string_of(&d))
}

/// The download URLs of a comic's images, in order: each image URL made
/// absolute with `https:`, leaving out the `shoucang.jpg` placeholder.
pub open spec fn image_url_texts(list: Seq<ImgInImgList>) -> Seq<Seq<char>>
    decreases list.len(),
{
    if list.len() == 0 {
        Seq::empty()
    } else {
        let url = list.last().url@;
        image_url_texts(list.drop_last()) + if ends_with(url, "shoucang.jpg"@) {
            Seq::<Seq<char>>::empty()
        } else {
            seq!["https:"@ + url]
        }
    }
}

/// Whether `s` ends with `suffix`.
fn ends_with_str(s: &Vec<char>, suffix: &str) -> (b: bool)
    ensures
        b == ends_with(s@, suffix@),
{
    let p = chars_of(suffix);
    if p.len() > s.len() {
        return false;
    }
    let r = crate::text::matches_at(s, &p, s.len() - p.len());
    assert(s@.subrange(s@.len() - p@.len(), s@.len() as int) =~= s@.skip(s@.len() - p@.len()));
    r
}

/// The download URLs of a comic's images (see `image_url_texts`).
pub fn image_urls(img_list: &Vec<ImgInImgList>) -> (r: Vec<String>)
    ensures
        texts(r@) == image_url_texts(img_list@),
{
    let mut r: Vec<String> = Vec::new();
    let mut i: usize = 0;
    assert(img_list@.take(0) =~= Seq::<ImgInImgList>::empty());
    while i < img_list.len()
        invariant
            i <= img_list@.len(),
            texts(r@) == image_url_texts(img_list@.take(i as int)),
        decreases img_list@.len() - i,
    {
        let url = chars_of(img_list[i].url.as_str());
        let ghost before = texts(r@);
        assert(img_list@.take(i + 1).drop_last() =~= img_list@.take(i as int));
        if !ends_with_str(&url, "shoucang.jpg") {
            let mut full = String::from_str("https:");
            push_str(&mut full, img_list[i].url.as_str());
            r.push(full);
            assert(texts(r@) =~= before.push("https:"@ + img_list@[i as int].url@));
        }
        i = i + 1;
        assert(texts(r@) =~= image_url_texts(img_list@.take(i as int)));
    }
    assert(img_list@.take(i as int) =~= img_list@);
    r
}

} // verus!
