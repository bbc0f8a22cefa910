//! Names of download directories and image files.

use vstd::prelude::*;
use crate::tasks::{lemma_text_less_asymmetric, lemma_text_less_transitive, text_less, text_less_chars, texts};
use crate::text::{
    char_len, char_len_utf8, chars_of, int_decimal, i64_to_string, lemma_utf8_len_concat,
    lemma_utf8_len_prefix, lemma_utf8_len_take, push_char, push_str, skip_whitespace_back,
    string_of, trim, trim_chars, trim_end, utf8_len,
};

verus! {

// ---------------------------------------------------------------------------
// Specifications
// ---------------------------------------------------------------------------

/// The character that stands for `c` in a file name: characters that file
/// systems refuse are replaced by look-alikes.
pub open spec fn filename_char(c: char) -> char {
    if c == '\\' || c == '/' {
        ' '
    } else if c == ':' {
        '：'
    } else if c == '*' {
        '⭐'
    } else if c == '?' {
        '？'
    } else if c == '"' {
        '\''
    } else if c == '<' {
        '《'
    } else if c == '>' {
        '》'
    } else if c == '|' {
        '丨'
    } else {
        c
    }
}

/// A character that a file name must not hold.
pub open spec fn is_forbidden_in_filename(c: char) -> bool {
    c == '\\' || c == '/' || c == ':' || c == '*' || c == '?' || c == '"' || c == '<' || c == '>'
        || c == '|'
}

/// What `filename_filter` returns: each character replaced as in
/// `filename_char`, then surrounding whitespace trimmed.
pub open spec fn filtered_filename(s: Seq<char>) -> Seq<char> {
    trim(s.map_values(|c: char| filename_char(c)))
}

/// The number of leading characters of `s` whose UTF-8 encoding fits in
/// `max` bytes.
pub open spec fn fitting_prefix_len(s: Seq<char>, max: nat) -> nat
    decreases s.len(),
{
    if utf8_len(s) <= max {
        s.len()
    } else {
        fitting_prefix_len(s.drop_last(), max)
    }
}

/// What `truncate_utf8_by_bytes` returns: `s` itself when it fits in `max`
/// bytes, else its longest prefix (of whole characters) that fits, with
/// trailing whitespace trimmed.
pub open spec fn truncated_utf8(s: Seq<char>, max: nat) -> Seq<char> {
    if utf8_len(s) <= max {
        s
    } else {
        trim_end(s.take(fitting_prefix_len(s, max) as int))
    }
}

/// The byte budget of a download directory name.
pub open spec fn max_dir_name_bytes() -> nat {
    180
}

/// The suffix that marks a shortened directory name with the comic id.
pub open spec fn id_suffix(comic_id: i64) -> Seq<char> {
    " ["@ + int_decimal(comic_id as int) + "]"@
}

/// What `build_download_dir_name` returns: the filtered title; the comic id
/// when the title filters to nothing; and, for titles over 180 bytes, the
/// title shortened so that it and ` [<id>]` fit in 180 bytes.
pub open spec fn download_dir_name(comic_id: i64, title: Seq<char>) -> Seq<char> {
    let sanitized = trim(filtered_filename(title));
    if sanitized.len() == 0 {
        int_decimal(comic_id as int)
    } else if utf8_len(sanitized) <= max_dir_name_bytes() {
        sanitized
    } else {
        let suffix = id_suffix(comic_id);
        let available = if utf8_len(suffix) <= max_dir_name_bytes() {
            (max_dir_name_bytes() - utf8_len(suffix)) as nat
        } else {
            0
        };
        truncated_utf8(sanitized, available) + suffix
    }
}

// ---------------------------------------------------------------------------
// Lemmas
// ---------------------------------------------------------------------------

/// The fitting prefix is within the budget, and one more character would not be.
pub proof fn lemma_fitting_prefix_len(s: Seq<char>, max: nat)
    ensures
        fitting_prefix_len(s, max) <= s.len(),
        utf8_len(s.take(fitting_prefix_len(s, max) as int)) <= max,
        fitting_prefix_len(s, max) < s.len() ==> utf8_len(
            s.take(fitting_prefix_len(s, max) + 1 as int),
        ) > max,
    decreases s.len(),
{
    if utf8_len(s) <= max {
        assert(s.take(s.len() as int) =~= s);
    } else {
        let t = s.drop_last();
        lemma_fitting_prefix_len(t, max);
        let k = fitting_prefix_len(t, max);
        assert(t.take(k as int) =~= s.take(k as int));
        if k < t.len() {
            assert(t.take(k + 1 as int) =~= s.take(k + 1 as int));
        } else {
            assert(s.take(k + 1 as int) =~= s);
        }
    }
}

/// The fitting prefix is the one a forward scan stops at.
pub proof fn lemma_fitting_prefix_len_at(s: Seq<char>, max: nat, k: nat)
    requires
        k <= s.len(),
        utf8_len(s.take(k as int)) <= max,
        k < s.len() ==> utf8_len(s.take(k + 1 as int)) > max,
    ensures
        fitting_prefix_len(s, max) == k,
    decreases s.len(),
{
    if k == s.len() {
        assert(s.take(k as int) =~= s);
    } else {
        lemma_utf8_len_prefix(s, k + 1 as int);
        let t = s.drop_last();
        assert(t.take(k as int) =~= s.take(k as int));
        if k + 1 < s.len() {
            assert(t.take(k + 1 as int) =~= s.take(k + 1 as int));
        }
        lemma_fitting_prefix_len_at(t, max, k);
    }
}

/// Trimming trailing whitespace keeps a prefix and never adds bytes.
pub proof fn lemma_trim_end_prefix(s: Seq<char>)
    ensures
        trim_end(s).len() <= s.len(),
        trim_end(s) == s.take(trim_end(s).len() as int),
        utf8_len(trim_end(s)) <= utf8_len(s),
    decreases s.len(),
{
    if s.len() > 0 && crate::text::is_whitespace(s.last()) {
        lemma_trim_end_prefix(s.drop_last());
        let t = trim_end(s.drop_last());
        assert(s.drop_last().take(t.len() as int) =~= s.take(t.len() as int));
        assert(utf8_len(s) == utf8_len(s.drop_last()) + char_len_utf8(s.last()));
    } else {
        assert(s.take(s.len() as int) =~= s);
    }
}

/// A truncated text fits the budget and is a prefix of the original.
pub proof fn law_truncated_utf8_fits(s: Seq<char>, max: nat)
    ensures
        utf8_len(truncated_utf8(s, max)) <= max,
        truncated_utf8(s, max).len() <= s.len(),
        truncated_utf8(s, max) == s.take(truncated_utf8(s, max).len() as int),
{
    if utf8_len(s) > max {
        lemma_fitting_prefix_len(s, max);
        let p = s.take(fitting_prefix_len(s, max) as int);
        lemma_trim_end_prefix(p);
        assert(p.take(trim_end(p).len() as int) =~= s.take(trim_end(p).len() as int));
    } else {
        assert(s.take(s.len() as int) =~= s);
    }
}

/// Text made of ASCII characters needs one byte per character.
pub proof fn lemma_utf8_len_ascii(s: Seq<char>)
    requires
        forall|i: int| 0 <= i < s.len() ==> (#[trigger] s[i] as u32) < 0x80,
    ensures
        utf8_len(s) == s.len(),
    decreases s.len(),
{
    if s.len() > 0 {
        let t = s.drop_last();
        assert forall|i: int| 0 <= i < t.len() implies (#[trigger] t[i] as u32) < 0x80 by {
            assert(t[i] == s[i]);
        }
        lemma_utf8_len_ascii(t);
        assert((s[s.len() - 1] as u32) < 0x80);
    }
}

/// Ten to the power `k`.
pub open spec fn pow10(k: nat) -> nat
    decreases k,
{
    if k == 0 {
        1
    } else {
        10 * pow10((k - 1) as nat)
    }
}

/// The decimal text of a number below `10^k` has at most `k` digits.
pub proof fn lemma_nat_decimal_len(n: nat, k: nat)
    requires
        n < pow10(k),
        k >= 1,
    ensures
        crate::text::nat_decimal(n).len() <= k,
    decreases k,
{
    if n >= 10 {
        assert(k >= 2) by {
            if k == 1 {
                assert(pow10(0) == 1);
            }
        }
        assert(n / 10 < pow10((k - 1) as nat)) by (nonlinear_arith)
            requires
                n < pow10(k),
                pow10(k) == 10 * pow10((k - 1) as nat),
        ;
        lemma_nat_decimal_len(n / 10, (k - 1) as nat);
    }
}

/// The characters of a decimal text are ASCII digits (or a leading minus).
pub proof fn lemma_int_decimal_chars(i: int)
    ensures
        forall|j: int|
            0 <= j < int_decimal(i).len() ==> (crate::text::is_digit(#[trigger] int_decimal(i)[j])
                || int_decimal(i)[j] == '-'),
{
    let m: nat = if i < 0 {
        (-i) as nat
    } else {
        i as nat
    };
    crate::text::lemma_nat_decimal(m);
    let d = crate::text::nat_decimal(m);
    assert forall|j: int| 0 <= j < int_decimal(i).len() implies (crate::text::is_digit(
        #[trigger] int_decimal(i)[j],
    ) || int_decimal(i)[j] == '-') by {
        if i < 0 {
            if j > 0 {
                assert(int_decimal(i)[j] == d[j - 1]);
            }
        } else {
            assert(int_decimal(i)[j] == d[j]);
        }
    }
}

/// The decimal text of an `i64` is short ASCII text.
pub proof fn lemma_i64_decimal_short(i: i64)
    ensures
        int_decimal(i as int).len() <= 20,
        int_decimal(i as int).len() >= 1,
        utf8_len(int_decimal(i as int)) == int_decimal(i as int).len(),
        forall|j: int|
            0 <= j < int_decimal(i as int).len() ==> !is_forbidden_in_filename(
                #[trigger] int_decimal(i as int)[j],
            ),
{
    let m: nat = if i < 0 {
        (-i) as nat
    } else {
        i as nat
    };
    assert(pow10(19) == 10000000000000000000nat) by {
        reveal_with_fuel(pow10, 20);
    }
    lemma_nat_decimal_len(m, 19);
    crate::text::lemma_nat_decimal(m);
    lemma_int_decimal_chars(i as int);
    let t = int_decimal(i as int);
    assert forall|j: int| 0 <= j < t.len() implies (#[trigger] t[j] as u32) < 0x80 by {
        assert(crate::text::is_digit(t[j]) || t[j] == '-');
    }
    lemma_utf8_len_ascii(t);
}

/// Filtering leaves no character that file names must not hold.
pub proof fn law_filtered_filename_allowed(s: Seq<char>)
    ensures
        forall|j: int|
            0 <= j < filtered_filename(s).len() ==> !is_forbidden_in_filename(
                #[trigger] filtered_filename(s)[j],
            ),
{
    let m = s.map_values(|c: char| filename_char(c));
    lemma_trim_subrange(m);
    let t = trim(m);
    assert forall|j: int| 0 <= j < t.len() implies !is_forbidden_in_filename(#[trigger] t[j]) by {
        let k = choose|k: int| 0 <= k < m.len() && t[j] == m[k];
        assert(m[k] == filename_char(s[k]));
    }
}

/// Every character of `trim(s)` is a character of `s`.
pub proof fn lemma_trim_subrange(s: Seq<char>)
    ensures
        forall|j: int|
            0 <= j < trim(s).len() ==> exists|k: int| 0 <= k < s.len() && #[trigger] trim(s)[j] == s[k],
{
    lemma_trim_start_suffix(s);
    let a = crate::text::trim_start(s);
    lemma_trim_end_prefix(a);
    assert forall|j: int| 0 <= j < trim(s).len() implies exists|k: int|
        0 <= k < s.len() && #[trigger] trim(s)[j] == s[k] by {
        assert(trim(s)[j] == a[j]);
        assert(a[j] == s[j + (s.len() - a.len())]);
    }
}

/// `trim_start` keeps a suffix.
pub proof fn lemma_trim_start_suffix(s: Seq<char>)
    ensures
        crate::text::trim_start(s).len() <= s.len(),
        crate::text::trim_start(s) == s.skip(s.len() - crate::text::trim_start(s).len()),
    decreases s.len(),
{
    if s.len() > 0 && crate::text::is_whitespace(s[0]) {
        lemma_trim_start_suffix(s.skip(1));
        let t = crate::text::trim_start(s.skip(1));
        assert(s.skip(1).skip(s.len() - 1 - t.len()) =~= s.skip(s.len() - t.len()));
    } else {
        assert(s.skip(0) =~= s);
    }
}

/// A download directory name is never empty, fits in 180 bytes of UTF-8, and
/// holds none of the characters that file names must not hold.
pub proof fn law_download_dir_name_fits(comic_id: i64, title: Seq<char>)
    ensures
        download_dir_name(comic_id, title).len() > 0,
        utf8_len(download_dir_name(comic_id, title)) <= max_dir_name_bytes(),
        forall|j: int|
            0 <= j < download_dir_name(comic_id, title).len() ==> !is_forbidden_in_filename(
                #[trigger] download_dir_name(comic_id, title)[j],
            ),
{
    let f = filtered_filename(title);
    let sanitized = trim(f);
    lemma_i64_decimal_short(comic_id);
    law_filtered_filename_allowed(title);
    lemma_trim_subrange(f);
    assert forall|j: int| 0 <= j < sanitized.len() implies !is_forbidden_in_filename(
        #[trigger] sanitized[j],
    ) by {
        let k = choose|k: int| 0 <= k < f.len() && sanitized[j] == f[k];
    }
    if sanitized.len() == 0 {
    } else if utf8_len(sanitized) <= max_dir_name_bytes() {
    } else {
        let d = int_decimal(comic_id as int);
        let suffix = id_suffix(comic_id);
        reveal_strlit(" [");
        reveal_strlit("]");
        lemma_utf8_len_concat(" ["@, d);
        lemma_utf8_len_concat(" ["@ + d, "]"@);
        lemma_utf8_len_ascii(" ["@);
        lemma_utf8_len_ascii("]"@);
        let available = (max_dir_name_bytes() - utf8_len(suffix)) as nat;
        let tr = truncated_utf8(sanitized, available);
        law_truncated_utf8_fits(sanitized, available);
        lemma_utf8_len_concat(tr, suffix);
        assert forall|j: int| 0 <= j < (tr + suffix).len() implies !is_forbidden_in_filename(
            #[trigger] (tr + suffix)[j],
        ) by {
            if j < tr.len() {
                assert((tr + suffix)[j] == sanitized[j]);
            } else if j < tr.len() + 2 {
                assert((tr + suffix)[j] == " ["@[j - tr.len()]);
            } else if j < tr.len() + 2 + d.len() {
                assert((tr + suffix)[j] == d[j - tr.len() - 2]);
            } else {
                assert((tr + suffix)[j] == ']');
            }
        }
    }
}

// ---------------------------------------------------------------------------
// Executable functions
// ---------------------------------------------------------------------------

/// `filename_char`.
pub fn filename_char_of(c: char) -> (r: char)
    ensures
        r == filename_char(c),
{
    if c == '\\' || c == '/' {
        ' '
    } else if c == ':' {
        '：'
    } else if c == '*' {
        '⭐'
    } else if c == '?' {
        '？'
    } else if c == '"' {
        '\''
    } else if c == '<' {
        '《'
    } else if c == '>' {
        '》'
    } else if c == '|' {
        '丨'
    } else {
        c
    }
}

/// The characters of `v`, each replaced as in `filename_char`.
fn map_filename_chars(v: &Vec<char>) -> (r: Vec<char>)
    ensures
        r@ == v@.map_values(|c: char| filename_char(c)),
{
    let mut r: Vec<char> = Vec::new();
    let mut i: usize = 0;
    while i < v.len()
        invariant
            i <= v@.len(),
            r@ == v@.take(i as int).map_values(|c: char| filename_char(c)),
        decreases v@.len() - i,
    {
        r.push(filename_char_of(v[i]));
        i = i + 1;
        assert(r@ =~= v@.take(i as int).map_values(|c: char| filename_char(c)));
    }
    assert(v@.take(i as int) =~= v@);
    r
}

/// Makes a text usable as a file or directory name: the characters that file
/// systems refuse (`\ / : * ? " < > |`) are replaced by look-alikes, and
/// surrounding whitespace is trimmed.
pub fn filename_filter(s: &str) -> (r: String)
    ensures
        r@ == filtered_filename(s@),
{
    let v = chars_of(s);
    let mapped = map_filename_chars(&v);
    let t = trim_chars(&mapped);
    string_of(&t)
}

/// Whether `utf8_len(s) <= max`, without computing lengths past `max`.
fn utf8_fits(s: &Vec<char>, max: usize) -> (b: bool)
    ensures
        b == (utf8_len(s@) <= max),
{
    let mut n: usize = 0;
    let mut i: usize = 0;
    assert(s@.take(0) =~= Seq::<char>::empty());
    while i < s.len()
        invariant
            i <= s@.len(),
            n == utf8_len(s@.take(i as int)),
            n <= max,
        decreases s@.len() - i,
    {
        proof {
            lemma_utf8_len_take(s@, i as int);
        }
        let c = char_len(s[i]);
        if c > max - n {
            proof {
                lemma_utf8_len_prefix(s@, i + 1);
            }
            return false;
        }
        n = n + c;
        i = i + 1;
    }
    assert(s@.take(i as int) =~= s@);
    true
}

/// The number of leading characters of `s` that fit in `max` bytes.
fn fitting_prefix(s: &Vec<char>, max: usize) -> (k: usize)
    ensures
        k == fitting_prefix_len(s@, max as nat),
{
    let mut n: usize = 0;
    let mut i: usize = 0;
    assert(s@.take(0) =~= Seq::<char>::empty());
    while i < s.len()
        invariant
            i <= s@.len(),
            n == utf8_len(s@.take(i as int)),
            n <= max,
        decreases s@.len() - i,
    {
        proof {
            lemma_utf8_len_take(s@, i as int);
        }
        let c = char_len(s[i]);
        if c > max - n {
            proof {
                lemma_fitting_prefix_len_at(s@, max as nat, i as nat);
            }
            return i;
        }
        n = n + c;
        i = i + 1;
    }
    proof {
        lemma_fitting_prefix_len_at(s@, max as nat, i as nat);
    }
    i
}

/// The characters of `s`, shortened as in `truncated_utf8`.
fn truncate_chars(s: &Vec<char>, max_bytes: usize) -> (r: Vec<char>)
    ensures
        r@ == truncated_utf8(s@, max_bytes as nat),
{
    if utf8_fits(s, max_bytes) {
        return s.clone();
    }
    let k = fitting_prefix(s, max_bytes);
    proof {
        lemma_fitting_prefix_len(s@, max_bytes as nat);
    }
    let j = skip_whitespace_back(s, 0, k);
    assert(s@.subrange(0, k as int) =~= s@.take(k as int));
    crate::text::slice_chars(s, 0, j)
}

/// Shortens `input` to at most `max_bytes` bytes of UTF-8, cutting only
/// between characters and trimming the whitespace the cut leaves at the end.
pub fn truncate_utf8_by_bytes(input: &str, max_bytes: usize) -> (r: String)
    ensures
        r@ == truncated_utf8(input@, max_bytes as nat),
{
    let v = chars_of(input);
    let t = truncate_chars(&v, max_bytes);
    string_of(&t)
}

/// The name of the directory a comic is downloaded to: the title made safe
/// for file systems, or the comic id when nothing is left of the title; a
/// title over 180 bytes is shortened and marked with ` [<id>]`.
pub fn build_download_dir_name(comic_id: i64, title: &str) -> (r: String)
    ensures
        r@ == download_dir_name(comic_id, title@),
{
    let filtered = filename_filter(title);
    let chars = chars_of(filtered.as_str());
    let sanitized = trim_chars(&chars);
    if sanitized.len() == 0 {
        return i64_to_string(comic_id);
    }
    if utf8_fits(&sanitized, 180) {
        return string_of(&sanitized);
    }
    let mut suffix = String::new();
    push_str(&mut suffix, " [");
    let id_text = i64_to_string(comic_id);
    push_str(&mut suffix, id_text.as_str());
    push_char(&mut suffix, ']');
    proof {
        reveal_strlit(" [");
        reveal_strlit("]");
    }
    assert(suffix@ =~= id_suffix(comic_id));
    let suffix_chars = chars_of(suffix.as_str());
    let available: usize = if utf8_fits(&suffix_chars, 180) {
        180 - crate::text::utf8_len_of(&suffix_chars)
    } else {
        0
    };
    let truncated = truncate_chars(&sanitized, available);
    let mut r = string_of(&truncated);
    push_str(&mut r, suffix.as_str());
    r
}


/// The mark that starts the name of a download still in progress.
pub open spec fn partial_mark() -> Seq<char> {
    ".下载中-"@
}

/// The directory a comic is downloaded to before it is complete.
pub fn temp_download_dir_name(dir_name: &str) -> (r: String)
    ensures
        r@ == partial_mark() + dir_name@,
{
    let mut r = String::from_str(".下载中-");
    push_str(&mut r, dir_name);
    r
}

/// Whether a directory holds a download still in progress.
pub fn is_temp_download_dir(name: &str) -> (b: bool)
    ensures
        b == crate::text::starts_with(name@, partial_mark()),
{
    let v = chars_of(name);
    let m = chars_of(".下载中-");
    let r = crate::text::matches_at(&v, &m, 0);
    assert(v@.subrange(0, m@.len() as int) =~= v@.take(m@.len() as int));
    r
}

/// A directory in progress is told apart from the finished ones by its name.
pub proof fn law_temp_dir_is_recognised(dir_name: Seq<char>)
    ensures
        crate::text::starts_with(partial_mark() + dir_name, partial_mark()),
{
    assert((partial_mark() + dir_name).take(partial_mark().len() as int) =~= partial_mark());
}

/// The archive a finished download is packed into: `<directory name>.zip`.
pub fn zip_file_name(dir_name: &str) -> (r: String)
    ensures
        r@ == dir_name@ + ".zip"@,
{
    let mut r = String::from_str(dir_name);
    push_str(&mut r, ".zip");
    r
}
/// The order in which a folder's files go into its zip archive: sorted by
/// name as paths sort (the byte order of the names), each name kept as
/// often as it was given.
pub fn zip_entry_order(names: &Vec<String>) -> (r: Vec<String>)
    ensures
        texts(r@).to_multiset() == texts(names@).to_multiset(),
        forall|i: int, j: int| 0 <= i < j < r@.len() ==> !text_less(r@[j]@, r@[i]@),
{
    let mut out: Vec<String> = Vec::new();
    let mut k: usize = 0;
    assert(texts(names@.take(0)) =~= Seq::<Seq<char>>::empty());
    assert(texts(out@) =~= Seq::<Seq<char>>::empty());
    while k < names.len()
        invariant
            k <= names@.len(),
            texts(out@).to_multiset() == texts(names@.take(k as int)).to_multiset(),
            forall|i: int, j: int| 0 <= i < j < out@.len() ==> !text_less(out@[j]@, out@[i]@),
        decreases names@.len() - k,
    {
        let t = names[k].clone();
        let t_chars = chars_of(t.as_str());
        let mut pos: usize = 0;
        while pos < out.len() && !text_less_chars(&t_chars, &chars_of(out[pos].as_str()))
            invariant
                pos <= out@.len(),
                t_chars@ == t@,
                forall|m: int| 0 <= m < pos ==> !text_less(t@, #[trigger] out@[m]@),
            decreases out@.len() - pos,
        {
            pos = pos + 1;
        }
        let ghost before = out@;
        proof {
            if pos < before.len() {
                assert forall|m: int| pos <= m < before.len() implies !text_less(
                    #[trigger] before[m]@,
                    t@,
                ) by {
                    if text_less(before[m]@, t@) {
                        lemma_text_less_transitive(before[m]@, t@, before[pos as int]@);
                        if m == pos {
                            lemma_text_less_asymmetric(before[m]@, t@);
                        }
                    }
                }
            }
        }
        out.insert(pos, t);
        proof {
            let now = out@;
            assert(now == before.insert(pos as int, names@[k as int]));
            assert(texts(now) =~= texts(before).insert(pos as int, names@[k as int]@));
            assert(names@.take(k + 1) =~= names@.take(k as int).push(names@[k as int]));
            assert(texts(names@.take(k + 1)) =~= texts(names@.take(k as int)).push(names@[k as int]@));
            vstd::seq_lib::to_multiset_insert(texts(before), pos as int, names@[k as int]@);
            vstd::seq_lib::to_multiset_build(texts(names@.take(k as int)), names@[k as int]@);
            assert forall|a: int, b: int| 0 <= a < b < now.len() implies !text_less(
                now[b]@,
                now[a]@,
            ) by {
                if b < pos {
                    assert(now[a] == before[a] && now[b] == before[b]);
                } else if b == pos {
                    assert(now[a] == before[a]);
                } else if a < pos {
                    assert(now[a] == before[a] && now[b] == before[b - 1]);
                } else if a == pos {
                    assert(now[b] == before[b - 1]);
                } else {
                    assert(now[a] == before[a - 1] && now[b] == before[b - 1]);
                }
            }
        }
        k = k + 1;
    }
    assert(names@.take(names@.len() as int) =~= names@);
    out
}

/// Filtering a title changes only the characters that file names must not
/// hold: every other character stands for itself, so a title without such
/// characters is only trimmed (`[汉化组] 标题` stays as it is).
pub proof fn law_filter_keeps_allowed_characters(s: Seq<char>)
    ensures
        forall|c: char| !is_forbidden_in_filename(c) ==> #[trigger] filename_char(c) == c,
        (forall|j: int| 0 <= j < s.len() ==> !is_forbidden_in_filename(#[trigger] s[j]))
            ==> filtered_filename(s) == trim(s),
{
    if forall|j: int| 0 <= j < s.len() ==> !is_forbidden_in_filename(#[trigger] s[j]) {
        assert(s.map_values(|c: char| filename_char(c)) =~= s);
    }
}

} // verus!
