//! What the downloader prints: search results, a comic's summary and the
//! tasks of the task API.

use vstd::prelude::*;
use crate::text::{i64_to_string, int_decimal, nat_decimal, push_str, u64_to_string};

verus! {

/// One comic of a search result, as the downloader lists it.
pub struct SearchedComic {
    pub id: i64,
    pub title: String,
    pub additional_info: String,
    pub is_downloaded: bool,
}

/// The line that lists a comic of a search result:
/// `[<id>] downloaded | <title> | <info>` (`-` when not downloaded).
pub open spec fn searched_comic_text(c: SearchedComic) -> Seq<char> {
    "["@ + int_decimal(c.id as int) + "] "@ + (if c.is_downloaded {
        "downloaded"@
    } else {
        "-"@
    }) + " | "@ + c.title@ + " | "@ + c.additional_info@
}

/// The line that lists a comic of a search result.
pub fn searched_comic_line(c: &SearchedComic) -> (s: String)
    ensures
        s@ == searched_comic_text(*c),
{
    let mut s = String::from_str("[");
    push_str(&mut s, i64_to_string(c.id).as_str());
    push_str(&mut s, "] ");
    push_str(&mut s, if c.is_downloaded { "downloaded" } else { "-" });
    push_str(&mut s, " | ");
    push_str(&mut s, c.title.as_str());
    push_str(&mut s, " | ");
    push_str(&mut s, c.additional_info.as_str());
    s
}

/// The line that heads a search result: `page <current>/<total>`.
pub fn search_page_line(current_page: i64, total_page: i64) -> (s: String)
    ensures
        s@ == "page "@ + int_decimal(current_page as int) + "/"@ + int_decimal(total_page as int),
{
    let mut s = String::from_str("page ");
    push_str(&mut s, i64_to_string(current_page).as_str());
    push_str(&mut s, "/");
    push_str(&mut s, i64_to_string(total_page).as_str());
    s
}

/// The lines that summarise a comic: id and title, cover, page count.
pub fn comic_summary_lines(id: i64, title: &str, cover: &str, image_count: i64) -> (r: (
    String,
    String,
    String,
))
    ensures
        r.0@ == "["@ + int_decimal(id as int) + "] "@ + title@,
        r.1@ == "cover: "@ + cover@,
        r.2@ == "pages: "@ + int_decimal(image_count as int),
{
    let mut a = String::from_str("[");
    push_str(&mut a, i64_to_string(id).as_str());
    push_str(&mut a, "] ");
    push_str(&mut a, title);
    let mut b = String::from_str("cover: ");
    push_str(&mut b, cover);
    let mut c = String::from_str("pages: ");
    push_str(&mut c, i64_to_string(image_count).as_str());
    (a, b, c)
}

/// The fields of a task of the task API that its summary shows, each as
/// found in the API's answer (`None` when absent or of another type).
pub struct TaskFields {
    pub id: Option<String>,
    pub status: Option<String>,
    pub title: Option<String>,
    pub target: Option<String>,
    pub completed_pages: Option<u64>,
    pub total_pages: Option<u64>,
    pub error: Option<String>,
    pub zip_path: Option<String>,
}

/// The text of the first present of two optional strings, else `-`.
pub open spec fn first_or_dash(a: Option<String>, b: Option<String>) -> Seq<char> {
    match a {
        Some(s) => s@,
        None => match b {
            Some(s) => s@,
            None => "-"@,
        },
    }
}

/// The lines that summarise a task: `#<id> [<status>] <title>`,
/// `progress: <done>/<total>`, then `error: ...` and `zip: ...` when known,
/// then an empty line. A task without an id shows the id it was asked by.
pub open spec fn task_summary_text(t: TaskFields, explicit_id: Option<String>) -> Seq<Seq<char>> {
    seq![
        "#"@ + first_or_dash(t.id, explicit_id) + " ["@ + first_or_dash(t.status, None) + "] "@
            + first_or_dash(t.title, t.target),
        "progress: "@ + nat_decimal(
            match t.completed_pages {
                Some(n) => n as nat,
                None => 0,
            },
        ) + "/"@ + nat_decimal(
            match t.total_pages {
                Some(n) => n as nat,
                None => 0,
            },
        ),
    ] + (match t.error {
        Some(e) => seq!["error: "@ + e@],
        None => Seq::empty(),
    }) + (match t.zip_path {
        Some(z) => seq!["zip: "@ + z@],
        None => Seq::empty(),
    }) + seq![""@]
}

/// The text of the first present of two optional strings, else `-`.
fn first_or_dash_of(a: &Option<String>, b: &Option<String>) -> (s: String)
    ensures
        s@ == first_or_dash(*a, *b),
{
    match a {
        Some(s) => s.clone(),
        None => match b {
            Some(s) => s.clone(),
            None => String::from_str("-"),
        },
    }
}

/// The lines that summarise a task of the task API.
pub fn task_summary_lines(task: &TaskFields, explicit_id: &Option<String>) -> (r: Vec<String>)
    ensures
        crate::tasks::texts(r@) == task_summary_text(*task, *explicit_id),
{
    let mut head = String::from_str("#");
    push_str(&mut head, first_or_dash_of(&task.id, explicit_id).as_str());
    push_str(&mut head, " [");
    push_str(&mut head, first_or_dash_of(&task.status, &None).as_str());
    push_str(&mut head, "] ");
    push_str(&mut head, first_or_dash_of(&task.title, &task.target).as_str());
    let mut progress = String::from_str("progress: ");
    let done = match task.completed_pages {
        Some(n) => n,
        None => 0,
    };
    let total = match task.total_pages {
        Some(n) => n,
        None => 0,
    };
    push_str(&mut progress, u64_to_string(done).as_str());
    push_str(&mut progress, "/");
    push_str(&mut progress, u64_to_string(total).as_str());
    let ghost hv = head@;
    let ghost pv = progress@;
    let mut lines: Vec<String> = Vec::new();
    lines.push(head);
    lines.push(progress);
    let ghost a = crate::tasks::texts(lines@);
    assert(a =~= seq![hv, pv]);
    if let Some(e) = &task.error {
        let mut l = String::from_str("error: ");
        push_str(&mut l, e.as_str());
        let ghost lv = l@;
        lines.push(l);
        assert(crate::tasks::texts(lines@) =~= a.push(lv));
    }
    let ghost b = crate::tasks::texts(lines@);
    assert(b =~= a + match task.error {
        Some(e) => seq!["error: "@ + e@],
        None => Seq::<Seq<char>>::empty(),
    });
    if let Some(z) = &task.zip_path {
        let mut l = String::from_str("zip: ");
        push_str(&mut l, z.as_str());
        let ghost lv = l@;
        lines.push(l);
        assert(crate::tasks::texts(lines@) =~= b.push(lv));
    }
    let ghost c = crate::tasks::texts(lines@);
    assert(c =~= b + match task.zip_path {
        Some(z) => seq!["zip: "@ + z@],
        None => Seq::<Seq<char>>::empty(),
    });
    lines.push(String::new());
    assert(crate::tasks::texts(lines@) =~= c.push(Seq::<char>::empty()));
    proof {
        reveal_strlit("");
    }
    assert(""@ =~= Seq::<char>::empty());
    let ghost spec = task_summary_text(*task, *explicit_id);
    assert(spec[0] == hv);
    assert(spec[1] == pv);
    assert(crate::tasks::texts(lines@) =~= task_summary_text(*task, *explicit_id));
    lines
}

/// The answer of the task API for an unknown task id.
pub fn task_not_found_message(id: &str) -> (s: String)
    ensures
        s@ == "task `"@ + id@ + "` not found"@,
{
    let mut s = String::from_str("task `");
    push_str(&mut s, id);
    push_str(&mut s, "` not found");
    s
}

} // verus!
