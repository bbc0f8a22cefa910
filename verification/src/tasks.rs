//! Download tasks as the task API keeps them: their creation, what each line
//! of the downloader's output does to them, and how they end.

use vstd::prelude::*;
use crate::text::{
    chars_of, find_chars, find_first, is_digit, lemma_find_char_at, lemma_find_from,
    lemma_nat_decimal, lemma_parse_usize_decimal, nat_decimal, parse_usize_chars,
    parse_usize_spec, push_str, slice_chars, starts_with, string_of, strip_prefix, trim,
    trim_chars, u64_to_string, usize_to_string,
};

verus! {

/// What the task API learns of a comic before downloading it.
pub struct ComicInfo {
    pub id: i64,
    pub title: String,
    pub cover: String,
    pub image_count: i64,
}

/// A download task of the task API.
pub struct DownloadTask {
    pub id: String,
    pub target: String,
    /// `downloading`, `success` or `failed`.
    pub status: String,
    pub title: Option<String>,
    pub cover: Option<String>,
    pub total_pages: Option<i64>,
    pub completed_pages: usize,
    pub error: Option<String>,
    pub zip_path: Option<String>,
    pub stdout: Vec<String>,
    pub stderr: Vec<String>,
    pub created_at: String,
    pub updated_at: String,
    pub finished_at: Option<String>,
}

/// The texts of a list of strings.
pub open spec fn texts(v: Seq<String>) -> Seq<Seq<char>> {
    v.map_values(|s: String| s@)
}

/// The text of an optional string.
pub open spec fn opt_text(o: Option<String>) -> Option<Seq<char>> {
    match o {
        Some(s) => Some(s@),
        None => None,
    }
}

/// The fields of a task that none of the output handlers touch.
pub open spec fn same_identity(a: DownloadTask, b: DownloadTask) -> bool {
    &&& a.id@ == b.id@
    &&& a.target@ == b.target@
    &&& a.cover == b.cover
    &&& a.created_at@ == b.created_at@
}

/// What `parse_progress` reads from a line: `[<completed>/<total>]...`, both
/// numbers as `usize::from_str` reads them.
pub open spec fn progress_of(line: Seq<char>) -> Option<(usize, usize)> {
    match strip_prefix(line, seq!['[']) {
        None => None,
        Some(rest) => match find_first(rest, seq![']']) {
            None => None,
            Some(p) => {
                let progress = rest.take(p);
                match find_first(progress, seq!['/']) {
                    None => None,
                    Some(q) => match (
                        parse_usize_spec(progress.take(q)),
                        parse_usize_spec(progress.skip(q + 1)),
                    ) {
                        (Some(c), Some(t)) => Some((c, t)),
                        _ => None,
                    },
                }
            },
        },
    }
}

/// The line the downloader prints when an archive is written.
pub open spec fn zipped_prefix() -> Seq<char> {
    "zipped to "@
}

/// The line the downloader prints when a download is complete.
pub open spec fn downloaded_prefix() -> Seq<char> {
    "downloaded to "@
}

/// The archive path a line of output announces, if any (the later of the
/// two announcements wins, as in the task API).
pub open spec fn announced_zip_path(line: Seq<char>, previous: Option<Seq<char>>) -> Option<Seq<char>> {
    match strip_prefix(line, downloaded_prefix()) {
        Some(p) => Some(trim(p)),
        None => match strip_prefix(line, zipped_prefix()) {
            Some(p) => Some(trim(p)),
            None => previous,
        },
    }
}

/// The message of a failed task that ended without an error of its own: its
/// last line of error output, else its last line of output, else a default.
pub open spec fn last_output_message(stdout: Seq<Seq<char>>, stderr: Seq<Seq<char>>) -> Seq<char> {
    if stderr.len() > 0 {
        stderr.last()
    } else if stdout.len() > 0 {
        stdout.last()
    } else {
        "下载失败"@
    }
}

/// `a` is `b` once the line `line` of the downloader's output is recorded at `now`.
pub open spec fn after_stdout_line(b: DownloadTask, a: DownloadTask, line: Seq<char>, now: String) -> bool {
    &&& same_identity(a, b)
    &&& a.status == b.status
    &&& a.title == b.title
    &&& a.error == b.error
    &&& a.finished_at == b.finished_at
    &&& a.stderr == b.stderr
    &&& texts(a.stdout@) == texts(b.stdout@).push(line)
    &&& match progress_of(line) {
        Some((c, t)) => a.completed_pages == c && a.total_pages == Some(t as i64),
        None => a.completed_pages == b.completed_pages && a.total_pages == b.total_pages,
    }
    &&& opt_text(a.zip_path) == announced_zip_path(line, opt_text(b.zip_path))
    &&& a.updated_at == now
}

/// `a` is `b` once the line `line` of the downloader's error output is recorded at `now`.
pub open spec fn after_stderr_line(b: DownloadTask, a: DownloadTask, line: Seq<char>, now: String) -> bool {
    &&& same_identity(a, b)
    &&& a.status == b.status
    &&& a.title == b.title
    &&& a.error == b.error
    &&& a.finished_at == b.finished_at
    &&& a.stdout == b.stdout
    &&& a.completed_pages == b.completed_pages
    &&& a.total_pages == b.total_pages
    &&& a.zip_path == b.zip_path
    &&& texts(a.stderr@) == texts(b.stderr@).push(line)
    &&& a.updated_at == now
}

/// `a` is `b` once its downloader could not be started for `reason`.
pub open spec fn after_spawn_failure(
    b: DownloadTask,
    a: DownloadTask,
    reason: Seq<char>,
    finished_at: String,
    updated_at: String,
) -> bool {
    &&& same_identity(a, b)
    &&& a.status@ == "failed"@
    &&& opt_text(a.error) == Some("启动下载任务失败: "@ + reason)
    &&& a.finished_at == Some(finished_at)
    &&& a.updated_at == updated_at
    &&& a.title == b.title
    &&& a.stdout == b.stdout
    &&& a.stderr == b.stderr
    &&& a.completed_pages == b.completed_pages
    &&& a.total_pages == b.total_pages
    &&& a.zip_path == b.zip_path
}

/// `a` is `b` once its downloader has exited, successfully or not.
pub open spec fn after_finish(
    b: DownloadTask,
    a: DownloadTask,
    success: bool,
    updated_at: String,
    finished_at: String,
) -> bool {
    &&& same_identity(a, b)
    &&& a.updated_at == updated_at
    &&& a.finished_at == Some(finished_at)
    &&& a.stdout == b.stdout
    &&& a.stderr == b.stderr
    &&& a.zip_path == b.zip_path
    &&& a.total_pages == b.total_pages
    &&& success ==> {
        &&& a.status@ == "success"@
        &&& a.completed_pages == match b.total_pages {
            Some(t) => t as usize,
            None => b.completed_pages,
        }
        &&& opt_text(a.title) == match b.title {
            Some(t) => Some(t@),
            None => Some(b.target@),
        }
        &&& a.error == b.error
    }
    &&& !success ==> {
        &&& a.status@ == "failed"@
        &&& a.completed_pages == b.completed_pages
        &&& a.title == b.title
        &&& opt_text(a.error) == match b.error {
            Some(e) => Some(e@),
            None => Some(last_output_message(texts(b.stdout@), texts(b.stderr@))),
        }
    }
}

impl DownloadTask {
    /// A fresh task in state `downloading`, described by what is known of
    /// its comic.
    pub fn new(task_id: String, target: String, comic_info: Option<&ComicInfo>, now: String) -> (t: Self)
        ensures
            t.id == task_id,
            t.target == target,
            t.status@ == "downloading"@,
            t.title == (match comic_info {
                Some(c) => Some(c.title),
                None => None::<String>,
            }),
            t.cover == (match comic_info {
                Some(c) => Some(c.cover),
                None => None::<String>,
            }),
            t.total_pages == (match comic_info {
                Some(c) => Some(c.image_count),
                None => None::<i64>,
            }),
            t.completed_pages == 0,
            t.error is None,
            t.zip_path is None,
            t.stdout@.len() == 0,
            t.stderr@.len() == 0,
            t.created_at == now,
            t.updated_at == now,
            t.finished_at is None,
    {
        let (title, cover, total_pages) = match comic_info {
            Some(comic) => (Some(comic.title.clone()), Some(comic.cover.clone()), Some(comic.image_count)),
            None => (None, None, None),
        };
        DownloadTask {
            id: task_id,
            target,
            status: String::from_str("downloading"),
            title,
            cover,
            total_pages,
            completed_pages: 0,
            error: None,
            zip_path: None,
            stdout: Vec::new(),
            stderr: Vec::new(),
            created_at: now.clone(),
            updated_at: now,
            finished_at: None,
        }
    }
}

/// Reads the progress of a line `[<completed>/<total>] ...` that the
/// downloader prints after each image.
pub fn parse_progress(line: &str) -> (r: Option<(usize, usize)>)
    ensures
        r == progress_of(line@),
{
    let s = chars_of(line);
    if s.len() == 0 || s[0] != '[' {
        proof {
            if s@.len() > 0 {
                assert(s@.take(1)[0] == s@[0]);
            }
        }
        return None;
    }
    assert(s@.take(1) =~= seq!['[']);
    let rest = slice_chars(&s, 1, s.len());
    assert(rest@ =~= s@.skip(1));
    let close = vec![']'];
    assert(close@ =~= seq![']']);
    let p = match find_chars(&rest, &close, 0) {
        Some(p) => p,
        None => return None,
    };
    proof {
        lemma_find_from(rest@, close@, 0);
    }
    let progress = slice_chars(&rest, 0, p);
    assert(progress@ =~= rest@.take(p as int));
    let slash = vec!['/'];
    assert(slash@ =~= seq!['/']);
    let q = match find_chars(&progress, &slash, 0) {
        Some(q) => q,
        None => return None,
    };
    proof {
        lemma_find_from(progress@, slash@, 0);
    }
    let completed_text = slice_chars(&progress, 0, q);
    let total_text = slice_chars(&progress, q + 1, progress.len());
    assert(completed_text@ =~= progress@.take(q as int));
    assert(total_text@ =~= progress@.skip(q + 1));
    let completed = parse_usize_chars(&completed_text);
    let total = parse_usize_chars(&total_text);
    match (completed, total) {
        (Some(c), Some(t)) => Some((c, t)),
        _ => None,
    }
}

/// `strip_prefix` on characters: the rest of `s` after `prefix`.
fn strip_prefix_chars(s: &Vec<char>, prefix: &str) -> (r: Option<Vec<char>>)
    ensures
        match r {
            Some(v) => strip_prefix(s@, prefix@) == Some(v@),
            None => strip_prefix(s@, prefix@) is None,
        },
{
    let p = chars_of(prefix);
    if crate::text::matches_at(s, &p, 0) {
        assert(s@.subrange(0, p@.len() as int) =~= s@.take(p@.len() as int));
        Some(slice_chars(s, p.len(), s.len()))
    } else {
        assert(s@.subrange(0, p@.len() as int) =~= s@.take(p@.len() as int));
        None
    }
}

/// Appends a line to a list of output lines.
fn push_line(lines: &mut Vec<String>, line: &str)
    ensures
        texts(final(lines)@) == texts(old(lines)@).push(line@),
{
    let s = String::from_str(line);
    lines.push(s);
    assert(texts(final(lines)@) =~= texts(old(lines)@).push(line@));
}

/// Records one line of the downloader's output on its task: the line is
/// kept, a progress line `[c/t] ...` sets the page counts, a line
/// `zipped to <path>` or `downloaded to <path>` sets the archive path, and
/// the task is marked as updated at `now`.
pub fn handle_stdout_line(task: &mut DownloadTask, line: &str, now: String)
    ensures
        after_stdout_line(*old(task), *final(task), line@, now),
{
    push_line(&mut task.stdout, line);
    if let Some((completed, total)) = parse_progress(line) {
        task.completed_pages = completed;
        task.total_pages = Some(total as i64);
    }
    let s = chars_of(line);
    proof {
        reveal_strlit("zipped to ");
        reveal_strlit("downloaded to ");
    }
    if let Some(rest) = strip_prefix_chars(&s, "zipped to ") {
        let path = trim_chars(&rest);
        task.zip_path = Some(string_of(&path));
    }
    if let Some(rest) = strip_prefix_chars(&s, "downloaded to ") {
        let path = trim_chars(&rest);
        task.zip_path = Some(string_of(&path));
    }
    task.updated_at = now;
}

/// Records one line of the downloader's error output on its task.
pub fn handle_stderr_line(task: &mut DownloadTask, line: &str, now: String)
    ensures
        after_stderr_line(*old(task), *final(task), line@, now),
{
    push_line(&mut task.stderr, line);
    task.updated_at = now;
}

/// Marks a task whose downloader could not be started as failed.
pub fn mark_spawn_failed(task: &mut DownloadTask, reason: &str, finished_at: String, updated_at: String)
    ensures
        after_spawn_failure(*old(task), *final(task), reason@, finished_at, updated_at),
{
    task.status = String::from_str("failed");
    let mut message = String::from_str("启动下载任务失败: ");
    push_str(&mut message, reason);
    task.error = Some(message);
    task.finished_at = Some(finished_at);
    task.updated_at = updated_at;
}

/// The last element of a list of lines, if any.
fn last_line(lines: &Vec<String>) -> (r: Option<String>)
    ensures
        match r {
            Some(s) => lines@.len() > 0 && s@ == lines@.last()@,
            None => lines@.len() == 0,
        },
{
    if lines.len() == 0 {
        None
    } else {
        Some(lines[lines.len() - 1].clone())
    }
}

/// Ends a task once its downloader has exited: on success it is complete
/// (all pages done, titled by its target when it had no title); on failure
/// it keeps its error or takes its last line of output as the error.
pub fn finish_task(task: &mut DownloadTask, success: bool, updated_at: String, finished_at: String)
    ensures
        after_finish(*old(task), *final(task), success, updated_at, finished_at),
{
    task.updated_at = updated_at;
    task.finished_at = Some(finished_at);
    if success {
        task.status = String::from_str("success");
        if let Some(total_pages) = task.total_pages {
            task.completed_pages = total_pages as usize;
        }
        if task.title.is_none() {
            task.title = Some(task.target.clone());
        }
    } else {
        task.status = String::from_str("failed");
        if task.error.is_none() {
            let last_error = match last_line(&task.stderr) {
                Some(e) => e,
                None => match last_line(&task.stdout) {
                    Some(o) => o,
                    None => String::from_str("下载失败"),
                },
            };
            task.error = Some(last_error);
        }
    }
}

#[verifier::external_type_specification]
#[verifier::external_body]
pub struct ExSystemTime(std::time::SystemTime);

#[verifier::external_type_specification]
#[verifier::external_body]
pub struct ExSystemTimeError(std::time::SystemTimeError);

/// `SystemTime::now`: the wall-clock time; nothing is stated of it.
#[verifier::external_body]
fn system_time_now() -> std::time::SystemTime {
    std::time::SystemTime::now()
}

/// `SystemTime::duration_since(UNIX_EPOCH)`: the time elapsed since the
/// Unix epoch, an error for a time before it; nothing is stated of the
/// value, which depends on the clock.
#[verifier::external_body]
fn since_unix_epoch(t: &std::time::SystemTime) -> Result<core::time::Duration, std::time::SystemTimeError> {
    t.duration_since(std::time::UNIX_EPOCH)
}

/// `Duration::as_secs`: the whole seconds of a duration; nothing is stated
/// of them, as a duration is opaque here.
#[verifier::external_body]
fn whole_seconds(d: &core::time::Duration) -> u64 {
    d.as_secs()
}

/// The wall-clock time in whole seconds since the Unix epoch; `None` for a
/// time before it.
fn unix_seconds_now() -> Option<u64> {
    match since_unix_epoch(&system_time_now()) {
        Ok(d) => Some(whole_seconds(&d)),
        Err(_) => None,
    }
}

/// The text of a clock reading as the task API writes it: the decimal
/// seconds since the Unix epoch, `0` for a time before the epoch (`None`).
pub open spec fn clock_text_of(seconds_since_epoch: Option<u64>) -> Seq<char> {
    nat_decimal(
        match seconds_since_epoch {
            Some(s) => s as nat,
            None => 0,
        },
    )
}

/// The text of a clock reading (see `clock_text_of`).
pub fn clock_text(seconds_since_epoch: Option<u64>) -> (s: String)
    ensures
        s@ == clock_text_of(seconds_since_epoch),
{
    match seconds_since_epoch {
        Some(secs) => u64_to_string(secs),
        None => u64_to_string(0),
    }
}

/// The current time as the task API writes it: the text of the clock's
/// reading; which reading that is depends on the clock.
pub fn now_string() -> (s: String)
    ensures
        exists|reading: Option<u64>| s@ == clock_text_of(reading),
{
    clock_text(unix_seconds_now())
}


// ---------------------------------------------------------------------------
// The task store
// ---------------------------------------------------------------------------

/// The tasks of a list, keyed by id, each id taking the last task that has it.
pub open spec fn tasks_by_id(s: Seq<DownloadTask>) -> Map<Seq<char>, DownloadTask>
    decreases s.len(),
{
    if s.len() == 0 {
        Map::empty()
    } else {
        tasks_by_id(s.drop_last()).insert(s.last().id@, s.last())
    }
}

/// No two tasks of the list share an id.
pub open spec fn distinct_ids(s: Seq<DownloadTask>) -> bool {
    forall|i: int, j: int| 0 <= i < s.len() && 0 <= j < s.len() && i != j ==> s[i].id@ != s[j].id@
}

/// String order (`Ord for String`): lexicographic by character (by code
/// point), which is the byte order of the UTF-8 encodings.
pub open spec fn text_less(a: Seq<char>, b: Seq<char>) -> bool
    decreases a.len(),
{
    if a.len() == 0 {
        b.len() > 0
    } else if b.len() == 0 {
        false
    } else if a[0] == b[0] {
        text_less(a.skip(1), b.skip(1))
    } else {
        a[0] < b[0]
    }
}

/// The tasks the task API knows, by id.
pub struct TaskStore {
    tasks: Vec<DownloadTask>,
}

impl View for TaskStore {
    type V = Map<Seq<char>, DownloadTask>;

    closed spec fn view(&self) -> Map<Seq<char>, DownloadTask> {
        tasks_by_id(self.tasks@)
    }
}

/// The tasks of a distinct-id list are exactly its elements.
proof fn lemma_tasks_by_id_distinct(s: Seq<DownloadTask>)
    requires
        distinct_ids(s),
    ensures
        forall|i: int| 0 <= i < s.len() ==> #[trigger] tasks_by_id(s).contains_key(s[i].id@)
            && tasks_by_id(s)[s[i].id@] == s[i],
        forall|k: Seq<char>| #[trigger]
            tasks_by_id(s).contains_key(k) ==> exists|i: int| 0 <= i < s.len() && s[i].id@ == k,
    decreases s.len(),
{
    if s.len() > 0 {
        let t = s.drop_last();
        assert(distinct_ids(t)) by {
            assert forall|i: int, j: int|
                0 <= i < t.len() && 0 <= j < t.len() && i != j implies t[i].id@ != t[j].id@ by {
                assert(t[i] == s[i] && t[j] == s[j]);
            }
        }
        lemma_tasks_by_id_distinct(t);
        assert forall|i: int| 0 <= i < s.len() implies #[trigger] tasks_by_id(s).contains_key(
            s[i].id@,
        ) && tasks_by_id(s)[s[i].id@] == s[i] by {
            if i < s.len() - 1 {
                assert(t[i] == s[i]);
                assert(s[i].id@ != s[s.len() - 1].id@);
                assert(tasks_by_id(t).contains_key(t[i].id@));
            }
        }
        assert forall|k: Seq<char>| #[trigger] tasks_by_id(s).contains_key(k) implies exists|i: int|
            0 <= i < s.len() && s[i].id@ == k by {
            if k != s.last().id@ {
                assert(tasks_by_id(t).contains_key(k));
                let i = choose|i: int| 0 <= i < t.len() && t[i].id@ == k;
                assert(s[i] == t[i]);
            } else {
                assert(s[s.len() - 1].id@ == k);
            }
        }
    }
}

/// Replacing the task with a given id replaces it in the map.
proof fn lemma_tasks_by_id_update(s: Seq<DownloadTask>, i: int, t: DownloadTask)
    requires
        distinct_ids(s),
        0 <= i < s.len(),
        s[i].id@ == t.id@,
    ensures
        tasks_by_id(s.update(i, t)) == tasks_by_id(s).insert(t.id@, t),
        distinct_ids(s.update(i, t)),
    decreases s.len(),
{
    let u = s.update(i, t);
    assert(distinct_ids(u)) by {
        assert forall|a: int, b: int| 0 <= a < u.len() && 0 <= b < u.len() && a != b implies u[a].id@
            != u[b].id@ by {
            if a != i && b != i {
                assert(u[a] == s[a] && u[b] == s[b]);
            } else if a == i {
                assert(u[b] == s[b]);
            } else {
                assert(u[a] == s[a]);
            }
        }
    }
    if i == s.len() - 1 {
        assert(u.drop_last() =~= s.drop_last());
        assert(tasks_by_id(u) =~= tasks_by_id(s).insert(t.id@, t));
    } else {
        let d = s.drop_last();
        assert(distinct_ids(d)) by {
            assert forall|a: int, b: int|
                0 <= a < d.len() && 0 <= b < d.len() && a != b implies d[a].id@ != d[b].id@ by {
                assert(d[a] == s[a] && d[b] == s[b]);
            }
        }
        lemma_tasks_by_id_update(d, i, t);
        assert(u.drop_last() =~= d.update(i, t));
        assert(s.last().id@ != t.id@) by {
            assert(s[s.len() - 1].id@ != s[i].id@);
        }
        assert(tasks_by_id(u) =~= tasks_by_id(s).insert(t.id@, t));
    }
}

impl TaskStore {
    /// The store's invariant: no two tasks share an id.
    #[verifier::type_invariant]
    spec fn wf(&self) -> bool {
        distinct_ids(self.tasks@)
    }

    /// An empty store.
    pub fn new() -> (r: Self)
        ensures
            r@ == Map::<Seq<char>, DownloadTask>::empty(),
    {
        TaskStore { tasks: Vec::new() }
    }

    /// The index of the task with id `id`.
    fn position(&self, id: &str) -> (r: Option<usize>)
        requires
            self.wf(),
        ensures
            match r {
                Some(i) => i < self.tasks@.len() && self.tasks@[i as int].id@ == id@,
                None => forall|i: int| 0 <= i < self.tasks@.len() ==> self.tasks@[i].id@ != id@,
            },
    {
        let key = String::from_str(id);
        let mut i: usize = 0;
        while i < self.tasks.len()
            invariant
                i <= self.tasks@.len(),
                key@ == id@,
                forall|j: int| 0 <= j < i ==> self.tasks@[j].id@ != id@,
            decreases self.tasks@.len() - i,
        {
            if self.tasks[i].id == key {
                return Some(i);
            }
            i = i + 1;
        }
        None
    }

    /// The number of tasks in the store.
    pub fn len(&self) -> (n: usize)
        ensures
            n == self@.dom().len(),
    {
        proof {
            use_type_invariant(self);
            self.lemma_len();
        }
        self.tasks.len()
    }

    /// The store holds as many ids as tasks.
    proof fn lemma_len(&self)
        requires
            self.wf(),
        ensures
            self@.dom().len() == self.tasks@.len(),
            self@.dom().finite(),
        decreases self.tasks@.len(),
    {
        lemma_len_of(self.tasks@);
    }

    /// Adds a task, replacing the task with the same id if there is one.
    pub fn insert(&mut self, task: DownloadTask)
        ensures
            final(self)@ == old(self)@.insert(task.id@, task),
    {
        proof {
            use_type_invariant(&*self);
        }
        match self.position(task.id.as_str()) {
            Some(i) => {
                proof {
                    lemma_tasks_by_id_update(self.tasks@, i as int, task);
                }
                let mut tasks: Vec<DownloadTask> = Vec::new();
                std::mem::swap(&mut tasks, &mut self.tasks);
                tasks.set(i, task);
                std::mem::swap(&mut tasks, &mut self.tasks);
            },
            None => {
                let ghost before = self.tasks@;
                let ghost after = before.push(task);
                assert(after.drop_last() =~= before);
                assert(distinct_ids(after)) by {
                    assert forall|a: int, b: int|
                        0 <= a < after.len() && 0 <= b < after.len() && a != b implies after[a].id@
                        != after[b].id@ by {
                        if a < before.len() && b < before.len() {
                            assert(after[a] == before[a] && after[b] == before[b]);
                        } else if a < before.len() {
                            assert(after[a] == before[a]);
                        } else {
                            assert(after[b] == before[b]);
                        }
                    }
                }
                let mut tasks: Vec<DownloadTask> = Vec::new();
                std::mem::swap(&mut tasks, &mut self.tasks);
                tasks.push(task);
                std::mem::swap(&mut tasks, &mut self.tasks);
            },
        }
    }

    /// A store of the given tasks, each inserted in turn (a later task
    /// replaces an earlier one with the same id).
    pub fn from_tasks(tasks: Vec<DownloadTask>) -> (r: Self)
        ensures
            r@ == tasks_by_id(tasks@),
    {
        let mut store = TaskStore::new();
        let ghost all = tasks@;
        for t in it: tasks.into_iter()
            invariant
                it.seq() == all,
                store@ == tasks_by_id(all.take(it.index() as int)),
        {
            let ghost k = it.index();
            store.insert(t);
            proof {
                let next = all.take(k + 1);
                assert(next.drop_last() =~= all.take(k as int));
                assert(next.last() == all[k as int]);
            }
        }
        assert(all.take(all.len() as int) =~= all);
        store
    }

    /// The task with id `id`, if any.
    pub fn get(&self, id: &str) -> (r: Option<&DownloadTask>)
        ensures
            match r {
                Some(t) => self@.contains_key(id@) && self@[id@] == *t,
                None => !self@.contains_key(id@),
            },
    {
        proof {
            use_type_invariant(self);
            lemma_tasks_by_id_distinct(self.tasks@);
        }
        match self.position(id) {
            Some(i) => {
                assert(tasks_by_id(self.tasks@).contains_key(self.tasks@[i as int].id@));
                Some(&self.tasks[i])
            },
            None => {
                proof {
                    if self@.contains_key(id@) {
                        let i = choose|i: int| 0 <= i < self.tasks@.len() && self.tasks@[i].id@ == id@;
                        assert(self.tasks@[i].id@ != id@);
                    }
                }
                None
            },
        }
    }

    /// Records a line of a task's output (see `handle_stdout_line`); `false`,
    /// with nothing changed, when no task has the id.
    pub fn update_stdout(&mut self, id: &str, line: &str, now: String) -> (found: bool)
        ensures
            found == old(self)@.contains_key(id@),
            found ==> final(self)@.contains_key(id@) && final(self)@ == old(self)@.insert(
                id@,
                final(self)@[id@],
            ) && after_stdout_line(old(self)@[id@], final(self)@[id@], line@, now),
            !found ==> final(self)@ == old(self)@,
    {
        proof {
            use_type_invariant(&*self);
            lemma_tasks_by_id_distinct(self.tasks@);
        }
        match self.position(id) {
            Some(i) => {
                let ghost before = self.tasks@;
                assert(tasks_by_id(before).contains_key(before[i as int].id@));
                let mut tasks: Vec<DownloadTask> = Vec::new();
                std::mem::swap(&mut tasks, &mut self.tasks);
                handle_stdout_line(&mut tasks[i], line, now);
                proof {
                    let t = tasks@[i as int];
                    assert(tasks@ == before.update(i as int, t));
                    lemma_tasks_by_id_update(before, i as int, t);
                }
                std::mem::swap(&mut tasks, &mut self.tasks);
                true
            },
            None => {
                proof {
                    self.lemma_absent(id@);
                }
                false
            },
        }
    }

    /// Records a line of a task's error output (see `handle_stderr_line`).
    pub fn update_stderr(&mut self, id: &str, line: &str, now: String) -> (found: bool)
        ensures
            found == old(self)@.contains_key(id@),
            found ==> final(self)@.contains_key(id@) && final(self)@ == old(self)@.insert(
                id@,
                final(self)@[id@],
            ) && after_stderr_line(old(self)@[id@], final(self)@[id@], line@, now),
            !found ==> final(self)@ == old(self)@,
    {
        proof {
            use_type_invariant(&*self);
            lemma_tasks_by_id_distinct(self.tasks@);
        }
        match self.position(id) {
            Some(i) => {
                let ghost before = self.tasks@;
                assert(tasks_by_id(before).contains_key(before[i as int].id@));
                let mut tasks: Vec<DownloadTask> = Vec::new();
                std::mem::swap(&mut tasks, &mut self.tasks);
                handle_stderr_line(&mut tasks[i], line, now);
                proof {
                    let t = tasks@[i as int];
                    assert(tasks@ == before.update(i as int, t));
                    lemma_tasks_by_id_update(before, i as int, t);
                }
                std::mem::swap(&mut tasks, &mut self.tasks);
                true
            },
            None => {
                proof {
                    self.lemma_absent(id@);
                }
                false
            },
        }
    }

    /// Marks a task whose downloader could not be started as failed (see
    /// `mark_spawn_failed`).
    pub fn update_spawn_failed(&mut self, id: &str, reason: &str, finished_at: String, updated_at: String) -> (found: bool)
        ensures
            found == old(self)@.contains_key(id@),
            found ==> final(self)@.contains_key(id@) && final(self)@ == old(self)@.insert(
                id@,
                final(self)@[id@],
            ) && after_spawn_failure(old(self)@[id@], final(self)@[id@], reason@, finished_at, updated_at),
            !found ==> final(self)@ == old(self)@,
    {
        proof {
            use_type_invariant(&*self);
            lemma_tasks_by_id_distinct(self.tasks@);
        }
        match self.position(id) {
            Some(i) => {
                let ghost before = self.tasks@;
                assert(tasks_by_id(before).contains_key(before[i as int].id@));
                let mut tasks: Vec<DownloadTask> = Vec::new();
                std::mem::swap(&mut tasks, &mut self.tasks);
                mark_spawn_failed(&mut tasks[i], reason, finished_at, updated_at);
                proof {
                    let t = tasks@[i as int];
                    assert(tasks@ == before.update(i as int, t));
                    lemma_tasks_by_id_update(before, i as int, t);
                }
                std::mem::swap(&mut tasks, &mut self.tasks);
                true
            },
            None => {
                proof {
                    self.lemma_absent(id@);
                }
                false
            },
        }
    }

    /// Ends a task once its downloader has exited (see `finish_task`).
    pub fn update_finished(&mut self, id: &str, success: bool, updated_at: String, finished_at: String) -> (found: bool)
        ensures
            found == old(self)@.contains_key(id@),
            found ==> final(self)@.contains_key(id@) && final(self)@ == old(self)@.insert(
                id@,
                final(self)@[id@],
            ) && after_finish(old(self)@[id@], final(self)@[id@], success, updated_at, finished_at),
            !found ==> final(self)@ == old(self)@,
    {
        proof {
            use_type_invariant(&*self);
            lemma_tasks_by_id_distinct(self.tasks@);
        }
        match self.position(id) {
            Some(i) => {
                let ghost before = self.tasks@;
                assert(tasks_by_id(before).contains_key(before[i as int].id@));
                let mut tasks: Vec<DownloadTask> = Vec::new();
                std::mem::swap(&mut tasks, &mut self.tasks);
                finish_task(&mut tasks[i], success, updated_at, finished_at);
                proof {
                    let t = tasks@[i as int];
                    assert(tasks@ == before.update(i as int, t));
                    lemma_tasks_by_id_update(before, i as int, t);
                }
                std::mem::swap(&mut tasks, &mut self.tasks);
                true
            },
            None => {
                proof {
                    self.lemma_absent(id@);
                }
                false
            },
        }
    }

    /// Every task, once each, latest `updated_at` first (the task list of the
    /// task API).
    #[verifier::spinoff_prover]
    #[verifier::rlimit(40)]
    pub fn list_newest_first(&self) -> (r: Vec<&DownloadTask>)
        ensures
            r@.len() == self@.dom().len(),
            forall|j: int|
                0 <= j < r@.len() ==> self@.contains_key(#[trigger] r@[j].id@) && self@[r@[j].id@]
                    == *r@[j],
            forall|k: Seq<char>|
                #[trigger] self@.contains_key(k) ==> exists|j: int| 0 <= j < r@.len() && r@[j].id@ == k,
            forall|i: int, j: int|
                0 <= i < j < r@.len() ==> !text_less(r@[i].updated_at@, r@[j].updated_at@),
    {
        proof {
            use_type_invariant(self);
            lemma_tasks_by_id_distinct(self.tasks@);
            self.lemma_len();
        }
        let ghost src = self.tasks@;
        let mut out: Vec<&DownloadTask> = Vec::new();
        let mut i: usize = 0;
        while i < self.tasks.len()
            invariant
                src == self.tasks@,
                distinct_ids(src),
                i <= src.len(),
                out@.len() == i,
                forall|j: int| 0 <= j < out@.len() ==> exists|k: int| 0 <= k < i && *#[trigger] out@[j] == src[k],
                forall|k: int| #![trigger src[k]] 0 <= k < i ==> exists|j: int| 0 <= j < out@.len() && *#[trigger] out@[j] == src[k],
                forall|a: int, b: int|
                    0 <= a < b < out@.len() ==> !text_less(out@[a].updated_at@, out@[b].updated_at@),
            decreases src.len() - i,
        {
            let t = &self.tasks[i];
            let t_time = chars_of(t.updated_at.as_str());
            // The first position whose task is older than `t`.
            let mut pos: usize = 0;
            while pos < out.len() && !text_less_chars(&chars_of(out[pos].updated_at.as_str()), &t_time)
                invariant
                    pos <= out@.len(),
                    t_time@ == t.updated_at@,
                    forall|m: int| 0 <= m < pos ==> !text_less(#[trigger] out@[m].updated_at@, t.updated_at@),
                decreases out@.len() - pos,
            {
                pos = pos + 1;
            }
            let ghost before = out@;
            proof {
                if pos < before.len() {
                    assert(text_less(before[pos as int].updated_at@, t.updated_at@));
                    assert forall|m: int| pos <= m < before.len() implies !text_less(
                        t.updated_at@,
                        #[trigger] before[m].updated_at@,
                    ) by {
                        if m > pos {
                            lemma_text_less_total(before[pos as int].updated_at@, before[m].updated_at@);
                            if text_less(before[m].updated_at@, before[pos as int].updated_at@) {
                                lemma_text_less_transitive(
                                    before[m].updated_at@,
                                    before[pos as int].updated_at@,
                                    t.updated_at@,
                                );
                            }
                            lemma_text_less_asymmetric(before[m].updated_at@, t.updated_at@);
                        } else {
                            lemma_text_less_asymmetric(before[m].updated_at@, t.updated_at@);
                        }
                    }
                }
            }
            out.insert(pos, t);
            proof {
                let now = out@;
                assert(now == before.insert(pos as int, t));
                assert forall|a: int, b: int| 0 <= a < b < now.len() implies !text_less(
                    now[a].updated_at@,
                    now[b].updated_at@,
                ) by {
                    if b < pos {
                        assert(now[a] == before[a] && now[b] == before[b]);
                    } else if b == pos {
                        assert(now[a] == before[a]);
                    } else if a < pos {
                        assert(now[a] == before[a] && now[b] == before[b - 1]);
                        lemma_text_less_total(before[a].updated_at@, t.updated_at@);
                        if text_less(t.updated_at@, before[a].updated_at@) {
                            // before[b - 1] <= t < before[a]
                            lemma_text_less_total(t.updated_at@, before[b - 1].updated_at@);
                            if text_less(before[b - 1].updated_at@, t.updated_at@) {
                                lemma_text_less_transitive(
                                    before[b - 1].updated_at@,
                                    t.updated_at@,
                                    before[a].updated_at@,
                                );
                            }
                            lemma_text_less_asymmetric(before[a].updated_at@, before[b - 1].updated_at@);
                        } else {
                            // before[a] == t in time, and before[b - 1] <= t
                            assert(before[a].updated_at@ == t.updated_at@);
                        }
                    } else if a == pos {
                        assert(now[b] == before[b - 1]);
                    } else {
                        assert(now[a] == before[a - 1] && now[b] == before[b - 1]);
                    }
                }
                assert forall|j: int| 0 <= j < now.len() implies exists|k: int|
                    0 <= k < i + 1 && *#[trigger] now[j] == src[k] by {
                    if j < pos {
                        assert(now[j] == before[j]);
                    } else if j == pos {
                        assert(*now[j] == src[i as int]);
                    } else {
                        assert(now[j] == before[j - 1]);
                    }
                }
                assert forall|k: int| #![trigger src[k]] 0 <= k < i + 1 implies exists|j: int|
                    0 <= j < now.len() && *#[trigger] now[j] == src[k] by {
                    if k < i {
                        let j = choose|j: int| 0 <= j < before.len() && *before[j] == src[k];
                        if j < pos {
                            assert(now[j] == before[j]);
                        } else {
                            assert(now[j + 1] == before[j]);
                        }
                    } else {
                        assert(*now[pos as int] == src[k]);
                    }
                }
            }
            i = i + 1;
        }
        proof {
            assert forall|j: int| 0 <= j < out@.len() implies self@.contains_key(#[trigger] out@[j].id@)
                && self@[out@[j].id@] == *out@[j] by {
                let k = choose|k: int| 0 <= k < src.len() && *out@[j] == src[k];
                assert(tasks_by_id(src).contains_key(src[k].id@));
            }
            assert forall|k: Seq<char>| #[trigger] self@.contains_key(k) implies exists|j: int|
                0 <= j < out@.len() && out@[j].id@ == k by {
                let m = choose|m: int| 0 <= m < src.len() && src[m].id@ == k;
                let j = choose|j: int| 0 <= j < out@.len() && *out@[j] == src[m];
            }
        }
        out
    }

    /// No task of the list has an id the map lacks.
    proof fn lemma_absent(&self, id: Seq<char>)
        requires
            self.wf(),
            forall|i: int| 0 <= i < self.tasks@.len() ==> self.tasks@[i].id@ != id,
        ensures
            !self@.contains_key(id),
    {
        lemma_tasks_by_id_distinct(self.tasks@);
        if self@.contains_key(id) {
            let i = choose|i: int| 0 <= i < self.tasks@.len() && self.tasks@[i].id@ == id;
            assert(self.tasks@[i].id@ != id);
        }
    }
}

/// `text_less` never holds both ways.
pub proof fn lemma_text_less_asymmetric(a: Seq<char>, b: Seq<char>)
    ensures
        !(text_less(a, b) && text_less(b, a)),
    decreases a.len(),
{
    if a.len() > 0 && b.len() > 0 && a[0] == b[0] {
        lemma_text_less_asymmetric(a.skip(1), b.skip(1));
    }
}

/// `text_less` is transitive.
pub proof fn lemma_text_less_transitive(a: Seq<char>, b: Seq<char>, c: Seq<char>)
    requires
        text_less(a, b),
        text_less(b, c),
    ensures
        text_less(a, c),
    decreases a.len(),
{
    if a.len() > 0 && b.len() > 0 && c.len() > 0 && a[0] == b[0] && b[0] == c[0] {
        lemma_text_less_transitive(a.skip(1), b.skip(1), c.skip(1));
    }
}

/// Two texts are equal or one is less than the other.
pub proof fn lemma_text_less_total(a: Seq<char>, b: Seq<char>)
    ensures
        text_less(a, b) || text_less(b, a) || a == b,
    decreases a.len(),
{
    if a.len() == 0 && b.len() == 0 {
        assert(a =~= b);
    } else if a.len() > 0 && b.len() > 0 && a[0] == b[0] {
        lemma_text_less_total(a.skip(1), b.skip(1));
        if a.skip(1) == b.skip(1) {
            assert(a =~= seq![a[0]] + a.skip(1));
            assert(b =~= seq![b[0]] + b.skip(1));
        }
    }
}

/// `text_less` on characters.
pub(crate) fn text_less_chars(a: &Vec<char>, b: &Vec<char>) -> (r: bool)
    ensures
        r == text_less(a@, b@),
{
    let mut i: usize = 0;
    assert(a@.skip(0) =~= a@ && b@.skip(0) =~= b@);
    while i < a.len() && i < b.len() && a[i] == b[i]
        invariant
            i <= a@.len(),
            i <= b@.len(),
            text_less(a@, b@) == text_less(a@.skip(i as int), b@.skip(i as int)),
        decreases a@.len() - i,
    {
        let ghost sa = a@.skip(i as int);
        let ghost sb = b@.skip(i as int);
        assert(sa.skip(1) =~= a@.skip(i + 1));
        assert(sb.skip(1) =~= b@.skip(i + 1));
        i = i + 1;
    }
    let ghost sa = a@.skip(i as int);
    let ghost sb = b@.skip(i as int);
    if i == a.len() {
        i < b.len()
    } else if i == b.len() {
        false
    } else {
        assert(sa[0] == a@[i as int] && sb[0] == b@[i as int]);
        a[i] < b[i]
    }
}

/// A list with distinct ids has as many ids as tasks.
proof fn lemma_len_of(s: Seq<DownloadTask>)
    requires
        distinct_ids(s),
    ensures
        tasks_by_id(s).dom().finite(),
        tasks_by_id(s).dom().len() == s.len(),
    decreases s.len(),
{
    if s.len() == 0 {
        assert(tasks_by_id(s).dom() =~= Set::<Seq<char>>::empty());
    } else {
        let d = s.drop_last();
        assert(distinct_ids(d)) by {
            assert forall|a: int, b: int|
                0 <= a < d.len() && 0 <= b < d.len() && a != b implies d[a].id@ != d[b].id@ by {
                assert(d[a] == s[a] && d[b] == s[b]);
            }
        }
        lemma_len_of(d);
        lemma_tasks_by_id_distinct(d);
        assert(!tasks_by_id(d).contains_key(s.last().id@)) by {
            if tasks_by_id(d).contains_key(s.last().id@) {
                let i = choose|i: int| 0 <= i < d.len() && d[i].id@ == s.last().id@;
                assert(d[i] == s[i]);
            }
        }
        assert(tasks_by_id(s).dom() =~= tasks_by_id(d).dom().insert(s.last().id@));
    }
}


// ---------------------------------------------------------------------------
// Loading, and the lines the downloader prints
// ---------------------------------------------------------------------------

/// The tasks the task API starts with: those stored in its database; when
/// the database holds none, those of the legacy JSON file (`None` when there
/// is no such file). The flag tells whether the tasks came from the legacy
/// file and must be written to the database.
pub fn load_tasks_blocking(
    db_tasks: Vec<DownloadTask>,
    legacy_tasks: Option<Vec<DownloadTask>>,
) -> (r: (TaskStore, bool))
    ensures
        db_tasks@.len() > 0 ==> r.0@ == tasks_by_id(db_tasks@) && !r.1,
        db_tasks@.len() == 0 ==> match legacy_tasks {
            Some(l) => if l@.len() > 0 {
                r.0@ == tasks_by_id(l@) && r.1
            } else {
                r.0@ == tasks_by_id(db_tasks@) && !r.1
            },
            None => r.0@ == tasks_by_id(db_tasks@) && !r.1,
        },
{
    if db_tasks.len() == 0 {
        if let Some(imported) = legacy_tasks {
            if imported.len() > 0 {
                return (TaskStore::from_tasks(imported), true);
            }
        }
    }
    (TaskStore::from_tasks(db_tasks), false)
}

/// The text of the line that the downloader prints after each image.
pub open spec fn progress_line_text(current: usize, total: usize, url: Seq<char>) -> Seq<char> {
    "["@ + nat_decimal(current as nat) + "/"@ + nat_decimal(total as nat) + "] "@ + url
}

/// The line the downloader prints after each image: `[<current>/<total>] <url>`.
pub fn progress_line(current: usize, total: usize, url: &str) -> (s: String)
    ensures
        s@ == progress_line_text(current, total, url@),
{
    let mut s = String::from_str("[");
    push_str(&mut s, usize_to_string(current).as_str());
    push_str(&mut s, "/");
    push_str(&mut s, usize_to_string(total).as_str());
    push_str(&mut s, "] ");
    push_str(&mut s, url);
    s
}

/// The line the downloader prints once the archive is written.
pub fn zipped_line(path: &str) -> (s: String)
    ensures
        s@ == zipped_prefix() + path@,
{
    let mut s = String::from_str("zipped to ");
    push_str(&mut s, path);
    s
}

/// The line the downloader prints once the download is complete.
pub fn downloaded_line(path: &str) -> (s: String)
    ensures
        s@ == downloaded_prefix() + path@,
{
    let mut s = String::from_str("downloaded to ");
    push_str(&mut s, path);
    s
}

/// The task API reads back the counts that the downloader's progress line
/// carries, whatever URL follows them.
pub proof fn law_progress_line_read_back(current: usize, total: usize, url: Seq<char>)
    ensures
        progress_of(progress_line_text(current, total, url)) == Some((current, total)),
{
    reveal_strlit("[");
    reveal_strlit("/");
    reveal_strlit("] ");
    let c = nat_decimal(current as nat);
    let t = nat_decimal(total as nat);
    lemma_nat_decimal(current as nat);
    lemma_nat_decimal(total as nat);
    lemma_parse_usize_decimal(current);
    lemma_parse_usize_decimal(total);
    let line = progress_line_text(current, total, url);
    assert(line =~= seq!['['] + (c + seq!['/'] + t + seq![']', ' '] + url));
    assert(starts_with(line, seq!['['])) by {
        assert(line.take(1) =~= seq!['[']);
    }
    let rest = line.skip(1);
    assert(rest =~= c + seq!['/'] + t + seq![']', ' '] + url);
    let close: int = (c.len() + 1 + t.len()) as int;
    assert(rest[close] == ']');
    assert forall|j: int| 0 <= j < close implies rest[j] != ']' by {
        if j < c.len() {
            assert(rest[j] == c[j]);
            assert(is_digit(c[j]));
        } else if j > c.len() {
            assert(rest[j] == t[j - c.len() - 1]);
            assert(is_digit(t[j - c.len() - 1]));
        }
    }
    lemma_find_char_at(rest, ']', close);
    let progress = rest.take(close);
    assert(progress =~= c + seq!['/'] + t);
    assert(progress[c.len() as int] == '/');
    assert forall|j: int| 0 <= j < c.len() implies progress[j] != '/' by {
        assert(progress[j] == c[j]);
        assert(is_digit(c[j]));
    }
    lemma_find_char_at(progress, '/', c.len() as int);
    assert(progress.take(c.len() as int) =~= c);
    assert(progress.skip(c.len() + 1 as int) =~= t);
}

/// A line announcing the written archive sets the task's archive path to
/// the announced path, trimmed.
pub proof fn law_zipped_line_sets_path(path: Seq<char>, previous: Option<Seq<char>>)
    ensures
        announced_zip_path(zipped_prefix() + path, previous) == Some(trim(path)),
{
    reveal_strlit("zipped to ");
    reveal_strlit("downloaded to ");
    let line = zipped_prefix() + path;
    assert(line[0] == 'z');
    assert(!starts_with(line, downloaded_prefix())) by {
        if starts_with(line, downloaded_prefix()) {
            assert(line.take(14)[0] == line[0]);
        }
    }
    assert(line.take(10) =~= zipped_prefix());
    assert(line.skip(10) =~= path);
}

/// A line announcing the finished download sets the task's archive path to
/// the announced path, trimmed.
pub proof fn law_downloaded_line_sets_path(path: Seq<char>, previous: Option<Seq<char>>)
    ensures
        announced_zip_path(downloaded_prefix() + path, previous) == Some(trim(path)),
{
    reveal_strlit("downloaded to ");
    let line = downloaded_prefix() + path;
    assert(line.take(14) =~= downloaded_prefix());
    assert(line.skip(14) =~= path);
}
/// A task's status is one the task API reports.
pub open spec fn status_known(t: DownloadTask) -> bool {
    t.status@ == "downloading"@ || t.status@ == "success"@ || t.status@ == "failed"@
}

/// `a` is `b` after one of the task API's updates: a line of output or of
/// error output, a failure to start the downloader, or the downloader's end.
pub open spec fn task_step(b: DownloadTask, a: DownloadTask) -> bool {
    ||| exists|line: Seq<char>, now: String| #[trigger] after_stdout_line(b, a, line, now)
    ||| exists|line: Seq<char>, now: String| #[trigger] after_stderr_line(b, a, line, now)
    ||| exists|reason: Seq<char>, f: String, u: String| #[trigger] after_spawn_failure(b, a, reason, f, u)
    ||| exists|success: bool, u: String, f: String| #[trigger] after_finish(b, a, success, u, f)
}

/// A task's status is always `downloading`, `success` or `failed`: a new
/// task is `downloading`, and every update keeps the status among these.
pub proof fn law_status_stays_known(b: DownloadTask, a: DownloadTask)
    requires
        status_known(b),
        task_step(b, a),
    ensures
        status_known(a),
{
}

/// Once its downloader has ended, a task is finished for good: its end time
/// is set and its status is `success` exactly when the downloader succeeded;
/// later lines of output change neither.
pub proof fn law_finished_task_stays_finished(
    b: DownloadTask,
    a: DownloadTask,
    success: bool,
    updated_at: String,
    finished_at: String,
    line: Seq<char>,
    now: String,
    c: DownloadTask,
)
    requires
        after_finish(b, a, success, updated_at, finished_at),
        after_stdout_line(a, c, line, now) || after_stderr_line(a, c, line, now),
    ensures
        a.finished_at == Some(finished_at) && c.finished_at == Some(finished_at),
        (a.status@ == "success"@) == success,
        c.status == a.status,
{
    reveal_strlit("success");
    reveal_strlit("failed");
    assert("failed"@.len() != "success"@.len());
}

} // verus!
