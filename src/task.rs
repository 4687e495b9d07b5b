use vstd::prelude::*;

verus! {

/// The lifecycle state of a task.
#[derive(Debug, Clone, Copy, PartialEq, Eq, Structural)]
pub enum Status {
    Todo,
    InProgress,
    Done,
    Blocked,
}

/// One dated to-do entry.
#[derive(Debug, Clone)]
pub struct Task {
    pub id: String,
    pub description: String,
    pub status: Status,
    /// The calendar date in `YYYY-MM-DD` form.
    pub date: String,
}

/// The tasks that share one date.
#[derive(Debug, Clone)]
pub struct GroupedTasks {
    pub date: String,
    pub tasks: Vec<Task>,
}

/// What can go wrong in the library's operations.
#[derive(Debug, Clone, Copy, PartialEq, Eq, Structural)]
pub enum TaskError {
    /// Date resolution produced a calendar date that does not exist.
    InvalidDate,
    /// A task description was empty or blank.
    DescriptionEmpty,
    /// No task has the given id, or a position is beyond the day's tasks.
    NotFound,
    /// The store could not be opened, read or written.
    StorageUnavailable,
    /// A stored status token matches no status.
    DataCorruption,
}

/// The stored text of each status.
pub open spec fn token_of(s: Status) -> Seq<char> {
    match s {
        Status::Todo => seq!['t', 'o', 'd', 'o'],
        Status::InProgress => seq!['i', 'n', '_', 'p', 'r', 'o', 'g', 'r', 'e', 's', 's'],
        Status::Done => seq!['d', 'o', 'n', 'e'],
        Status::Blocked => seq!['b', 'l', 'o', 'c', 'k', 'e', 'd'],
    }
}

/// `a` read case-insensitively equals the lower-case character `b`.
pub open spec fn char_folds_to(a: char, b: char) -> bool {
    a == b || ('a' <= b && b <= 'z' && (a as u32) + 32 == (b as u32))
}

/// `t` equals the lower-case token `tok`, ignoring ASCII case.
pub open spec fn text_folds_to(t: Seq<char>, tok: Seq<char>) -> bool {
    t.len() == tok.len() && forall|i: int| 0 <= i < t.len() ==> char_folds_to(#[trigger] t[i], tok[i])
}

/// The status that a stored token names, if any.
pub open spec fn status_of_token(t: Seq<char>) -> Option<Status> {
    if text_folds_to(t, token_of(Status::Todo)) {
        Some(Status::Todo)
    } else if text_folds_to(t, token_of(Status::InProgress)) {
        Some(Status::InProgress)
    } else if text_folds_to(t, token_of(Status::Done)) {
        Some(Status::Done)
    } else if text_folds_to(t, token_of(Status::Blocked)) {
        Some(Status::Blocked)
    } else {
        None
    }
}

/// A character that counts as blank space in a description.
pub open spec fn is_space(c: char) -> bool {
    c == ' ' || c == '\t' || c == '\n' || c == '\r'
}

/// Text made of blank space only (the empty text included).
pub open spec fn is_blank(s: Seq<char>) -> bool {
    forall|i: int| 0 <= i < s.len() ==> is_space(#[trigger] s[i])
}

/// Whether `t` equals the lower-case token `tok`, ignoring ASCII case.
fn folds_to(t: &str, tok: &str) -> (r: bool)
    ensures
        r == text_folds_to(t@, tok@),
{
    let n = t.unicode_len();
    let m = tok.unicode_len();
    if n != m {
        return false;
    }
    let mut i: usize = 0;
    while i < n
        invariant
            n == t@.len(),
            m == tok@.len(),
            n == m,
            i <= n,
            forall|k: int| 0 <= k < i ==> char_folds_to(#[trigger] t@[k], tok@[k]),
        decreases n - i,
    {
        let a = t.get_char(i);
        let b = tok.get_char(i);
        let same = a == b || ('a' <= b && b <= 'z' && (a as u32) + 32 == (b as u32));
        if !same {
            return false;
        }
        i = i + 1;
    }
    true
}

impl Status {
    /// The canonical stored text of this status.
    pub fn as_token(&self) -> (r: &'static str)
        ensures
            r@ == token_of(*self),
    {
        match self {
            Status::Todo => {
                proof { reveal_strlit("todo"); }
                let r = "todo";
                assert(r@ =~= token_of(*self));
                r
            },
            Status::InProgress => {
                proof { reveal_strlit("in_progress"); }
                let r = "in_progress";
                assert(r@ =~= token_of(*self));
                r
            },
            Status::Done => {
                proof { reveal_strlit("done"); }
                let r = "done";
                assert(r@ =~= token_of(*self));
                r
            },
            Status::Blocked => {
                proof { reveal_strlit("blocked"); }
                let r = "blocked";
                assert(r@ =~= token_of(*self));
                r
            },
        }
    }

    /// Reads a stored token, ignoring ASCII case; `None` for an unknown token.
    pub fn from_token(t: &str) -> (r: Option<Status>)
        ensures
            r == status_of_token(t@),
    {
        if folds_to(t, Status::Todo.as_token()) {
            Some(Status::Todo)
        } else if folds_to(t, Status::InProgress.as_token()) {
            Some(Status::InProgress)
        } else if folds_to(t, Status::Done.as_token()) {
            Some(Status::Done)
        } else if folds_to(t, Status::Blocked.as_token()) {
            Some(Status::Blocked)
        } else {
            None
        }
    }
}

/// Writing a status as its token and reading the token back gives the same status.
pub proof fn lemma_status_token_round_trip(s: Status)
    ensures
        status_of_token(token_of(s)) == Some(s),
{
    let t = token_of(s);
    assert(text_folds_to(t, t));
    let todo = token_of(Status::Todo);
    let prog = token_of(Status::InProgress);
    let done = token_of(Status::Done);
    let blocked = token_of(Status::Blocked);
    if s != Status::Todo {
        assert(!char_folds_to(t[0], todo[0]));
        assert(!text_folds_to(t, todo));
    }
    if s != Status::InProgress && s != Status::Todo {
        assert(t.len() != prog.len());
    }
    if s == Status::Blocked {
        assert(!char_folds_to(t[0], done[0]));
        assert(!text_folds_to(t, done));
    }
}

/// Whether the text is empty or made of blank space only.
pub fn is_blank_text(s: &str) -> (r: bool)
    ensures
        r == is_blank(s@),
{
    let n = s.unicode_len();
    let mut i: usize = 0;
    while i < n
        invariant
            n == s@.len(),
            i <= n,
            forall|k: int| 0 <= k < i ==> is_space(#[trigger] s@[k]),
        decreases n - i,
    {
        let c = s.get_char(i);
        if !(c == ' ' || c == '\t' || c == '\n' || c == '\r') {
            assert(!is_space(s@[i as int]));
            return false;
        }
        i = i + 1;
    }
    true
}

/// A field-for-field copy of a task.
pub fn copy_task(t: &Task) -> (r: Task)
    ensures
        r == *t,
{
    Task {
        id: t.id.clone(),
        description: t.description.clone(),
        status: t.status,
        date: t.date.clone(),
    }
}

} // verus!
