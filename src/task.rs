//! Task records: building them from decoded frontmatter fields, and the
//! predicates on status and dates.
use crate::date::{date_before, iso_date_of, parse_iso_date, Date};
use vstd::prelude::*;

verus! {

/// Why a note yields no task.
#[derive(Clone, Copy, Debug, PartialEq, Eq, Structural)]
pub enum TaskError {
    /// The note could not be read.
    Io,
    /// The note has no frontmatter block.
    MissingFrontmatter,
    /// The block lacks `status`, is not decodable, or holds a date that is
    /// not `YYYY-MM-DD`.
    MalformedFrontmatter,
}

/// The fields of a frontmatter block as decoded, before defaults and checks.
pub struct TaskFields {
    pub status: Option<String>,
    pub priority: Option<String>,
    pub date_created: Option<String>,
    pub tags: Option<Vec<String>>,
    pub projects: Option<Vec<String>>,
    pub due: Option<String>,
    pub completed_date: Option<String>,
    pub task_source_type: Option<String>,
}

/// The metadata of one note.
pub struct Task {
    pub filename: String,
    pub status: String,
    pub priority: Option<String>,
    pub date_created: Option<String>,
    pub tags: Vec<String>,
    pub projects: Vec<String>,
    pub due: Option<Date>,
    pub completed_date: Option<Date>,
    pub task_source_type: Option<String>,
}

/// What the standard library's `str::to_lowercase` makes of a text.
pub uninterp spec fn lower_of(s: Seq<char>) -> Seq<char>;

/// Relies on `str::to_lowercase`: the result depends on the characters alone.
#[verifier::external_body]
fn lowercase(s: &str) -> (r: String)
    ensures
        r@ == lower_of(s@),
{
    s.to_lowercase()
}

/// Whether a lowercased status is one of the words that mark a task done.
pub open spec fn done_word(folded: Seq<char>) -> bool {
    folded == "done"@ || folded == "completed"@ || folded == "x"@
}

/// Whether a task is done: its status, lowercased, is a done word.
pub open spec fn spec_done(t: &Task) -> bool {
    done_word(lower_of(t.status@))
}

/// Whether a task is due on `today`.
pub open spec fn spec_due_today(t: &Task, today: Date) -> bool {
    t.due == Some(today)
}

/// Whether a task that is not done was due before `today`.
pub open spec fn spec_overdue(t: &Task, today: Date) -> bool {
    match t.due {
        Some(d) => date_before(d, today) && !spec_done(t),
        None => false,
    }
}

/// Whether a task was completed on `today`.
pub open spec fn spec_completed_today(t: &Task, today: Date) -> bool {
    t.completed_date == Some(today)
}

/// The date that a present date field holds, if it reads as one.
pub open spec fn date_field(f: Option<String>) -> Option<Date> {
    match f {
        Some(s) => match iso_date_of(s@) {
            Some((y, m, d)) => Some(Date { year: y as i32, month: m as u32, day: d as u32 }),
            None => None,
        },
        None => None,
    }
}

/// A date field is acceptable when absent or when it reads as a date.
pub open spec fn date_field_ok(f: Option<String>) -> bool {
    match f {
        Some(s) => iso_date_of(s@) is Some,
        None => true,
    }
}

/// The fields make a task: `status` is present and each date reads as one.
pub open spec fn fields_ok(f: &TaskFields) -> bool {
    f.status is Some && date_field_ok(f.due) && date_field_ok(f.completed_date)
}

/// The view of an optional list of strings, empty when absent.
pub open spec fn list_or_empty(l: Option<Vec<String>>) -> Seq<String> {
    match l {
        Some(v) => v@,
        None => Seq::empty(),
    }
}

/// Whether a lowercased status marks a task done: it is `done`,
/// `completed` or `x`.
pub fn is_done_status(folded: &str) -> (r: bool)
    ensures
        r == done_word(folded@),
{
    let s = String::from_str(folded);
    s == String::from_str("done") || s == String::from_str("completed") || s == String::from_str("x")
}

fn read_date(f: Option<String>) -> (r: Result<Option<Date>, TaskError>)
    ensures
        match r {
            Ok(d) => date_field_ok(f) && d == date_field(f) && (d matches Some(x) ==> x.wf()),
            Err(e) => !date_field_ok(f) && e == TaskError::MalformedFrontmatter,
        },
{
    match f {
        Some(s) => match parse_iso_date(s.as_str()) {
            Some(d) => Ok(Some(d)),
            None => Err(TaskError::MalformedFrontmatter),
        },
        None => Ok(None),
    }
}

impl Task {
    /// Builds the task of a note from its decoded frontmatter fields and the
    /// file's base name without extension (`None` when that name is not
    /// text, which gives `unknown`). Missing lists become empty; a missing
    /// status or a date that does not read as `YYYY-MM-DD` is refused.
    pub fn from_fields(fields: TaskFields, stem: Option<String>) -> (r: Result<Task, TaskError>)
        ensures
            r is Err <==> !fields_ok(&fields),
            r matches Err(e) ==> e == TaskError::MalformedFrontmatter,
            r matches Ok(t) ==> {
                &&& Some(t.status) == fields.status
                &&& t.filename@ == (match stem {
                    Some(n) => n@,
                    None => "unknown"@,
                })
                &&& t.priority == fields.priority
                &&& t.date_created == fields.date_created
                &&& t.tags@ == list_or_empty(fields.tags)
                &&& t.projects@ == list_or_empty(fields.projects)
                &&& t.due == date_field(fields.due)
                &&& t.completed_date == date_field(fields.completed_date)
                &&& t.task_source_type == fields.task_source_type
                &&& (t.due matches Some(d) ==> d.wf())
                &&& (t.completed_date matches Some(d) ==> d.wf())
            },
    {
        let TaskFields {
            status,
            priority,
            date_created,
            tags,
            projects,
            due,
            completed_date,
            task_source_type,
        } = fields;
        let status = match status {
            Some(s) => s,
            None => return Err(TaskError::MalformedFrontmatter),
        };
        let due = match read_date(due) {
            Ok(d) => d,
            Err(e) => return Err(e),
        };
        let completed_date = match read_date(completed_date) {
            Ok(d) => d,
            Err(e) => return Err(e),
        };
        let filename = match stem {
            Some(n) => n,
            None => String::from_str("unknown"),
        };
        let tags = match tags {
            Some(v) => v,
            None => Vec::new(),
        };
        let projects = match projects {
            Some(v) => v,
            None => Vec::new(),
        };
        Ok(
            Task {
                filename,
                status,
                priority,
                date_created,
                tags,
                projects,
                due,
                completed_date,
                task_source_type,
            },
        )
    }

    /// Whether the task is done: its status, lowercased, is `done`,
    /// `completed` or `x`.
    pub fn is_done(&self) -> (r: bool)
        ensures
            r == spec_done(self),
    {
        let folded = lowercase(self.status.as_str());
        is_done_status(folded.as_str())
    }

    /// Whether the task is not done.
    pub fn is_pending(&self) -> (r: bool)
        ensures
            r == !spec_done(self),
    {
        !self.is_done()
    }

    /// Whether the task is due on `today`.
    pub fn is_due_today(&self, today: Date) -> (r: bool)
        ensures
            r == spec_due_today(self, today),
    {
        match self.due {
            Some(d) => d == today,
            None => false,
        }
    }

    /// Whether the task is not done and was due before `today`.
    pub fn is_overdue(&self, today: Date) -> (r: bool)
        ensures
            r == spec_overdue(self, today),
    {
        match self.due {
            Some(d) => !self.is_done() && d.is_before(&today),
            None => false,
        }
    }

    /// Whether the task was completed on `today`.
    pub fn is_completed_today(&self, today: Date) -> (r: bool)
        ensures
            r == spec_completed_today(self, today),
    {
        match self.completed_date {
            Some(d) => d == today,
            None => false,
        }
    }
}

/// A task that is done is never overdue, however old its due date.
pub proof fn lemma_done_never_overdue(t: &Task, today: Date)
    requires
        spec_done(t),
    ensures
        !spec_overdue(t, today),
{
}

/// No task is both due today and overdue on the same day.
pub proof fn lemma_due_today_not_overdue(t: &Task, today: Date)
    ensures
        !(spec_due_today(t, today) && spec_overdue(t, today)),
{
}

} // verus!
