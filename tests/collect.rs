use obsidian_tasks::collect::{collect_tasks, push_unique};
use obsidian_tasks::date::Date;
use obsidian_tasks::frontmatter::extract_frontmatter;
use obsidian_tasks::select::{count_selected, select, Selection};
use obsidian_tasks::task::{Task, TaskError, TaskFields};

fn day(year: i32, month: u32, day: u32) -> Date {
    Date { year, month, day }
}

fn task(name: &str, status: &str, created: Option<&str>, due: Option<Date>) -> Task {
    Task {
        filename: name.to_string(),
        status: status.to_string(),
        priority: None,
        date_created: created.map(|s| s.to_string()),
        tags: Vec::new(),
        projects: Vec::new(),
        due,
        completed_date: None,
        task_source_type: None,
    }
}

/// Reads the `key: value` lines of a block into fields, as a decoder would.
fn fields_of(block: &str) -> TaskFields {
    let mut f = TaskFields {
        status: None,
        priority: None,
        date_created: None,
        tags: None,
        projects: None,
        due: None,
        completed_date: None,
        task_source_type: None,
    };
    for line in block.lines() {
        if let Some((k, v)) = line.split_once(": ") {
            match k {
                "status" => f.status = Some(v.to_string()),
                "due" => f.due = Some(v.to_string()),
                "completedDate" => f.completed_date = Some(v.to_string()),
                "dateCreated" => f.date_created = Some(v.to_string()),
                _ => {}
            }
        }
    }
    f
}

fn note(name: &str, content: &str) -> Result<Task, TaskError> {
    match extract_frontmatter(content) {
        None => Err(TaskError::MissingFrontmatter),
        Some(block) => Task::from_fields(fields_of(&block), Some(name.to_string())),
    }
}

#[test]
fn duplicates_keep_the_first() {
    let found = vec![
        Ok(task("a", "todo", None, None)),
        Ok(task("a", "done", None, None)),
        Ok(task("b", "todo", Some("2024-01-01"), None)),
        Ok(task("b", "done", Some("2024-01-01"), None)),
        Ok(task("b", "later", Some("2024-01-02"), None)),
    ];
    let tasks = collect_tasks(found);
    assert_eq!(tasks.len(), 3);
    assert_eq!((tasks[0].filename.as_str(), tasks[0].status.as_str()), ("a", "todo"));
    assert_eq!((tasks[1].filename.as_str(), tasks[1].status.as_str()), ("b", "todo"));
    assert_eq!((tasks[2].filename.as_str(), tasks[2].status.as_str()), ("b", "later"));
}

#[test]
fn absent_and_present_creation_dates_differ() {
    let mut tasks = Vec::new();
    assert!(push_unique(&mut tasks, task("a", "todo", None, None)));
    assert!(push_unique(&mut tasks, task("a", "todo", Some("2024-01-01"), None)));
    assert!(!push_unique(&mut tasks, task("a", "other", None, None)));
    assert!(!push_unique(&mut tasks, task("a", "other", Some("2024-01-01"), None)));
    assert!(push_unique(&mut tasks, task("A", "todo", None, None)));
    assert_eq!(tasks.len(), 3);
}

#[test]
fn invalid_note_is_skipped() {
    let outcomes = vec![
        note("bad", "---\npriority: high\n---\n"),
        note("good", "---\nstatus: todo\n---\nbody"),
    ];
    assert_eq!(outcomes[0].as_ref().err(), Some(&TaskError::MalformedFrontmatter));
    let tasks = collect_tasks(outcomes);
    assert_eq!(tasks.len(), 1);
    assert_eq!(tasks[0].filename, "good");
}

#[test]
fn every_error_kind_is_skipped() {
    let outcomes = vec![
        Err(TaskError::Io),
        Err(TaskError::MissingFrontmatter),
        note("plain", "no frontmatter here"),
        Ok(task("kept", "todo", None, None)),
        Err(TaskError::MalformedFrontmatter),
    ];
    let tasks = collect_tasks(outcomes);
    assert_eq!(tasks.len(), 1);
    assert_eq!(tasks[0].filename, "kept");
}

#[test]
fn overdue_scenario() {
    let today = day(2024, 3, 1);
    let outcomes = vec![
        note("a", "---\nstatus: done\ndue: 2024-02-29\n---\n"),
        note("b", "---\nstatus: todo\ndue: 2024-02-29\n---\n"),
    ];
    let tasks = collect_tasks(outcomes);
    assert_eq!(tasks.len(), 2);
    let picked = select(&tasks, Selection::Overdue, today);
    assert_eq!(picked, vec![1]);
    assert_eq!(tasks[picked[0]].filename, "b");
    let sel = Selection::for_count(false, true, false);
    assert_eq!(sel, Selection::Overdue);
    assert_eq!(count_selected(&tasks, sel, today), 1);
}

#[test]
fn empty_scan() {
    let tasks = collect_tasks(Vec::new());
    assert!(tasks.is_empty());
    let today = day(2024, 3, 1);
    assert!(select(&tasks, Selection::All, today).is_empty());
    let sel = Selection::for_count(false, false, false);
    assert_eq!(sel, Selection::Pending);
    assert_eq!(count_selected(&tasks, sel, today), 0);
}

#[test]
fn count_flag_precedence() {
    assert_eq!(Selection::for_count(true, true, true), Selection::DueToday);
    assert_eq!(Selection::for_count(false, true, true), Selection::Overdue);
    assert_eq!(Selection::for_count(false, false, true), Selection::CompletedToday);
    assert_eq!(Selection::for_count(false, false, false), Selection::Pending);
}

#[test]
fn selections_pick_in_order() {
    let today = day(2024, 3, 1);
    let mut done_today = task("c", "done", None, None);
    done_today.completed_date = Some(today);
    let tasks = vec![
        task("a", "todo", None, Some(today)),
        task("b", "todo", None, Some(day(2024, 2, 1))),
        done_today,
        task("d", "DONE", None, Some(day(2024, 2, 1))),
    ];
    assert_eq!(select(&tasks, Selection::All, today), vec![0, 1, 2, 3]);
    assert_eq!(select(&tasks, Selection::DueToday, today), vec![0]);
    assert_eq!(select(&tasks, Selection::Overdue, today), vec![1]);
    assert_eq!(select(&tasks, Selection::Pending, today), vec![0, 1]);
    assert_eq!(select(&tasks, Selection::CompletedToday, today), vec![2]);
    assert_eq!(count_selected(&tasks, Selection::Pending, today), 2);
}
