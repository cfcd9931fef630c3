//! Task notes: frontmatter extraction, task records, date predicates and
//! the selection of tasks for listing or counting.
pub mod collect;
pub mod date;
pub mod frontmatter;
pub mod select;
pub mod task;
