//! The commands of the time tracker, as the command line gives them.

use vstd::prelude::*;

verus! {

/// The command line: the database to use and the command to run.
#[derive(Debug)]
pub struct Cli {
    pub db: String,
    pub cmd: Command,
}

/// A command of the time tracker.
#[derive(Debug)]
#[allow(inconsistent_fields)]
pub enum Command {
    /// Work on projects.
    Project { cmd: ProjectCmd },
    /// Work on tasks.
    Task { cmd: TaskCmd },
    /// Start a timer for a task.
    Start { task_id: String },
    /// Stop the running timer.
    Stop,
    /// Print a report.
    Report { cmd: ReportCmd },
    /// Export the entries of a range of dates.
    Export { format: ExportFormat, out: String, from: Option<String>, to: Option<String> },
}

/// A command on projects.
#[derive(Debug)]
#[allow(inconsistent_fields)]
pub enum ProjectCmd {
    Add { name: String, desc: Option<String> },
    List,
    Edit { id: String, name: Option<String>, desc: Option<String> },
    Archive { id: String },
    Delete { id: String },
}

/// A command on tasks.
#[derive(Debug)]
#[allow(inconsistent_fields)]
pub enum TaskCmd {
    Add { project_id: String, name: String, desc: Option<String> },
    List { project_id: String },
    Edit { id: String, name: Option<String>, desc: Option<String> },
    Archive { id: String },
    Delete { id: String },
}

/// A report to print.
#[derive(Debug)]
pub enum ReportCmd {
    /// Totals by local date, of one date where one is given.
    Daily { date: Option<String> },
    /// The total of a project within optional bounds.
    Project { project_id: String, from: Option<String>, to: Option<String> },
    /// The total of a task within optional bounds.
    Task { task_id: String, from: Option<String>, to: Option<String> },
}

/// The format of an export.
#[derive(Clone, Copy, Debug, PartialEq, Eq, Structural)]
pub enum ExportFormat {
    Csv,
    Json,
}

} // verus!
