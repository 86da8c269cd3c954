//! Settings, commands and the context record handed through the pipeline.

use vstd::prelude::*;
use crate::style::Style;
use crate::tasks::Tasks;

verus! {

/// Subcommands of the program.
#[derive(Debug, Clone, PartialEq, Eq)]
pub enum Command {
    /// Add one line of text.
    Add { task: String },
    /// Add several lines of text.
    Addm { tasks: Vec<String> },
    /// Add a line to an arbitrary file of the task directory.
    Addto,
    /// Append text to the task on a given line.
    Append { item: usize, text: String },
    /// Delete a task, or delete a term from it.
    Delete { item: usize, term: Option<String> },
    /// List tasks, filtered by terms.
    List { terms: Vec<String> },
    /// List tasks of the active and the done list, filtered by terms.
    Listall { terms: Vec<String> },
    /// List tasks carrying one of the given priorities.
    Listpri { priorities: Vec<String> },
}

/// Command line options, already validated by the command line layer.
#[derive(Debug, Clone, PartialEq, Eq)]
pub struct Opt {
    /// Hide contexts when odd.
    pub hide_context: u8,
    /// Hide projects when odd.
    pub hide_project: u8,
    /// Drop blank lines before display.
    pub remove_blank_lines: bool,
    /// Keep line numbers stable across deletions.
    pub preserve_line_numbers: bool,
    /// Hide priority labels when odd.
    pub hide_priority: u8,
    /// Turn colors off.
    pub plain: bool,
    /// Console log verbosity.
    pub verbosity: u8,
    /// Silence console logging.
    pub quiet: bool,
    /// Prepend the current date to a new task.
    pub date_on_add: bool,
    /// Do not prepend the current date to a new task.
    pub no_date_on_add: bool,
    /// Path of the configuration file.
    pub config_file: Option<String>,
    /// The subcommand to run.
    pub cmd: Option<Command>,
    /// The sort keys to order listings by.
    pub sort_by: Vec<crate::sort::SortBy>,
}

impl Opt {
    /// All flags off, no subcommand, no sort keys.
    pub fn new() -> (r: Opt)
        ensures
            r.hide_context == 0,
            r.hide_project == 0,
            !r.remove_blank_lines,
            !r.preserve_line_numbers,
            r.hide_priority == 0,
            !r.plain,
            r.verbosity == 0,
            !r.quiet,
            !r.date_on_add,
            !r.no_date_on_add,
            r.config_file is None,
            r.cmd is None,
            r.sort_by@ =~= Seq::<crate::sort::SortBy>::empty(),
    {
        Opt {
            hide_context: 0,
            hide_project: 0,
            remove_blank_lines: false,
            preserve_line_numbers: false,
            hide_priority: 0,
            plain: false,
            verbosity: 0,
            quiet: false,
            date_on_add: false,
            no_date_on_add: false,
            config_file: None,
            cmd: None,
            sort_by: Vec::new(),
        }
    }
}

impl Default for Opt {
    /// All flags off, no subcommand, no sort keys.
    fn default() -> (r: Self)
        ensures
            r.hide_context == 0,
            r.hide_project == 0,
            !r.remove_blank_lines,
            !r.preserve_line_numbers,
            r.hide_priority == 0,
            !r.plain,
            r.verbosity == 0,
            !r.quiet,
            !r.date_on_add,
            !r.no_date_on_add,
            r.config_file is None,
            r.cmd is None,
            r.sort_by@ =~= Seq::<crate::sort::SortBy>::empty(),
    {
        Opt::new()
    }
}

/// General settings read from the configuration file.
#[derive(Debug, Clone, PartialEq, Eq)]
pub struct Settings {
    pub todo_file: Option<String>,
    pub done_file: Option<String>,
    pub report_file: Option<String>,
    pub date_on_add: Option<bool>,
    pub default_action: Option<String>,
}

impl Settings {
    /// Every setting absent.
    pub fn new() -> (r: Settings)
        ensures
            r.todo_file is None,
            r.done_file is None,
            r.report_file is None,
            r.date_on_add is None,
            r.default_action is None,
    {
        Settings {
            todo_file: None,
            done_file: None,
            report_file: None,
            date_on_add: None,
            default_action: None,
        }
    }
}

impl Default for Settings {
    /// Every setting absent.
    fn default() -> (r: Self)
        ensures
            r.todo_file is None,
            r.done_file is None,
            r.report_file is None,
            r.date_on_add is None,
            r.default_action is None,
    {
        Settings::new()
    }
}

/// Everything the configuration file provides.
#[derive(Debug)]
pub struct Config {
    /// Scalar settings.
    pub general: Settings,
    /// Per-style overrides.
    pub styles: Vec<Style>,
}

/// All current settings and data handed through the pipeline stages.
#[derive(Debug)]
pub struct AppContext {
    /// Validated command line options.
    pub opts: Opt,
    /// Settings from the configuration file.
    pub settings: Settings,
    /// Style overrides from the configuration file.
    pub styles: Vec<Style>,
    /// The active task list.
    pub tasks: Tasks,
    /// The done task list.
    pub done: Tasks,
    /// Number of lines loaded into the active list.
    pub task_ct: usize,
    /// Number of lines loaded into the done list.
    pub done_ct: usize,
}

} // verus!
