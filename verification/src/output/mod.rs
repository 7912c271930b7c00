//! Output formats for port allocations.

pub mod shell;
pub mod formatters;
pub mod json;

use vstd::prelude::*;
use crate::error::Error;
use crate::port::Port;
use crate::tag_map::TagMap;
use self::formatters::{
    dotenv_output, export_output, human_output, json_output, DotenvFormatter, ExportFormatter,
    HumanFormatter, JsonFormatter,
};
use self::shell::ShellType;

verus! {

/// Formatting of port allocations into text.
pub trait OutputFormatter {
    /// Formats the allocations (service tag to port).
    fn format(&self, allocations: &TagMap<Port>) -> Result<String, Error>;
}

impl OutputFormatter for ExportFormatter {
    fn format(&self, allocations: &TagMap<Port>) -> (r: Result<String, Error>)
        ensures
            export_output(*self, *allocations, r),
    {
        ExportFormatter::format(self, allocations)
    }
}

impl OutputFormatter for DotenvFormatter {
    fn format(&self, allocations: &TagMap<Port>) -> (r: Result<String, Error>)
        ensures
            dotenv_output(*self, *allocations, r),
    {
        DotenvFormatter::format(self, allocations)
    }
}

impl OutputFormatter for JsonFormatter {
    fn format(&self, allocations: &TagMap<Port>) -> (r: Result<String, Error>)
        ensures
            json_output(*allocations, r),
    {
        JsonFormatter::format(self, allocations)
    }
}

impl OutputFormatter for HumanFormatter {
    fn format(&self, allocations: &TagMap<Port>) -> (r: Result<String, Error>)
        ensures
            human_output(*allocations, r),
    {
        HumanFormatter::format(self, allocations)
    }
}

/// Available output formats for port allocations.
#[derive(Debug, Clone, Copy, PartialEq, Eq, Structural)]
pub enum OutputFormat {
    /// Shell-specific export statements.
    Export(ShellType),
    /// JSON.
    Json,
    /// Dotenv (`.env` file) lines.
    Dotenv,
    /// Human-readable text.
    Human,
}

/// A formatter of any of the available formats.
#[derive(Debug)]
pub enum Formatter {
    /// Export statements.
    Export(ExportFormatter),
    /// JSON.
    Json(JsonFormatter),
    /// Dotenv lines.
    Dotenv(DotenvFormatter),
    /// Human-readable text.
    Human(HumanFormatter),
}

/// What formatting with `f` gives: what its formatter gives.
pub open spec fn formatter_output(f: Formatter, allocations: TagMap<Port>, r: Result<String, Error>) -> bool {
    match f {
        Formatter::Export(e) => export_output(e, allocations, r),
        Formatter::Json(_) => json_output(allocations, r),
        Formatter::Dotenv(d) => dotenv_output(d, allocations, r),
        Formatter::Human(_) => human_output(allocations, r),
    }
}

/// Whether `f` is the formatter for `format` with the names `env_mappings`:
/// export and dotenv formatters use them, the others ignore them.
pub open spec fn formatter_for(format: OutputFormat, env_mappings: Option<TagMap<String>>, f: Formatter) -> bool {
    match format {
        OutputFormat::Export(shell) => f matches Formatter::Export(e) && e.shell == shell
            && e.env_mappings == env_mappings,
        OutputFormat::Json => f is Json,
        OutputFormat::Dotenv => f matches Formatter::Dotenv(d) && d.env_mappings == env_mappings,
        OutputFormat::Human => f is Human,
    }
}

/// What formatting directly with the formatter of `format`, built with
/// `env_mappings` where it takes them, gives.
pub open spec fn direct_output(
    format: OutputFormat,
    env_mappings: Option<TagMap<String>>,
    allocations: TagMap<Port>,
    r: Result<String, Error>,
) -> bool {
    match format {
        OutputFormat::Export(shell) => export_output(ExportFormatter { shell, env_mappings }, allocations, r),
        OutputFormat::Json => json_output(allocations, r),
        OutputFormat::Dotenv => dotenv_output(DotenvFormatter { env_mappings }, allocations, r),
        OutputFormat::Human => human_output(allocations, r),
    }
}

/// Whether two formatting outcomes agree: the same text, or refusals with
/// the same field and message.
pub open spec fn same_outcome(r1: Result<String, Error>, r2: Result<String, Error>) -> bool {
    match r1 {
        Ok(a) => r2 matches Ok(b) && a@ == b@,
        Err(Error::Validation { field: f1, message: m1 }) => r2 matches Err(Error::Validation { field: f2, message: m2 })
            && f1@ == f2@ && m1@ == m2@,
        Err(_) => false,
    }
}

/// Formatting through the formatter that a format creates gives the same
/// outcome as formatting directly with that format's formatter: the same
/// text, or the same refusal.
pub proof fn lemma_formatter_dispatch(
    format: OutputFormat,
    env_mappings: Option<TagMap<String>>,
    f: Formatter,
    allocations: TagMap<Port>,
    through: Result<String, Error>,
    direct: Result<String, Error>,
)
    requires
        formatter_for(format, env_mappings, f),
        formatter_output(f, allocations, through),
        direct_output(format, env_mappings, allocations, direct),
    ensures
        same_outcome(through, direct),
{
}

impl OutputFormatter for Formatter {
    fn format(&self, allocations: &TagMap<Port>) -> (r: Result<String, Error>)
        ensures
            formatter_output(*self, *allocations, r),
    {
        match self {
            Formatter::Export(f) => ExportFormatter::format(f, allocations),
            Formatter::Json(f) => JsonFormatter::format(f, allocations),
            Formatter::Dotenv(f) => DotenvFormatter::format(f, allocations),
            Formatter::Human(f) => HumanFormatter::format(f, allocations),
        }
    }
}

impl OutputFormat {
    /// The formatter for this format; export and dotenv formatters use the
    /// given names for service tags, the others ignore them.
    pub fn create_formatter(&self, env_mappings: Option<TagMap<String>>) -> (f: Formatter)
        ensures
            formatter_for(*self, env_mappings, f),
    {
        match self {
            OutputFormat::Export(shell) => Formatter::Export(ExportFormatter::new(*shell, env_mappings)),
            OutputFormat::Json => Formatter::Json(JsonFormatter),
            OutputFormat::Dotenv => Formatter::Dotenv(DotenvFormatter::new(env_mappings)),
            OutputFormat::Human => Formatter::Human(HumanFormatter),
        }
    }
}

} // verus!
