use vstd::prelude::*;

verus! {

/// Command-line options shared by every subcommand.
#[derive(Debug, Clone)]
pub struct Cli {
    pub verbose: u8,
    pub dry_run: bool,
    pub yes: bool,
    pub config: Option<String>,
    pub log_file: Option<String>,
    pub command: Commands,
}

/// The subcommands.
#[derive(Debug, Clone)]
pub enum Commands {
    Show(ShowMovieArgs),
    Movie(ShowMovieArgs),
    Scan(ScanArgs),
    Doctor(DoctorArgs),
}

/// Options of the `show` and `movie` subcommands.
#[derive(Debug, Clone)]
pub struct ShowMovieArgs {
    pub source: String,
    pub destination: String,
    pub copy: bool,
    pub link: bool,
    pub symlink: bool,
    pub overwrite: bool,
    pub on_conflict: Option<ConflictArg>,
    pub clean: bool,
    pub title: Option<String>,
    pub year: Option<u16>,
    pub non_media: Option<NonMediaArg>,
    pub dry_run: bool,
    pub yes: bool,
}

/// Options of the `scan` subcommand.
#[derive(Debug, Clone)]
pub struct ScanArgs {
    pub source: String,
    pub scan_type: Option<ScanType>,
    pub json: bool,
    pub output: Option<String>,
    pub only_failed: bool,
    pub min_confidence: Option<ConfidenceArg>,
}

/// Options of the `doctor` subcommand.
#[derive(Debug, Clone)]
pub struct DoctorArgs {
    pub source: Option<String>,
    pub destination: Option<String>,
    pub json: bool,
    pub output: Option<String>,
}

#[derive(Debug, Clone, Copy, PartialEq, Eq)]
pub enum ScanType {
    Show,
    Movie,
}

#[derive(Debug, Clone, Copy, PartialEq, Eq)]
pub enum NonMediaArg {
    Keep,
    Ignore,
}

#[derive(Debug, Clone, Copy, PartialEq, Eq)]
pub enum ConflictArg {
    Skip,
    Overwrite,
    Abort,
}

#[derive(Debug, Clone, Copy, PartialEq, Eq)]
pub enum ConfidenceArg {
    Low,
    Medium,
    High,
}

} // verus!
