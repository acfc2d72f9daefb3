//! The options of the `product-merger` command, and their checks.

use vstd::prelude::*;

use crate::{combined, errors_view, Error, ErrorV};

verus! {

/// The log level.
#[derive(Debug, Clone, Copy, PartialEq, Eq, Structural)]
pub enum Level {
    Trace,
    Debug,
    Info,
    Warn,
    Error,
}

impl Level {
    /// The value of `RUST_LOG` that selects the level.
    pub fn filter(&self) -> (r: &'static str)
        ensures
            r@ == match *self {
                Level::Trace => "trace"@,
                Level::Debug => "debug"@,
                Level::Info => "info"@,
                Level::Warn => "warn"@,
                Level::Error => "error"@,
            },
    {
        match self {
            Level::Trace => "trace",
            Level::Debug => "debug",
            Level::Info => "info",
            Level::Warn => "warn",
            Level::Error => "error",
        }
    }
}

/// The options of the command.
#[derive(Debug)]
pub struct Opts {
    /// The input JSON path; `-` stands for the standard input.
    pub input: String,
    /// The output JSON path; `-` or none stands for the standard output.
    pub output: Option<String>,
    /// Whether all the entries of the input are base products.
    pub base_project_json: bool,
    pub level: Level,
    pub pretty: bool,
}

/// Whether the path is the same path as `-` (compared component by
/// component, as `std::path::Path` does).
pub uninterp spec fn is_dash_path(path: Seq<char>) -> bool;

/// Calls `Path::new(path) == Path::new("-")`, which compares the paths
/// component by component. The contract names the answer; what it says on
/// every target is stated: `-` itself is that path, and a path is not when it
/// does not start with `-`, or when `-` is followed by a character that no
/// target takes for a separator (`/`, and the backslash on Windows).
/// Which separators and which `.` parts may follow is left to the name, since
/// it depends on the target.
#[verifier::external_body]
fn dash_path(path: &str) -> (r: bool)
    ensures
        r == is_dash_path(path@),
        path@ == "-"@ ==> r,
        path@.len() == 0 || path@[0] != '-' ==> !r,
        path@.len() > 1 && path@[1] != '/' && path@[1] != '\\' ==> !r,
{
    std::path::Path::new(path) == std::path::Path::new("-")
}

/// The errors of the options: the input is missing (unless it is `-`), the
/// output already exists (unless it is `-`).
pub open spec fn option_errors(
    input: Seq<char>,
    input_exists: bool,
    output: Option<Seq<char>>,
    output_exists: bool,
) -> Seq<ErrorV> {
    let first: Seq<ErrorV> = if !is_dash_path(input) && !input_exists {
        seq![ErrorV::FileNotFound(input)]
    } else {
        Seq::empty()
    };
    match output {
        Some(out) => if !is_dash_path(out) && output_exists {
            first.push(ErrorV::FileExists(out))
        } else {
            first
        },
        None => first,
    }
}

impl Opts {
    /// Whether the input is read from the standard input: its path is `-`.
    pub fn reads_stdin(&self) -> (r: bool)
        ensures
            r == is_dash_path(self.input@),
    {
        dash_path(self.input.as_str())
    }

    /// The file that the output is written to; none when it goes to the
    /// standard output (no path, or `-`).
    pub fn output_file(&self) -> (r: Option<&String>)
        ensures
            match self.output {
                Some(out) => if is_dash_path(out@) {
                    r is None
                } else {
                    r is Some && r->0@ == out@
                },
                None => r is None,
            },
    {
        match &self.output {
            Some(out) => if dash_path(out.as_str()) {
                None
            } else {
                Some(out)
            },
            None => None,
        }
    }

    /// Checks the paths: the input must exist, and the output must not,
    /// `-` standing for the standard streams. `input_exists` and
    /// `output_exists` tell whether the paths exist on the file system.
    pub fn verify(&self, input_exists: bool, output_exists: bool) -> (r: Result<(), Error>)
        ensures
            match r {
                Ok(_) => combined(
                    option_errors(
                        self.input@,
                        input_exists,
                        crate::product::opt_view(self.output),
                        output_exists,
                    ),
                ) is None,
                Err(e) => combined(
                    option_errors(
                        self.input@,
                        input_exists,
                        crate::product::opt_view(self.output),
                        output_exists,
                    ),
                ) == Some(e@),
            },
    {
        let mut errs: Vec<Error> = Vec::new();
        if !dash_path(self.input.as_str()) && !input_exists {
            errs.push(Error::FileNotFound(self.input.clone()));
        }
        if let Some(out) = &self.output {
            if !dash_path(out.as_str()) && output_exists {
                errs.push(Error::FileExists(out.clone()));
            }
        }
        proof {
            assert(errors_view(errs@) =~= option_errors(
                self.input@,
                input_exists,
                crate::product::opt_view(self.output),
                output_exists,
            ));
        }
        Error::from((), errs)
    }
}

} // verus!
