//! Resolution of positional arguments into a validated configuration.

use vstd::prelude::*;

verus! {

/// The ways a run of the tool can fail before any matching happens.
#[derive(Debug, PartialEq, Eq, Clone, Copy)]
pub enum ErrorKind {
    /// Fewer than two positional arguments were supplied: no query.
    MissingQuery,
    /// A query was supplied but no file path followed it.
    MissingFilePath,
    /// The named file could not be read as text.
    FileReadError,
}

/// A validated, immutable configuration for one search invocation.
#[derive(Debug, PartialEq)]
pub struct Config {
    /// The substring to look for.
    pub query: String,
    /// The path of the file whose lines are searched.
    pub file_path: String,
    /// Whether matching ignores ASCII case. Derived from the presence of
    /// the `IGNORE_CASE` environment variable, which the caller reads.
    pub ignore_case: bool,
}

impl Config {
    /// Builds a configuration from positional arguments.
    ///
    /// `args[0]` is the program name and is discarded; `args[1]` is the
    /// query and `args[2]` the file path; anything further is ignored.
    /// `ignore_case` is supplied by the caller, which alone reads the
    /// process environment: it is `true` iff `IGNORE_CASE` is set there.
    pub fn build(args: &Vec<String>, ignore_case: bool) -> (r: Result<Config, ErrorKind>)
        ensures
            args@.len() < 2 ==> r == Err::<Config, ErrorKind>(ErrorKind::MissingQuery),
            args@.len() == 2 ==> r == Err::<Config, ErrorKind>(ErrorKind::MissingFilePath),
            args@.len() >= 3 ==> {
                &&& r is Ok
                &&& r->Ok_0.query@ == args@[1]@
                &&& r->Ok_0.file_path@ == args@[2]@
                &&& r->Ok_0.ignore_case == ignore_case
            },
    {
        if args.len() < 2 {
            return Err(ErrorKind::MissingQuery);
        }
        if args.len() < 3 {
            return Err(ErrorKind::MissingFilePath);
        }
        let query = args[1].clone();
        let file_path = args[2].clone();
        Ok(Config { query, file_path, ignore_case })
    }
}

} // verus!
