use crate::date::Date;
use vstd::prelude::*;
use vstd::string::StringExecFns;

verus! {

/// What a run is told: where the table is, and the cutoff if there is one.
#[derive(Debug)]
pub struct Config {
    pub input_file: String,
    pub last_run: Option<Date>,
}

/// Why a list of arguments makes no [`Config`].
#[derive(Debug, Clone, Copy, PartialEq, Eq, Structural)]
pub enum ArgsError {
    /// There is no argument after the program's name.
    MissingInputFile,
    /// The cutoff is not a month written as `YYYY-MM`.
    InvalidLastRun,
}

/// The first day of the month that `month` names as `YYYY-MM`.
pub open spec fn spec_cutoff(month: Seq<char>) -> Option<Date> {
    Date::spec_parse(month + "-01"@)
}

/// Reads a cutoff given as `YYYY-MM`: the first day of that month.
pub fn cutoff(month: &str) -> (r: Option<Date>)
    ensures
        r == spec_cutoff(month@),
        r matches Some(d) ==> 1 <= d.month <= 12 && 1 <= d.day <= 31,
{
    let expanded = String::from_str(month).concat("-01");
    Date::parse(expanded.as_str())
}

impl Config {
    /// The configuration for `input_file`, given what the cutoff argument
    /// was read as: `None` where there was no such argument, `Some(None)`
    /// where there was one that names no month, which is an error.
    pub fn with_cutoff(input_file: String, cutoff: Option<Option<Date>>) -> (r: Result<
        Config,
        ArgsError,
    >)
        ensures
            match cutoff {
                None => r matches Ok(config) && config.input_file == input_file
                    && config.last_run is None,
                Some(Some(date)) => r matches Ok(config) && config.input_file == input_file
                    && config.last_run == Some(date),
                Some(None) => r matches Err(e) && e == ArgsError::InvalidLastRun,
            },
    {
        match cutoff {
            None => Ok(Config { input_file, last_run: None }),
            Some(Some(date)) => Ok(Config { input_file, last_run: Some(date) }),
            Some(None) => Err(ArgsError::InvalidLastRun),
        }
    }
}

/// Reads the arguments of a run: the program's name, which is skipped, the
/// input file, and optionally the cutoff as `YYYY-MM`. Further arguments
/// are ignored.
pub fn parse_args(args: &Vec<String>) -> (r: Result<Config, ArgsError>)
    ensures
        match r {
            Ok(config) => {
                &&& args@.len() >= 2
                &&& config.input_file@ == args@[1]@
                &&& config.last_run == if args@.len() >= 3 {
                    spec_cutoff(args@[2]@)
                } else {
                    None
                }
                &&& args@.len() >= 3 ==> spec_cutoff(args@[2]@) is Some
            },
            Err(ArgsError::MissingInputFile) => args@.len() < 2,
            Err(ArgsError::InvalidLastRun) => args@.len() >= 3 && spec_cutoff(args@[2]@) is None,
        },
{
    if args.len() < 2 {
        return Err(ArgsError::MissingInputFile);
    }
    let last_run = if args.len() >= 3 {
        Some(cutoff(args[2].as_str()))
    } else {
        None
    };
    Config::with_cutoff(args[1].clone(), last_run)
}

} // verus!
