//! The command-line surface: an optional path to the runtime binaries, an
//! optional output file, and two value-carrying flags — a version label
//! override and a tuning parameter forwarded to the instance under test.
//!
//! The grammar is positional-with-flags, as the tool has always accepted
//! it: `--version-name <label>` and `--notify-multicast-threshold <value>`
//! each consume the following argument (and it is a configuration error for
//! it to be missing); the first bare argument is the binary path, the
//! second the output file; any other `--` argument is ignored.

use vstd::prelude::*;
use vstd::string::*;

use crate::errors::BenchError;

verus! {

/// The parsed command line, as character sequences.
pub struct ParsedArgs {
    pub bin_path: Option<Seq<char>>,
    pub output_file: Option<Seq<char>>,
    pub version_label: Option<Seq<char>>,
    pub tuning_value: Option<Seq<char>>,
}

/// The parsed command line.
#[derive(Clone, Debug, PartialEq, Eq)]
pub struct CliConfig {
    pub bin_path: Option<String>,
    pub output_file: Option<String>,
    pub version_label: Option<String>,
    pub tuning_value: Option<String>,
}

impl CliConfig {
    /// The character-sequence model of this configuration.
    pub open spec fn model(self) -> ParsedArgs {
        ParsedArgs {
            bin_path: match self.bin_path {
                Option::None => Option::None,
                Option::Some(s) => Option::Some(s@),
            },
            output_file: match self.output_file {
                Option::None => Option::None,
                Option::Some(s) => Option::Some(s@),
            },
            version_label: match self.version_label {
                Option::None => Option::None,
                Option::Some(s) => Option::Some(s@),
            },
            tuning_value: match self.tuning_value {
                Option::None => Option::None,
                Option::Some(s) => Option::Some(s@),
            },
        }
    }
}

/// An argument that looks like a flag: it starts with `--`.
pub open spec fn is_flag_text(a: Seq<char>) -> bool {
    a.len() >= 2 && a[0] == '-' && a[1] == '-'
}

/// One pass over the arguments from position `i` on, with `acc` holding
/// what earlier arguments established.  This is the whole grammar: each
/// value-carrying flag consumes its successor or fails, bare arguments fill
/// the two positional slots in order, anything else is skipped.
pub open spec fn spec_parse_from(args: Seq<Seq<char>>, i: int, acc: ParsedArgs) -> Result<
    ParsedArgs,
    BenchError,
>
    decreases args.len() - i,
{
    if i < 0 || i >= args.len() {
        Result::Ok(acc)
    } else {
        let a = args[i];
        if a == "--version-name"@ {
            if i + 1 < args.len() {
                spec_parse_from(
                    args,
                    i + 2,
                    ParsedArgs { version_label: Option::Some(args[i + 1]), ..acc },
                )
            } else {
                Result::Err(BenchError::ConfigurationError)
            }
        } else if a == "--notify-multicast-threshold"@ {
            if i + 1 < args.len() {
                spec_parse_from(
                    args,
                    i + 2,
                    ParsedArgs { tuning_value: Option::Some(args[i + 1]), ..acc },
                )
            } else {
                Result::Err(BenchError::ConfigurationError)
            }
        } else if !is_flag_text(a) && acc.bin_path is None {
            spec_parse_from(args, i + 1, ParsedArgs { bin_path: Option::Some(a), ..acc })
        } else if !is_flag_text(a) && acc.output_file is None {
            spec_parse_from(args, i + 1, ParsedArgs { output_file: Option::Some(a), ..acc })
        } else {
            spec_parse_from(args, i + 1, acc)
        }
    }
}

/// The empty accumulator: nothing established yet.
pub open spec fn no_args() -> ParsedArgs {
    ParsedArgs {
        bin_path: Option::None,
        output_file: Option::None,
        version_label: Option::None,
        tuning_value: Option::None,
    }
}

/// What parsing the full argument vector yields.  Position 0 is the
/// program's own name and is skipped.
pub open spec fn spec_parse(args: Seq<Seq<char>>) -> Result<ParsedArgs, BenchError> {
    spec_parse_from(args, 1, no_args())
}

/// The views of a vector of argument strings.
pub open spec fn views_of(args: Seq<String>) -> Seq<Seq<char>> {
    args.map_values(|a: String| a@)
}

/// Whether the argument starts with `--`.
fn is_flag(a: &String) -> (r: bool)
    ensures
        r == is_flag_text(a@),
{
    let s = a.as_str();
    if s.unicode_len() < 2 {
        return false;
    }
    s.get_char(0) == '-' && s.get_char(1) == '-'
}

/// Parses the command line.  The result is exactly what the grammar above
/// assigns to the argument vector; a value-carrying flag without its value
/// is the one configuration error.
pub fn parse_args(args: &Vec<String>) -> (r: Result<CliConfig, BenchError>)
    ensures
        r matches Ok(c) ==> spec_parse(views_of(args@)) == Result::<ParsedArgs, BenchError>::Ok(
            c.model(),
        ),
        r matches Err(e) ==> spec_parse(views_of(args@)) == Result::<ParsedArgs, BenchError>::Err(
            e,
        ),
{
    let flag_version = String::from_str("--version-name");
    let flag_tuning = String::from_str("--notify-multicast-threshold");
    let mut acc = CliConfig {
        bin_path: None,
        output_file: None,
        version_label: None,
        tuning_value: None,
    };
    let ghost views = views_of(args@);
    let mut i: usize = 1;
    proof {
        assert(acc.model() == no_args());
    }
    while i < args.len()
        invariant
            1 <= i,
            flag_version@ == "--version-name"@,
            flag_tuning@ == "--notify-multicast-threshold"@,
            views == views_of(args@),
            spec_parse(views) == spec_parse_from(views, i as int, acc.model()),
        decreases args.len() - i,
    {
        let a = &args[i];
        proof {
            assert(views[i as int] == a@);
        }
        if *a == flag_version {
            if i + 1 < args.len() {
                acc.version_label = Some(args[i + 1].clone());
                proof {
                    assert(views[i + 1] == args@[i + 1]@);
                }
                i = i + 2;
            } else {
                return Err(BenchError::ConfigurationError);
            }
        } else if *a == flag_tuning {
            if i + 1 < args.len() {
                acc.tuning_value = Some(args[i + 1].clone());
                proof {
                    assert(views[i + 1] == args@[i + 1]@);
                }
                i = i + 2;
            } else {
                return Err(BenchError::ConfigurationError);
            }
        } else {
            let flag = is_flag(a);
            if !flag && acc.bin_path.is_none() {
                acc.bin_path = Some(a.clone());
            } else if !flag && acc.output_file.is_none() {
                acc.output_file = Some(a.clone());
            }
            i = i + 1;
        }
    }
    Ok(acc)
}

} // verus!
