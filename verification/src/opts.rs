//! Trusted boundary to the `getopts` argument parser.
//!
//! Subcommands keep their option tables and parse results in `getopts`
//! types; these declarations and wrappers are the only places the crate
//! touches them.  What a parse yields is opaque here: the decisions taken
//! on its results are made, and verified, in the callers.
use vstd::prelude::*;

verus! {

#[verifier::external_type_specification]
#[verifier::external_body]
pub struct ExOptions(getopts::Options);

#[verifier::external_type_specification]
#[verifier::external_body]
pub struct ExMatches(getopts::Matches);

/// Relies on getopts::Options::new: a fresh, empty option table.
#[verifier::external_body]
pub fn options_new() -> getopts::Options {
    getopts::Options::new()
}

/// Relies on getopts::Options::optflag: registers one boolean flag under a
/// short and a long name.  getopts asserts that the short name is at most
/// one byte and the long name never exactly one; an option with two empty
/// names would later make `Options::parse` panic.  The precondition keeps
/// all three out (for ASCII names, bytes and characters coincide).
#[verifier::external_body]
pub fn options_optflag(opts: &mut getopts::Options, short: &str, long: &str, desc: &str)
    requires
        vstd::string::is_ascii(short),
        vstd::string::is_ascii(long),
        short@.len() <= 1,
        long@.len() != 1,
        short@.len() + long@.len() > 0,
{
    opts.optflag(short, long, desc);
}

/// Relies on getopts::Options::parse: splits the arguments into matched
/// options and free arguments, or reports why they do not conform.  Safe
/// for every `Options` built through `options_optflag`, whose precondition
/// bars the nameless option that `parse` cannot handle.
#[verifier::external_body]
pub fn options_parse(opts: &getopts::Options, args: &Vec<String>) -> Result<
    getopts::Matches,
    String,
> {
    match opts.parse(args) {
        Ok(m) => Ok(m),
        Err(e) => Err(format!("{}", e)),
    }
}

/// Relies on getopts::Matches::opt_defined and opt_present: whether the
/// named flag was defined and occurred.  The definedness guard keeps
/// opt_present from panicking on a name outside the option table.
#[verifier::external_body]
pub fn matches_flag_present(m: &getopts::Matches, name: &str) -> bool {
    m.opt_defined(name) && m.opt_present(name)
}

/// Relies on the public `free` field of getopts::Matches: the arguments
/// that matched no option, in order.
#[verifier::external_body]
pub fn matches_free(m: &getopts::Matches) -> Vec<String> {
    m.free.clone()
}

/// Relies on getopts::Options::usage: a readable summary of the option
/// table under the given brief.
#[verifier::external_body]
pub fn options_usage(opts: &getopts::Options, brief: &str) -> String {
    opts.usage(brief)
}

} // verus!
