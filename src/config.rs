//! The process parameters of a run.
use vstd::prelude::*;

use crate::identities::PipelineError;
use crate::text::{all_digits, digits_value, parse_decimal};

verus! {

/// The number of positional parameters a run needs after the program name.
pub const PARAMETER_COUNT: usize = 6;

/// Where to load and how much to generate.
#[derive(Debug)]
pub struct RunConfig {
    pub host: String,
    pub user: String,
    pub password: String,
    pub dbname: String,
    pub contract_count: usize,
    pub calls_count: usize,
}

/// Whether `s` reads as a count.
pub open spec fn is_count(s: Seq<char>) -> bool {
    all_digits(s) && digits_value(s) <= usize::MAX
}

fn parse_count(s: &String) -> (r: Option<usize>)
    ensures
        r.is_some() <==> is_count(s@),
        r.is_some() ==> r.unwrap() == digits_value(s@),
{
    match parse_decimal(s.as_str()) {
        Some(v) => if v <= usize::MAX as u64 {
            Some(v as usize)
        } else {
            None
        },
        None => None,
    }
}

/// Reads the program's arguments: the program name, then host, user,
/// password, database name, contract count and call count. Fewer
/// arguments, or a count that is not a run of digits within `usize`, give
/// `InvalidArguments`; arguments after these are ignored.
pub fn parse_args(args: &Vec<String>) -> (r: Result<RunConfig, PipelineError>)
    ensures
        r.is_ok() <==> (args@.len() > PARAMETER_COUNT && is_count(args@[5]@) && is_count(
            args@[6]@,
        )),
        r.is_err() ==> r == Err::<RunConfig, PipelineError>(PipelineError::InvalidArguments),
        r.is_ok() ==> {
            let c = r.unwrap();
            &&& c.host@ == args@[1]@
            &&& c.user@ == args@[2]@
            &&& c.password@ == args@[3]@
            &&& c.dbname@ == args@[4]@
            &&& c.contract_count == digits_value(args@[5]@)
            &&& c.calls_count == digits_value(args@[6]@)
        },
{
    if args.len() <= PARAMETER_COUNT {
        return Err(PipelineError::InvalidArguments);
    }
    let contract_count = match parse_count(&args[5]) {
        Some(v) => v,
        None => return Err(PipelineError::InvalidArguments),
    };
    let calls_count = match parse_count(&args[6]) {
        Some(v) => v,
        None => return Err(PipelineError::InvalidArguments),
    };
    Ok(
        RunConfig {
            host: args[1].clone(),
            user: args[2].clone(),
            password: args[3].clone(),
            dbname: args[4].clone(),
            contract_count,
            calls_count,
        },
    )
}

} // verus!
