//! What the program works on: the parsed input file and what to do with the
//! result.

use vstd::prelude::*;
use crate::args::Args;
use crate::error::Error;
use crate::model::Smf;

verus! {

/// The parsed input file, where to save the result, and whether to play it.
#[derive(Debug)]
pub struct Input {
    pub smf: Smf,
    pub output_file: Option<std::path::PathBuf>,
    pub run: bool,
}

impl Input {
    /// Builds the input from the options and from what became of the input file:
    /// the failure to read it, or else what the parser made of its bytes, which
    /// is the event model or the parser's words on why there is none.
    pub fn build(args: Args, file: Result<Result<Smf, String>, std::io::Error>) -> (built: Result<
        Input,
        Error,
    >)
        ensures
            match file {
                Ok(Ok(smf)) => built == Ok::<Input, Error>(
                    Input { smf, output_file: args.output, run: args.run },
                ),
                Ok(Err(refusal)) => built == Err::<Input, Error>(Error::ParseInputFile(refusal)),
                Err(cause) => built == Err::<Input, Error>(Error::ReadInputFile(cause)),
            },
    {
        match file {
            Ok(Ok(smf)) => Ok(Input { smf, output_file: args.output, run: args.run }),
            Ok(Err(refusal)) => Err(Error::ParseInputFile(refusal)),
            Err(cause) => Err(Error::ReadInputFile(cause)),
        }
    }
}

} // verus!
