//! The command-name classifier used by a command-line front end.

use vstd::prelude::*;

verus! {

/// The commands a front end can ask of the toolchain.  Only tokenizing is
/// in scope.
#[derive(Debug, PartialEq)]
pub enum CommandType {
    Tokenize,
}

impl CommandType {
    /// The command named by `s`: `tokenize` and nothing else.
    pub fn parse(s: &str) -> (r: Result<CommandType, ()>)
        ensures
            r == (if s@ == "tokenize"@ {
                Result::<CommandType, ()>::Ok(CommandType::Tokenize)
            } else {
                Result::<CommandType, ()>::Err(())
            }),
    {
        if String::from_str(s) == String::from_str("tokenize") {
            Ok(CommandType::Tokenize)
        } else {
            Err(())
        }
    }
}

impl core::str::FromStr for CommandType {
    type Err = ();

    fn from_str(s: &str) -> Result<Self, Self::Err> {
        CommandType::parse(s)
    }
}

} // verus!
