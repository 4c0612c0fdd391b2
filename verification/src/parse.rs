//! The top-level parse entry: text in, AST out.

use vstd::prelude::*;

use crate::askcode::AskCodeOrValue;
use crate::askcode::AskCodeReducer;
use crate::askcode::SpecCode;
use crate::reduce::ParseError;
use crate::reduce::Parser;
use crate::reduce::SpecParseError;
use crate::reduce::perr_matches;
use crate::reduce::sp_reduce;

verus! {

/// What parsing yields: the AST of the program text, or the first parse
/// failure, as the parser's mirror says.
pub open spec fn sp_parse(code: Seq<char>) -> Result<SpecCode, SpecParseError> {
    match sp_reduce::<AskCodeOrValue, AskCodeReducer>(&(AskCodeReducer {  }), code, Option::None) {
        Result::Ok(o) => Result::Ok(o.0),
        Result::Err(e) => Result::Err(e),
    }
}

/// Parses program text into an AST, exactly as `sp_parse` says.
pub fn parse(code: String) -> (r: Result<AskCodeOrValue, ParseError>)
    ensures
        match (r, sp_parse(code@)) {
            (Result::Ok(t), Result::Ok(v)) => t@ == v,
            (Result::Err(e), Result::Err(se)) => perr_matches(e, se),
            _ => false,
        },
{
    let mut parser = Parser::new(code, None);
    let ask_code_reducer = AskCodeReducer {  };
    parser.reduce(ask_code_reducer)
}

} // verus!
