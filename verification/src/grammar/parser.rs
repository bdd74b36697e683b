//! The SMTP grammar behind a parser value that can be handed around.
use vstd::prelude::*;
use crate::grammar::rules;
use crate::grammar::smtp::{command, script, ParseResult};
use crate::model::command::{SmtpCommand, SmtpInput};

verus! {

/// Reads commands and scripts.
pub trait Parser {
    fn command(&self, input: &str) -> (r: ParseResult<SmtpCommand>)
        ensures
            match r {
                Ok(c) => rules::parse_command(input@) == Some(c@),
                Err(_) => rules::parse_command(input@) is None,
            },
    ;

    fn script(&self, input: &str) -> (r: ParseResult<Vec<SmtpInput>>)
        ensures
            match r {
                Ok(v) => rules::parse_script(input@) == Some(v.deep_view()),
                Err(_) => rules::parse_script(input@) is None,
            },
    ;
}

/// The parser of the SMTP grammar.
#[derive(Debug, Clone, Copy, PartialEq, Eq)]
pub struct SmtpParser;

impl SmtpParser {
    pub fn new() -> (r: SmtpParser)
        ensures
            r == SmtpParser,
    {
        SmtpParser
    }
}

impl Parser for SmtpParser {
    fn command(&self, input: &str) -> (r: ParseResult<SmtpCommand>) {
        command(input)
    }

    fn script(&self, input: &str) -> (r: ParseResult<Vec<SmtpInput>>) {
        script(input)
    }
}

} // verus!
