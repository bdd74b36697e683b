//! The session parser handed to the codec.
use vstd::prelude::*;
use vstd::string::*;
use crate::grammar::rules;
use crate::grammar::text::byte_pos;
use crate::grammar::smtp::{session, ParseResult};
use crate::model::command::SmtpInput;

verus! {

/// Reads a whole SMTP session into its items.
pub trait SmtpSessionParser {
    fn session(&self, input: &str) -> (r: ParseResult<Vec<SmtpInput>>)
        ensures
            match r {
                Ok(v) => rules::parse_session(input@) == Some(v.deep_view()),
                Err(_) => rules::parse_session(input@) is None,
            },
            r matches Ok(v) ==> rules::tiles(
                v.deep_view(),
                byte_pos(input@, rules::ws_end(input@, 0)),
                input.spec_bytes().len() as int,
            ),
    ;
}

/// The session parser of the SMTP grammar.
#[derive(Debug, Clone, Copy, PartialEq, Eq)]
pub struct SmtpParser;

impl SmtpParser {
    /// The parser to hand to a codec.
    pub fn session_parser() -> (r: SmtpParser)
        ensures
            r == SmtpParser,
    {
        SmtpParser
    }
}

impl SmtpSessionParser for SmtpParser {
    fn session(&self, input: &str) -> (r: ParseResult<Vec<SmtpInput>>) {
        session(input)
    }
}

} // verus!
