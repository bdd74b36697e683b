//! A stream of server controls where the lines not yet read as commands
//! are read by the parser.
use vstd::prelude::*;
use crate::grammar::parser::Parser;
use crate::grammar::rules;
use crate::model::command::{SmtpCommand, SpecCommand};
use crate::model::controll::{ServerControll, SpecServerControll};

verus! {

/// The stream and the parser.
pub struct Parse<S, P> {
    stream: S,
    parser: P,
}

impl<S, P: Parser> Parse<S, P> {
    pub closed spec fn source(&self) -> S {
        self.stream
    }

    pub closed spec fn reader(&self) -> P {
        self.parser
    }

    pub fn new(stream: S, parser: P) -> (r: Self)
        ensures
            r.source() == stream,
            r.reader() == parser,
    {
        Self { stream, parser }
    }

    /// An unknown command line is read by the parser; where it reads a
    /// command, that command takes its place. Other controls pass as they
    /// are.
    pub fn parse_item(&self, ctrl: ServerControll) -> (r: ServerControll)
        ensures
            match ctrl@ {
                SpecServerControll::Command(SpecCommand::Unknown(line)) => match rules::parse_command(line) {
                    Some(c) => r@ == SpecServerControll::Command(c),
                    None => r@ == ctrl@,
                },
                _ => r@ == ctrl@,
            },
    {
        match ctrl {
            ServerControll::Command(SmtpCommand::Unknown(line)) => match self.parser.command(line.as_str()) {
                Ok(cmd) => ServerControll::Command(cmd),
                Err(_) => ServerControll::Command(SmtpCommand::Unknown(line)),
            },
            pass => pass,
        }
    }
}

} // verus!
