//! Command specifications: one immutable description of an external command,
//! derived from one raw configured string by whitespace tokenization.

use crate::text::{lemma_tokens_nonempty, tokenize, tokens_of};
use vstd::prelude::*;
use vstd::string::StrSliceExecFns;

verus! {

/// Immutable description of one external command: the raw configured string,
/// the program it names, and the program's arguments in order.
pub struct CommandSpec {
    pub raw: String,
    pub program: String,
    pub args: Vec<String>,
}

impl CommandSpec {
    /// The fields agree with the tokenization of `raw`: the first token is
    /// the program and the remaining tokens are the arguments; a raw string
    /// of whitespace alone leaves both empty.
    pub open spec fn wf(self) -> bool {
        if tokens_of(self.raw@).len() == 0 {
            self.program@.len() == 0 && self.args@.len() == 0
        } else {
            self.program@ == tokens_of(self.raw@)[0] && self.args.deep_view() == tokens_of(
                self.raw@,
            ).drop_first()
        }
    }

    /// A spec whose raw string yields at least one token names a program
    /// and can be run; any other spec is invalid and must short-circuit to
    /// an error result without spawning anything.
    pub open spec fn is_runnable(self) -> bool {
        tokens_of(self.raw@).len() > 0
    }

    /// Derives the spec of one raw configured command string.
    pub fn parse(raw: &str) -> (s: CommandSpec)
        ensures
            s.wf(),
            s.raw@ == raw@,
    {
        let mut toks = tokenize(raw);
        if toks.len() == 0 {
            CommandSpec { raw: raw.to_owned(), program: String::new(), args: Vec::new() }
        } else {
            let ghost all = toks.deep_view();
            let program = toks.remove(0);
            proof {
                assert(toks.deep_view() =~= all.drop_first());
            }
            CommandSpec { raw: raw.to_owned(), program, args: toks }
        }
    }

    /// Runtime test for [`Self::is_runnable`].
    pub fn runnable(&self) -> (r: bool)
        requires
            self.wf(),
        ensures
            r == self.is_runnable(),
    {
        proof {
            lemma_tokens_nonempty(self.raw@);
        }
        self.program.as_str().unicode_len() > 0
    }
}

} // verus!
