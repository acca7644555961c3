//! How often the chat model is asked again, and what it is asked.
//!
//! The caller talks to the model and parses what comes back; this module
//! decides what happens next.

use vstd::prelude::*;
use crate::text::{append_from, chars_of, starts_with, starts_with_at, string_of};

verus! {

/// How often the chat model is asked before its answer is given up.
#[derive(Clone, Copy, Debug, PartialEq, Eq, Structural)]
pub struct RetryPolicy {
    /// The number of attempts that one request is worth.
    pub max_attempts: usize,
}

/// What is done with a proposed replacement.
#[derive(Clone, Copy, Debug, PartialEq, Eq, Structural)]
pub enum ReplyVerdict {
    /// The replacement is kept as a change.
    Accept,
    /// The model is told that its code cannot be parsed, and asked again;
    /// `failures` replies have failed so far.
    Retry { failures: usize },
    /// The item is left as it is.
    GiveUp,
}

/// What is done with an answer that should be code.
#[derive(Clone, Copy, Debug, PartialEq, Eq, Structural)]
pub enum AnswerStep {
    /// The whole answer is the code.
    UseAnswer,
    /// The code block inside the answer is the code.
    UseBlock,
    /// The model is asked to mend the code of its block.
    AskToFix,
    /// The model is asked for code.
    AskForCode,
    /// The text that stands in for a missing answer is used.
    Fallback,
}

impl RetryPolicy {
    /// What is done with a replacement after `failures` replies that could
    /// not be parsed: one that parses is accepted; one that does not is
    /// asked for again, until as many replies as there are attempts have
    /// failed.
    pub open spec fn verdict_for(&self, failures: nat, parses: bool) -> ReplyVerdict {
        if parses {
            ReplyVerdict::Accept
        } else if failures + 1 >= self.max_attempts {
            ReplyVerdict::GiveUp
        } else {
            ReplyVerdict::Retry { failures: (failures + 1) as usize }
        }
    }

    /// What is done with an answer after `asked` further requests. `block`
    /// says whether the answer holds a code block, and whether that parses.
    /// An answer that parses is the code; failing that, a block that
    /// parses. Otherwise the model is asked again, to mend its block or to
    /// send code at all, until it has been asked as often as there are
    /// attempts.
    pub open spec fn step_for(&self, asked: nat, answer_parses: bool, block: Option<bool>)
        -> AnswerStep {
        if answer_parses {
            AnswerStep::UseAnswer
        } else if block == Some(true) {
            AnswerStep::UseBlock
        } else if asked >= self.max_attempts {
            AnswerStep::Fallback
        } else if block is Some {
            AnswerStep::AskToFix
        } else {
            AnswerStep::AskForCode
        }
    }

    /// Three attempts for each request.
    pub fn standard() -> (policy: RetryPolicy)
        ensures
            policy.max_attempts == 3,
    {
        RetryPolicy { max_attempts: 3 }
    }

    /// Decides what is done with the reply to a request for a replacement.
    pub fn judge_reply(&self, failures: usize, parses: bool) -> (verdict: ReplyVerdict)
        ensures
            verdict == self.verdict_for(failures as nat, parses),
    {
        if parses {
            ReplyVerdict::Accept
        } else if failures >= self.max_attempts || failures + 1 >= self.max_attempts {
            ReplyVerdict::GiveUp
        } else {
            ReplyVerdict::Retry { failures: failures + 1 }
        }
    }

    /// Decides what is done with an answer that should be code.
    pub fn judge_answer(&self, asked: usize, answer_parses: bool, block: Option<bool>) -> (step:
        AnswerStep)
        ensures
            step == self.step_for(asked as nat, answer_parses, block),
    {
        if answer_parses {
            return AnswerStep::UseAnswer;
        }
        match block {
            Some(block_parses) => {
                if block_parses {
                    AnswerStep::UseBlock
                } else if asked < self.max_attempts {
                    AnswerStep::AskToFix
                } else {
                    AnswerStep::Fallback
                }
            },
            None => {
                if asked < self.max_attempts {
                    AnswerStep::AskForCode
                } else {
                    AnswerStep::Fallback
                }
            },
        }
    }
}

/// `text` with `with` in place of `marker` wherever it stands, read from
/// the left; a place that is taken is not read again.
pub open spec fn filled_in(text: Seq<char>, marker: Seq<char>, with: Seq<char>) -> Seq<char>
    decreases text.len(),
{
    if marker.len() == 0 || text.len() < marker.len() {
        text
    } else if starts_with(text, marker) {
        with + filled_in(text.skip(marker.len() as int), marker, with)
    } else {
        seq![text[0]] + filled_in(text.skip(1), marker, with)
    }
}

/// The request with the code in the place that is marked `<CODE>`.
pub open spec fn with_code(request: Seq<char>, code: Seq<char>) -> Seq<char> {
    filled_in(request, "<CODE>"@, code)
}

/// Puts `code` into a request, in every place that is marked `<CODE>`.
pub fn fill_in_code(request: &str, code: &str) -> (filled: String)
    ensures
        filled@ == with_code(request@, code@),
{
    let text = chars_of(request);
    let marker = chars_of("<CODE>");
    let with = chars_of(code);
    proof {
        reveal_strlit("<CODE>");
    }
    let mut out: Vec<char> = Vec::new();
    let mut i: usize = 0;
    proof {
        assert(text@.skip(0) =~= text@);
        assert(out@ + filled_in(text@, marker@, with@) =~= filled_in(text@, marker@, with@));
    }
    while i < text.len()
        invariant
            i <= text.len(),
            marker@ == "<CODE>"@,
            marker@.len() == 6,
            with@ == code@,
            text@ == request@,
            filled_in(text@, marker@, with@) == out@ + filled_in(
                text@.skip(i as int),
                marker@,
                with@,
            ),
        decreases text.len() - i,
    {
        let ghost rest = text@.skip(i as int);
        let ghost before = out@;
        if starts_with_at(&text, i, &marker) {
            append_from(&mut out, &with, 0);
            proof {
                assert(with@.skip(0) =~= with@);
                assert(rest.skip(6) =~= text@.skip(i + 6));
                let tail = filled_in(rest.skip(6), marker@, with@);
                assert(before + (with@ + tail) =~= out@ + tail);
            }
            i += 6;
        } else {
            out.push(text[i]);
            proof {
                let tail = if text.len() - i < 6 {
                    rest.skip(1)
                } else {
                    filled_in(rest.skip(1), marker@, with@)
                };
                assert(rest.skip(1) =~= text@.skip(i + 1));
                if text.len() - i < 6 {
                    lemma_short_text_is_kept(rest.skip(1), marker@, with@);
                    assert(rest =~= seq![rest[0]] + rest.skip(1));
                }
                assert(before + (seq![rest[0]] + tail) =~= out@ + tail);
            }
            i += 1;
        }
    }
    proof {
        assert(text@.skip(i as int).len() == 0);
        assert(out@ + text@.skip(i as int) =~= out@);
    }
    string_of(&out)
}

/// A text that is shorter than the marker holds no marker.
proof fn lemma_short_text_is_kept(text: Seq<char>, marker: Seq<char>, with: Seq<char>)
    requires
        text.len() < marker.len(),
    ensures
        filled_in(text, marker, with) == text,
{
}

} // verus!
