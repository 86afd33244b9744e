//! A whole run: lines in order, stopping at the first error.
use vstd::prelude::*;
use crate::error::{GuideError, GuideErrorView};
use crate::interpreter::{Interpreter, InterpreterView, initial_state, step};
use crate::statement::statement_of;

verus! {

/// The output lines of a run, and the error that ended it early, if any.
#[derive(Debug)]
pub struct Transcript {
    pub outputs: Vec<String>,
    pub error: Option<GuideError>,
}

/// The mathematical value of a [`Transcript`].
pub struct TranscriptView {
    pub outputs: Seq<Seq<char>>,
    pub error: Option<GuideErrorView>,
}

impl View for Transcript {
    type V = TranscriptView;

    open spec fn view(&self) -> TranscriptView {
        TranscriptView {
            outputs: self.outputs.deep_view(),
            error: match self.error {
                Some(e) => Some(e@),
                None => None,
            },
        }
    }
}

/// The output line of a reply, as a sequence of zero or one lines.
pub open spec fn reply_lines(o: Option<Seq<char>>) -> Seq<Seq<char>> {
    match o {
        Some(l) => seq![l],
        None => seq![],
    }
}

/// What a run from state `st` over `lines` gives: every reply in order, up
/// to the first error, which ends the run.
pub open spec fn session(st: InterpreterView, lines: Seq<Seq<char>>) -> TranscriptView
    decreases lines.len(),
{
    if lines.len() == 0 {
        TranscriptView { outputs: seq![], error: None }
    } else {
        let (next, reply) = step(st, lines[0]);
        match reply {
            Err(e) => TranscriptView { outputs: seq![], error: Some(e) },
            Ok(o) => {
                let rest = session(next, lines.drop_first());
                TranscriptView { outputs: reply_lines(o) + rest.outputs, error: rest.error }
            },
        }
    }
}

/// Runs a fresh interpreter over `lines`.
pub fn interpret(lines: &Vec<String>) -> (r: Transcript)
    ensures
        r@ == session(initial_state(), lines.deep_view()),
{
    let ghost all = lines.deep_view();
    let mut it = Interpreter::new();
    let mut outputs: Vec<String> = Vec::new();
    let mut i: usize = 0;
    assert(all.skip(0) =~= all);
    assert(outputs.deep_view() + session(it@, all).outputs =~= session(it@, all).outputs);
    while i < lines.len()
        invariant
            all == lines.deep_view(),
            i <= all.len(),
            ({
                let rest = session(it@, all.skip(i as int));
                TranscriptView { outputs: outputs.deep_view() + rest.outputs, error: rest.error }
            }) == session(initial_state(), all),
        decreases all.len() - i,
    {
        let ghost before = it@;
        let ghost done = outputs.deep_view();
        assert(all.skip(i as int)[0] == lines@[i as int]@);
        assert(all.skip(i as int).drop_first() =~= all.skip(i + 1));
        match it.process_line(lines[i].as_str()) {
            Err(e) => {
                assert(done + seq![] =~= done);
                return Transcript { outputs, error: Some(e) };
            },
            Ok(reply) => {
                match reply {
                    Some(l) => {
                        outputs.push(l);
                        assert(outputs.deep_view() =~= done + seq![l@]);
                    },
                    None => {},
                }
                assert(outputs.deep_view() + session(it@, all.skip(i + 1)).outputs =~= done
                    + session(before, all.skip(i as int)).outputs);
            },
        }
        i = i + 1;
    }
    assert(outputs.deep_view() + seq![] =~= outputs.deep_view());
    Transcript { outputs, error: None }
}

/// A run stops at its first error: once the lines so far end in an error,
/// lines added after them change nothing.
pub proof fn lemma_error_ends_run(st: InterpreterView, lines: Seq<Seq<char>>, rest: Seq<Seq<char>>)
    requires
        (session(st, lines).error is Some),
    ensures
        session(st, lines + rest) == session(st, lines),
    decreases lines.len(),
{
    let all = lines + rest;
    assert(all[0] == lines[0]);
    let (next, reply) = step(st, lines[0]);
    if reply is Ok {
        assert(all.drop_first() =~= lines.drop_first() + rest);
        lemma_error_ends_run(next, lines.drop_first(), rest);
    }
}

/// A line that has no statement shape, or is refused otherwise, ends the run
/// with its error: the replies to the lines before it stand, and no line
/// after it is read.
pub proof fn lemma_refused_line_ends_run(
    st: InterpreterView,
    before: Seq<Seq<char>>,
    line: Seq<char>,
    after: Seq<Seq<char>>,
)
    requires
        (session(st, before).error is None),
        (statement_of(line) is Err),
    ensures
        session(st, before + seq![line] + after) == (TranscriptView {
            outputs: session(st, before).outputs,
            error: Some(statement_of(line)->Err_0),
        }),
    decreases before.len(),
{
    let all = before + seq![line] + after;
    if before.len() == 0 {
        assert(all[0] == line);
    } else {
        assert(all[0] == before[0]);
        let (next, reply) = step(st, before[0]);
        assert(all.drop_first() =~= before.drop_first() + seq![line] + after);
        lemma_refused_line_ends_run(next, before.drop_first(), line, after);
    }
}

} // verus!
