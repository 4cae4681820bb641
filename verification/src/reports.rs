//! What all the reports of a turn come to.
use crate::codex;
use crate::codex::{Exit, LineStepView, TurnStateView};
use crate::exchange::ReplyView;
use crate::json;
use vstd::prelude::*;

verus! {

/// What is known of a turn once its lines are read one after the other, each with the replies to
/// what it asks for, up to the line that ends the reading; `None` where a line still asks.
pub open spec fn turn_read(
    lines: Seq<Seq<u8>>,
    replies: Seq<Seq<ReplyView>>,
    thread_id: Seq<char>,
    run_id: Seq<char>,
    state: TurnStateView,
) -> Option<TurnStateView>
    decreases lines.len(),
{
    if lines.len() == 0 {
        Some(state)
    } else {
        match codex::line_taken(replies[0], thread_id, run_id, state, lines[0]) {
            LineStepView::Ask(_) => None,
            LineStepView::Stop(s) => Some(s),
            LineStepView::Next(s) => turn_read(
                lines.skip(1),
                replies.skip(1),
                thread_id,
                run_id,
                s,
            ),
        }
    }
}

/// Whether a line is one of a turn that failed: it is not blank, and is no JSON or reports a
/// failure.
pub open spec fn tells_failure(bytes: Seq<u8>) -> bool {
    let line = codex::line_of(bytes);
    !codex::is_blank_line(line) && match json::json_document(line) {
        None => true,
        Some(raw) => codex::reports_failure(raw),
    }
}

/// Whether what a line reports was recorded, or there was nothing to record.
pub open spec fn is_recorded(
    replies: Seq<ReplyView>,
    thread_id: Seq<char>,
    run_id: Seq<char>,
    bytes: Seq<u8>,
) -> bool {
    let line = codex::line_of(bytes);
    codex::is_blank_line(line) || match json::json_document(line) {
        None => false,
        Some(raw) => codex::recorded(replies, thread_id, run_id, raw) is Ok,
    }
}

proof fn lemma_failure_stays(
    lines: Seq<Seq<u8>>,
    replies: Seq<Seq<ReplyView>>,
    thread_id: Seq<char>,
    run_id: Seq<char>,
    state: TurnStateView,
)
    requires
        replies.len() == lines.len(),
        turn_read(lines, replies, thread_id, run_id, state) is Some,
        state.failed || exists|i: int| 0 <= i < lines.len() && #[trigger] tells_failure(lines[i]),
    ensures
        (turn_read(lines, replies, thread_id, run_id, state)->0).failed,
    decreases lines.len(),
{
    if lines.len() > 0 {
        match codex::line_taken(replies[0], thread_id, run_id, state, lines[0]) {
            LineStepView::Next(s) => {
                let rest = lines.skip(1);
                if !s.failed {
                    let i = choose|i: int|
                        0 <= i < lines.len() && #[trigger] tells_failure(lines[i]);
                    assert(i > 0);
                    assert(tells_failure(rest[i - 1]));
                }
                lemma_failure_stays(rest, replies.skip(1), thread_id, run_id, s);
            },
            _ => {},
        }
    }
}

/// A turn of which any line is no JSON or reports a failure, or of which a report could not be
/// recorded, fails, unless it was interrupted.
pub proof fn law_reported_failure_fails_the_turn(
    lines: Seq<Seq<u8>>,
    replies: Seq<Seq<ReplyView>>,
    thread_id: Seq<char>,
    run_id: Seq<char>,
    interrupted: bool,
    exit: Option<Exit>,
)
    requires
        replies.len() == lines.len(),
        turn_read(lines, replies, thread_id, run_id, codex::fresh_turn()) is Some,
        exists|i: int|
            0 <= i < lines.len() && (#[trigger] tells_failure(lines[i]) || !is_recorded(
                replies[i],
                thread_id,
                run_id,
                lines[i],
            )),
    ensures
        ({
            let state = turn_read(lines, replies, thread_id, run_id, codex::fresh_turn())->0;
            let outcome = codex::turn_outcome(state, interrupted, exit);
            &&& state.failed
            &&& outcome.status == if interrupted {
                "interrupted"@
            } else {
                "failed"@
            }
            &&& !interrupted ==> outcome.error == Some(state.error)
        }),
{
    let state = codex::fresh_turn();
    let i = choose|i: int|
        0 <= i < lines.len() && (#[trigger] tells_failure(lines[i]) || !is_recorded(
            replies[i],
            thread_id,
            run_id,
            lines[i],
        ));
    if tells_failure(lines[i]) {
        lemma_failure_stays(lines, replies, thread_id, run_id, state);
    } else {
        lemma_unrecorded_fails(lines, replies, thread_id, run_id, state, i);
    }
}

proof fn lemma_unrecorded_fails(
    lines: Seq<Seq<u8>>,
    replies: Seq<Seq<ReplyView>>,
    thread_id: Seq<char>,
    run_id: Seq<char>,
    state: TurnStateView,
    i: int,
)
    requires
        replies.len() == lines.len(),
        turn_read(lines, replies, thread_id, run_id, state) is Some,
        0 <= i < lines.len(),
        !is_recorded(replies[i], thread_id, run_id, lines[i]),
    ensures
        (turn_read(lines, replies, thread_id, run_id, state)->0).failed,
    decreases lines.len(),
{
    match codex::line_taken(replies[0], thread_id, run_id, state, lines[0]) {
        LineStepView::Next(s) => {
            assert(i > 0);
            lemma_unrecorded_fails(lines.skip(1), replies.skip(1), thread_id, run_id, s, i - 1);
        },
        _ => {},
    }
}

/// A turn all of whose lines are blank or reports of no failure that were recorded ends as Codex
/// does: it completes where Codex ended with success, and fails otherwise, unless it was
/// interrupted.
pub proof fn law_turn_without_failure_ends_as_codex_does(
    lines: Seq<Seq<u8>>,
    replies: Seq<Seq<ReplyView>>,
    thread_id: Seq<char>,
    run_id: Seq<char>,
    exit: Option<Exit>,
)
    requires
        replies.len() == lines.len(),
        forall|i: int|
            0 <= i < lines.len() ==> !#[trigger] tells_failure(lines[i]) && is_recorded(
                replies[i],
                thread_id,
                run_id,
                lines[i],
            ),
    ensures
        turn_read(lines, replies, thread_id, run_id, codex::fresh_turn()) == Some(
            codex::fresh_turn(),
        ),
        codex::turn_outcome(codex::fresh_turn(), false, exit).status == if exit is Some && (
        exit->0).success {
            "completed"@
        } else {
            "failed"@
        },
    decreases lines.len(),
{
    if lines.len() > 0 {
        let rest = lines.skip(1);
        let later = replies.skip(1);
        assert(!tells_failure(lines[0]));
        assert forall|i: int| 0 <= i < rest.len() implies !#[trigger] tells_failure(rest[i])
            && is_recorded(later[i], thread_id, run_id, rest[i]) by {
            assert(!tells_failure(lines[i + 1]));
        }
        law_turn_without_failure_ends_as_codex_does(rest, later, thread_id, run_id, exit);
    }
}

} // verus!
