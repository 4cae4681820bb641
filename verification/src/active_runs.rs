//! That a thread has at most one running run, and shows it.
use crate::ai_runs;
use crate::ai_threads;
use crate::board;
use crate::exchange;
use crate::exchange::{ActionView, ReplyView, SqlView, StatementView, StepView};
use crate::history;
use crate::json;
use crate::json::JsonView;
use crate::rows;
use crate::store;
use crate::talks;
use crate::talks::{Desk, Talks};
use crate::tasks;
use vstd::prelude::*;

verus! {

/// The creation of a run in a thread.
pub open spec fn creation(thread_id: Seq<char>) -> spec_fn(Seq<ReplyView>) -> Result<
    (JsonView, int),
    StepView,
> {
    |replies: Seq<ReplyView>| ai_runs::run_created(replies, 0, thread_id)
}

/// Threads and runs where no transaction is under way.
pub open spec fn at_rest(talks: Talks) -> Desk {
    Desk { now: talks, kept: talks }
}

/// Whether these are the replies of the store to a request.
pub open spec fn is_course<V>(
    handler: spec_fn(Seq<ReplyView>) -> Result<V, StepView>,
    before: Talks,
    replies: Seq<ReplyView>,
) -> bool {
    history::is_course(
        handler,
        talks::desk_effect(),
        talks::desk_tells(),
        at_rest(before),
        replies,
    )
}

/// What becomes of threads and runs with a request.
pub open spec fn talks_become<V>(
    handler: spec_fn(Seq<ReplyView>) -> Result<V, StepView>,
    before: Talks,
    replies: Seq<ReplyView>,
) -> Talks {
    history::became(handler, talks::desk_effect(), at_rest(before), replies).now
}

proof fn lemma_words()
    ensures
        ai_runs::BEGIN@ != ai_runs::ROLLBACK@,
        ai_runs::BEGIN@ != ai_runs::COMMIT@,
        ai_runs::ROLLBACK@ != ai_runs::COMMIT@,
{
    reveal_strlit("BEGIN IMMEDIATE");
    reveal_strlit("ROLLBACK");
    reveal_strlit("COMMIT");
    assert(ai_runs::BEGIN@.len() == 15);
    assert(ai_runs::ROLLBACK@.len() == 8);
    assert(ai_runs::COMMIT@.len() == 6);
}

/// Threads and runs with one more running run, of a thread that is marked for it.
pub open spec fn with_run(
    before: Talks,
    id: Seq<char>,
    thread_id: Seq<char>,
    time: Seq<char>,
) -> Talks {
    Talks {
        runs: before.runs.insert(id, talks::new_run(id, thread_id, time)),
        threads: before.threads.insert(
            thread_id,
            before.threads[thread_id].update(2, SqlView::Text("running"@)).update(
                13,
                SqlView::Text(time),
            ),
        ),
    }
}

proof fn lemma_statements_of_creation(
    before: Talks,
    id: Seq<char>,
    thread_id: Seq<char>,
    time: Seq<char>,
)
    requires
        before.is_sound(),
        before.threads.contains_key(thread_id),
        !before.is_busy(thread_id),
        !before.runs.contains_key(id),
    ensures
        ({
            let added = talks::talks_after(before, ai_runs::run_insert(id, thread_id, time));
            let marking = ai_runs::thread_runs(thread_id, time);
            let after = talks::talks_after(added, marking);
            &&& !talks::is_refused(added, marking)
            &&& after == with_run(before, id, thread_id, time)
            &&& after.is_sound()
            &&& after.is_running(id, thread_id)
        }),
{
    reveal(talks::talks_after);
    let insert = ai_runs::run_insert(id, thread_id, time);
    assert(insert.params.len() == 3);
    let added = talks::talks_after(before, insert);
    let marking = ai_runs::thread_runs(thread_id, time);
    assert(marking.params.len() == 2);
    let after = talks::talks_after(added, marking);
    assert(after == with_run(before, id, thread_id, time));
    let run = talks::new_run(id, thread_id, time);
    assert(talks::fits(run, talks::run_kinds())) by {
        assert forall|k: int| 0 <= k < 7 implies rows::of_kind(
            #[trigger] run[k],
            talks::run_kinds()[k],
        ) is Some by {
        }
    }
    let values = before.threads[thread_id];
    let marked = after.threads[thread_id];
    assert(talks::fits(values, talks::thread_kinds()));
    assert forall|k: int| 0 <= k < 14 implies rows::of_kind(
        #[trigger] marked[k],
        talks::thread_kinds()[k],
    ) is Some by {
        assert(rows::of_kind(values[k], talks::thread_kinds()[k]) is Some);
    }
    assert forall|other: Seq<char>| #[trigger] after.threads.contains_key(other) implies
        talks::fits(after.threads[other], talks::thread_kinds()) && after.threads[other][0]
        == SqlView::Text(other) by {
        assert(before.threads.contains_key(other));
    }
    assert forall|other: Seq<char>| #[trigger] after.runs.contains_key(other) implies talks::fits(
        after.runs[other],
        talks::run_kinds(),
    ) && after.runs[other][0] == SqlView::Text(other) by {
        if other != id {
            assert(before.runs.contains_key(other));
        }
    }
    assert forall|a: Seq<char>, b: Seq<char>, t: Seq<char>| #[trigger]
        after.is_running(a, t) && #[trigger] after.is_running(b, t) implies a == b by {
        if a != id {
            assert(before.is_running(a, t));
        }
        if b != id {
            assert(before.is_running(b, t));
        }
        if a != b && (a == id || b == id) {
            assert(t == thread_id);
            assert(before.is_busy(thread_id));
        }
    }
}

/// A run is created in a thread where it has no running run: the run is running, and the thread is
/// marked for it; every other run and thread stays as it is, and the answer shows the run. Where the
/// thread has a running run, the creation fails, and no run and no thread is changed. Either way no
/// thread has two running runs.
pub proof fn law_one_running_run(before: Talks, thread_id: Seq<char>, replies: Seq<ReplyView>)
    requires
        before.is_sound(),
        before.threads.contains_key(thread_id),
        is_course(creation(thread_id), before, replies),
    ensures
        ({
            let result = ai_runs::run_created(replies, 0, thread_id);
            let after = talks_become(creation(thread_id), before, replies);
            let id = replies[0]->Text_0;
            let time = board::time_at(replies, 1);
            &&& after.is_sound()
            &&& if before.is_busy(thread_id) {
                &&& replies.len() > 3 && replies[3] is Failed
                &&& result == Err::<(JsonView, int), StepView>(
                    StepView::Fail(replies[3]->Failed_0),
                )
                &&& after == before
            } else {
                &&& replies.len() > 6 && !before.runs.contains_key(id)
                &&& after == with_run(before, id, thread_id, time)
                &&& after.is_running(id, thread_id)
                &&& result == Ok::<(JsonView, int), StepView>(
                    (talks::shown_run(talks::new_run(id, thread_id, time)), 7),
                )
            }
        }),
{
    let h = creation(thread_id);
    let e = talks::desk_effect();
    let t = talks::desk_tells();
    let start = at_rest(before);
    let n = replies.len() as int;
    lemma_words();
    history::lemma_start(h, e, start, replies);
    history::lemma_told(h, e, t, start, replies, 0);
    talks::lemma_tells_new_id(before, replies[0]);
    history::lemma_step(h, e, start, replies, 0);
    let id = replies[0]->Text_0;
    assert(h(replies.take(1)) == Err::<(JsonView, int), StepView>(
        StepView::Ask(board::time_query()),
    )) by {
        assert(replies.take(1)[0] == replies[0]);
    }
    history::lemma_told(h, e, t, start, replies, 1);
    talks::lemma_tells_time(before, replies[1]);
    history::lemma_step(h, e, start, replies, 1);
    let time = board::time_at(replies, 1);
    assert forall|m: int| 2 <= m <= n implies h(#[trigger] replies.take(m)) == created_at(
        replies.take(m),
        id,
        thread_id,
        time,
    ) by {
        assert(replies.take(m)[0] == replies[0]);
        assert(replies.take(m)[1] == replies[1]);
        board::lemma_time_is_read(replies.take(m), 1);
    }
    lemma_creation_ends(h, before, id, thread_id, time, replies);
}

/// What is left of the creation of a run once its identifier and the time are told.
pub open spec fn created_at(
    replies: Seq<ReplyView>,
    id: Seq<char>,
    thread_id: Seq<char>,
    time: Seq<char>,
) -> Result<(JsonView, int), StepView> {
    match exchange::done_at(replies, 2, ActionView::Batch(ai_runs::BEGIN@)) {
        Err(s) => Err(s),
        Ok(_) => match exchange::changed_at(
            replies,
            3,
            ai_runs::run_insert(id, thread_id, time),
        ) {
            Err(s) => Err(ai_runs::broken_off(replies, 4, s)),
            Ok(_) => match exchange::changed_at(
                replies,
                4,
                ai_runs::thread_runs(thread_id, time),
            ) {
                Err(s) => Err(ai_runs::broken_off(replies, 5, s)),
                Ok(_) => match exchange::done_at(
                    replies,
                    5,
                    ActionView::Batch(ai_runs::COMMIT@),
                ) {
                    Err(s) => Err(s),
                    Ok(_) => match ai_runs::run_at(replies, 6, id) {
                        Err(s) => Err(s),
                        Ok(None) => Err(StepView::Fail("created run"@)),
                        Ok(Some(run)) => Ok((run, 7)),
                    },
                },
            },
        },
    }
}

proof fn lemma_creation_ends(
    h: spec_fn(Seq<ReplyView>) -> Result<(JsonView, int), StepView>,
    before: Talks,
    id: Seq<char>,
    thread_id: Seq<char>,
    time: Seq<char>,
    replies: Seq<ReplyView>,
)
    requires
        before.is_sound(),
        before.threads.contains_key(thread_id),
        !before.runs.contains_key(id),
        is_course(h, before, replies),
        replies.len() >= 2,
        history::became(h, talks::desk_effect(), at_rest(before), replies.take(2)) == at_rest(
            before,
        ),
        forall|m: int|
            2 <= m <= replies.len() ==> h(#[trigger] replies.take(m)) == created_at(
                replies.take(m),
                id,
                thread_id,
                time,
            ),
    ensures
        ({
            let after = talks_become(h, before, replies);
            &&& after.is_sound()
            &&& if before.is_busy(thread_id) {
                &&& replies.len() > 3 && replies[3] is Failed
                &&& h(replies) == Err::<(JsonView, int), StepView>(
                    StepView::Fail(replies[3]->Failed_0),
                )
                &&& after == before
            } else {
                &&& replies.len() > 6
                &&& after == with_run(before, id, thread_id, time)
                &&& after.is_running(id, thread_id)
                &&& h(replies) == Ok::<(JsonView, int), StepView>(
                    (talks::shown_run(talks::new_run(id, thread_id, time)), 7),
                )
            }
        }),
{
    let e = talks::desk_effect();
    let t = talks::desk_tells();
    let start = at_rest(before);
    let n = replies.len() as int;
    let insert = ai_runs::run_insert(id, thread_id, time);
    lemma_words();
    history::lemma_start(h, e, start, replies);
    assert(h(replies.take(2)) == Err::<(JsonView, int), StepView>(
        StepView::Ask(ActionView::Batch(ai_runs::BEGIN@)),
    ));
    history::lemma_told(h, e, t, start, replies, 2);
    talks::lemma_tells_batch(before, ai_runs::BEGIN@, replies[2]);
    history::lemma_step(h, e, start, replies, 2);
    assert(history::became(h, e, start, replies.take(3)) == start);
    assert(h(replies.take(3)) == Err::<(JsonView, int), StepView>(
        StepView::Ask(ActionView::Write(insert)),
    )) by {
        assert(replies.take(3)[2] == replies[2]);
    }
    history::lemma_told(h, e, t, start, replies, 3);
    assert(insert.params.len() == 3);
    assert(insert.params[1] == SqlView::Text(thread_id));
    talks::lemma_tells_write(before, insert, replies[3]);
    history::lemma_step(h, e, start, replies, 3);
    if before.is_busy(thread_id) {
        assert(talks::is_refused(before, insert));
        assert(h(replies.take(4)) == Err::<(JsonView, int), StepView>(
            StepView::Ask(ActionView::Batch(ai_runs::ROLLBACK@)),
        )) by {
            assert(replies.take(4)[2] == replies[2]);
            assert(replies.take(4)[3] == replies[3]);
        }
        history::lemma_told(h, e, t, start, replies, 4);
        history::lemma_step(h, e, start, replies, 4);
        let failed = Err::<(JsonView, int), StepView>(StepView::Fail(replies[3]->Failed_0));
        assert forall|m: int| 5 <= m <= n implies h(#[trigger] replies.take(m)) == failed by {
            assert(replies.take(m)[2] == replies[2]);
            assert(replies.take(m)[3] == replies[3]);
        }
        assert forall|m: int| 5 <= m < n implies #[trigger] history::is_quiet(h, e, replies, m) by {
            assert(h(replies.take(m)) == failed);
        }
        history::lemma_quiet(h, e, start, replies, 5, n);
        assert(h(replies.take(n)) == failed);
    } else {
        assert(!talks::is_refused(before, insert)) by {
            if talks::is_refused(before, insert) {
                assert(insert.params.len() != 5);
            }
        }
        lemma_statements_of_creation(before, id, thread_id, time);
        let added = talks::talks_after(before, insert);
        let marking = ai_runs::thread_runs(thread_id, time);
        let after = with_run(before, id, thread_id, time);
        assert(h(replies.take(4)) == Err::<(JsonView, int), StepView>(
            StepView::Ask(ActionView::Write(marking)),
        )) by {
            assert(replies.take(4)[2] == replies[2]);
            assert(replies.take(4)[3] == replies[3]);
        }
        history::lemma_told(h, e, t, start, replies, 4);
        talks::lemma_tells_write(added, marking, replies[4]);
        history::lemma_step(h, e, start, replies, 4);
        assert(h(replies.take(5)) == Err::<(JsonView, int), StepView>(
            StepView::Ask(ActionView::Batch(ai_runs::COMMIT@)),
        )) by {
            assert(replies.take(5)[2] == replies[2]);
            assert(replies.take(5)[3] == replies[3]);
            assert(replies.take(5)[4] == replies[4]);
        }
        history::lemma_told(h, e, t, start, replies, 5);
        talks::lemma_tells_batch(after, ai_runs::COMMIT@, replies[5]);
        history::lemma_step(h, e, start, replies, 5);
        assert forall|m: int| 6 <= m <= n implies h(#[trigger] replies.take(m)) == run_shown_at(
            replies.take(m),
            id,
        ) by {
            assert(replies.take(m)[2] == replies[2]);
            assert(replies.take(m)[3] == replies[3]);
            assert(replies.take(m)[4] == replies[4]);
            assert(replies.take(m)[5] == replies[5]);
        }
        assert(h(replies.take(6)) == Err::<(JsonView, int), StepView>(
            StepView::Ask(ActionView::Read(seq![talks::keyed_query(ai_runs::RUN_BY_ID@, id)])),
        ));
        history::lemma_told(h, e, t, start, replies, 6);
        history::lemma_step(h, e, start, replies, 6);
        let run = talks::new_run(id, thread_id, time);
        assert(after.runs[id] == run);
        assert forall|m: int| 7 <= m <= n implies h(#[trigger] replies.take(m)) == Ok::<
            (JsonView, int),
            StepView,
        >((talks::shown_run(run), 7)) by {
            assert(replies.take(m)[6] == replies[6]);
            talks::lemma_tells_run(after, id, replies.take(m), 6);
        }
        assert forall|m: int| 7 <= m < n implies #[trigger] history::is_quiet(h, e, replies, m) by {
            assert(h(replies.take(m)) is Ok);
        }
        history::lemma_quiet(h, e, start, replies, 7, n);
        assert(h(replies.take(n)) is Ok);
    }
}

/// What is left of the creation of a run once it is stored.
pub open spec fn run_shown_at(replies: Seq<ReplyView>, id: Seq<char>) -> Result<
    (JsonView, int),
    StepView,
> {
    match ai_runs::run_at(replies, 6, id) {
        Err(s) => Err(s),
        Ok(None) => Err(StepView::Fail("created run"@)),
        Ok(Some(run)) => Ok((run, 7)),
    }
}

/// The reading of a thread.
pub open spec fn reading(thread_id: Seq<char>) -> spec_fn(Seq<ReplyView>) -> Result<
    (Option<JsonView>, int),
    StepView,
> {
    |replies: Seq<ReplyView>| ai_threads::thread_at(replies, 0, thread_id)
}

proof fn lemma_shown_thread(values: Seq<SqlView>, current: JsonView)
    requires
        talks::fits(values, talks::thread_kinds()),
    ensures
        ({
            let shown = tasks::extended(talks::shown_thread(values), "currentRun"@, current);
            &&& json::field(talks::shown_thread(values), "id"@) == Some(
                talks::cell(values, talks::thread_kinds(), 0),
            )
            &&& json::field(shown, "status"@) == Some(
                talks::cell(values, talks::thread_kinds(), 2),
            )
            &&& json::field(shown, "currentRun"@) == Some(current)
        }),
{
    reveal_strlit("id");
    reveal_strlit("title");
    reveal_strlit("status");
    reveal_strlit("origin");
    reveal_strlit("codexThreadId");
    reveal_strlit("model");
    reveal_strlit("reasoningEffort");
    reveal_strlit("sandbox");
    reveal_strlit("createdAt");
    reveal_strlit("updatedAt");
    reveal_strlit("currentRun");
    let shown = tasks::extended(talks::shown_thread(values), "currentRun"@, current);
    let members = shown->Object_0;
    assert("status"@[0] == 's' && "origin"@[0] == 'o');
    json::lemma_lookup(talks::shown_thread(values)->Object_0, "id"@, 0);
    json::lemma_lookup(members, "status"@, 2);
    let key = "currentRun"@;
    assert(key.len() == 10);
    assert(members[0].0 != key && members[1].0 != key && members[2].0 != key && members[3].0 != key
        && members[4].0 != key);
    assert(members[5].0 != key && members[6].0 != key && members[7].0 != key && members[8].0 != key
        && members[9].0 != key);
    json::lemma_lookup(members, "currentRun"@, 10);
}

/// A thread is shown as it is stored, with its running run where it has one.
pub proof fn law_thread_shows_its_run(talks: Talks, thread_id: Seq<char>, replies: Seq<ReplyView>)
    requires
        talks.is_sound(),
        talks.threads.contains_key(thread_id),
        is_course(reading(thread_id), talks, replies),
    ensures
        ai_threads::thread_at(replies, 0, thread_id) == Ok::<(Option<JsonView>, int), StepView>(
            (
                Some(
                    tasks::extended(
                        talks::shown_thread(talks.threads[thread_id]),
                        "currentRun"@,
                        talks::shown_current(talks, thread_id),
                    ),
                ),
                2,
            ),
        ),
{
    let h = reading(thread_id);
    let e = talks::desk_effect();
    let t = talks::desk_tells();
    let start = at_rest(talks);
    let values = talks.threads[thread_id];
    history::lemma_start(h, e, start, replies);
    assert(h(replies.take(0)) == Err::<(Option<JsonView>, int), StepView>(
        StepView::Ask(
            ActionView::Read(seq![talks::keyed_query(ai_threads::THREAD_BY_ID@, thread_id)]),
        ),
    ));
    history::lemma_told(h, e, t, start, replies, 0);
    history::lemma_step(h, e, start, replies, 0);
    lemma_shown_thread(values, JsonView::Null);
    assert(tasks::key_of(talks::shown_thread(values), "id"@) == thread_id);
    let query = talks::keyed_query(ai_threads::CURRENT_RUN@, thread_id);
    assert(h(replies.take(1)) == Err::<(Option<JsonView>, int), StepView>(
        StepView::Ask(ActionView::Read(seq![query])),
    )) by {
        assert(replies.take(1)[0] == replies[0]);
        talks::lemma_tells_thread(talks, thread_id, replies.take(1), 0);
    }
    history::lemma_told(h, e, t, start, replies, 1);
    talks::lemma_tells_thread(talks, thread_id, replies, 0);
    talks::lemma_tells_current_run(talks, thread_id, replies, 1);
}

/// Once a run is created, as long as its thread and the runs are as they became, the thread is shown
/// as running, and shows the run that was answered.
pub proof fn law_created_run_is_current(
    before: Talks,
    thread_id: Seq<char>,
    replies: Seq<ReplyView>,
    later: Seq<ReplyView>,
)
    requires
        before.is_sound(),
        before.threads.contains_key(thread_id),
        !before.is_busy(thread_id),
        is_course(creation(thread_id), before, replies),
        is_course(
            reading(thread_id),
            talks_become(creation(thread_id), before, replies),
            later,
        ),
    ensures
        ({
            let created = ai_runs::run_created(replies, 0, thread_id);
            let read = ai_threads::thread_at(later, 0, thread_id);
            &&& created is Ok
            &&& read is Ok && (read->Ok_0).0 is Some
            &&& json::field((read->Ok_0).0->0, "status"@) == Some(JsonView::Text("running"@))
            &&& json::field((read->Ok_0).0->0, "currentRun"@) == Some((created->Ok_0).0)
        }),
{
    law_one_running_run(before, thread_id, replies);
    let after = talks_become(creation(thread_id), before, replies);
    law_thread_shows_its_run(after, thread_id, later);
    let id = replies[0]->Text_0;
    assert(after.is_running(id, thread_id));
    let chosen = choose|run: Seq<char>| after.is_running(run, thread_id);
    assert(after.is_running(chosen, thread_id));
    lemma_shown_thread(after.threads[thread_id], talks::shown_current(after, thread_id));
    assert(talks::fits(before.threads[thread_id], talks::thread_kinds()));
}

/// The update of a run, with the replies to it alone.
pub open spec fn update(
    run_id: Seq<char>,
    status: Seq<char>,
    exit_code: Option<i32>,
    error: Option<Seq<char>>,
    finished_at: Option<Seq<char>>,
) -> spec_fn(Seq<ReplyView>) -> Result<(JsonView, int), StepView> {
    |replies: Seq<ReplyView>|
        ai_runs::run_updated(replies, 0, run_id, status, exit_code, error, finished_at)
}

proof fn lemma_rest_adds_no_run()
    ensures
        ai_runs::THREAD_RESTS@ != ai_runs::INSERT_RUN@,
{
    reveal_strlit("
            INSERT INTO ai_chat_runs (id, thread_id, status, exit_code, error, started_at, finished_at)
            VALUES (?1, ?2, 'running', NULL, NULL, ?3, NULL)
            ");
    reveal_strlit("
                UPDATE ai_chat_threads
                SET status = ?1, updated_at = COALESCE(?2, updated_at)
                WHERE id = ?3
                  AND NOT EXISTS (
                    SELECT 1 FROM ai_chat_runs
                    WHERE thread_id = ?3 AND status = 'running'
                  )
                ");
    assert(ai_runs::INSERT_RUN@[13] == 'I');
    assert(ai_runs::THREAD_RESTS@[13] == ' ');
}

/// Whether a status is one with which a run ends.
pub open spec fn is_end(status: Seq<char>) -> bool {
    status == "completed"@ || status == "failed"@ || status == "interrupted"@
}

proof fn lemma_ends()
    ensures
        forall|status: Seq<char>| #[trigger] is_end(status) ==> status != "running"@,
{
    reveal_strlit("completed");
    reveal_strlit("failed");
    reveal_strlit("interrupted");
    reveal_strlit("running");
    assert("running"@[0] == 'r' && "completed"@[0] == 'c' && "failed"@[0] == 'f'
        && "interrupted"@[0] == 'i');
}

/// The values of a run that has ended.
pub open spec fn ended_run(
    values: Seq<SqlView>,
    status: Seq<char>,
    exit_code: Option<i32>,
    error: Option<Seq<char>>,
    finished_at: Option<Seq<char>>,
) -> Seq<SqlView> {
    values.update(2, SqlView::Text(status)).update(3, ai_runs::exit_param(exit_code)).update(
        4,
        store::optional_param(error),
    ).update(6, store::optional_param(finished_at))
}

/// Threads and runs of which one has ended. Its thread rests, unless it has another running run.
pub open spec fn with_ended(
    before: Talks,
    run_id: Seq<char>,
    thread_id: Seq<char>,
    status: Seq<char>,
    exit_code: Option<i32>,
    error: Option<Seq<char>>,
    finished_at: Option<Seq<char>>,
) -> Talks {
    let ended = Talks {
        runs: before.runs.insert(
            run_id,
            ended_run(before.runs[run_id], status, exit_code, error, finished_at),
        ),
        ..before
    };
    let values = before.threads[thread_id];
    if before.threads.contains_key(thread_id) && !ended.is_busy(thread_id) {
        Talks {
            threads: before.threads.insert(
                thread_id,
                values.update(2, SqlView::Text(ai_runs::resting_status(status))).update(
                    13,
                    board::coalesced(store::optional_param(finished_at), values[13]),
                ),
            ),
            ..ended
        }
    } else {
        ended
    }
}

proof fn lemma_statements_of_ending(
    before: Talks,
    run_id: Seq<char>,
    thread_id: Seq<char>,
    status: Seq<char>,
    exit_code: Option<i32>,
    error: Option<Seq<char>>,
    finished_at: Option<Seq<char>>,
)
    requires
        before.is_sound(),
        before.runs.contains_key(run_id),
        before.runs[run_id][1] == SqlView::Text(thread_id),
        is_end(status),
    ensures
        ({
            let ending = ai_runs::run_update(run_id, status, exit_code, error, finished_at);
            let resting = ai_runs::thread_rests(thread_id, status, finished_at);
            let ended = talks::talks_after(before, ending);
            let after = talks::talks_after(ended, resting);
            &&& !talks::is_refused(before, ending)
            &&& !talks::is_refused(ended, resting)
            &&& ended.runs.contains_key(run_id)
            &&& ended.runs[run_id][1] == SqlView::Text(thread_id)
            &&& after == with_ended(
                before,
                run_id,
                thread_id,
                status,
                exit_code,
                error,
                finished_at,
            )
            &&& after.is_sound()
            &&& !after.is_running(run_id, thread_id)
        }),
{
    reveal(talks::talks_after);
    lemma_rest_adds_no_run();
    lemma_ends();
    let ending = ai_runs::run_update(run_id, status, exit_code, error, finished_at);
    let resting = ai_runs::thread_rests(thread_id, status, finished_at);
    assert(ending.params.len() == 5);
    assert(resting.params.len() == 3);
    let ended = talks::talks_after(before, ending);
    let after = talks::talks_after(ended, resting);
    let run = before.runs[run_id];
    let over = ended_run(run, status, exit_code, error, finished_at);
    assert(talks::fits(run, talks::run_kinds()));
    assert(ended == (Talks { runs: before.runs.insert(run_id, over), ..before }));
    assert(talks::fits(over, talks::run_kinds())) by {
        assert forall|k: int| 0 <= k < 7 implies rows::of_kind(
            #[trigger] over[k],
            talks::run_kinds()[k],
        ) is Some by {
            assert(rows::of_kind(run[k], talks::run_kinds()[k]) is Some);
        }
    }
    assert forall|other: Seq<char>| #[trigger] after.runs.contains_key(other) implies talks::fits(
        after.runs[other],
        talks::run_kinds(),
    ) && after.runs[other][0] == SqlView::Text(other) by {
        assert(before.runs.contains_key(other));
    }
    assert forall|other: Seq<char>| #[trigger] after.threads.contains_key(other) implies
        talks::fits(after.threads[other], talks::thread_kinds()) && after.threads[other][0]
        == SqlView::Text(other) by {
        assert(before.threads.contains_key(other));
        let values = before.threads[other];
        let marked = after.threads[other];
        assert forall|k: int| 0 <= k < 14 implies rows::of_kind(
            #[trigger] marked[k],
            talks::thread_kinds()[k],
        ) is Some by {
            assert(rows::of_kind(values[k], talks::thread_kinds()[k]) is Some);
        }
    }
    assert forall|a: Seq<char>, b: Seq<char>, t: Seq<char>| #[trigger]
        after.is_running(a, t) && #[trigger] after.is_running(b, t) implies a == b by {
        assert(a != run_id && b != run_id);
        assert(before.is_running(a, t) && before.is_running(b, t));
    }
}

/// A run that ends is shown with the status, the exit code, the error and the time with which it
/// ended, and is no longer running. Its thread rests, unless it has another running run; every other
/// run and thread stays as it is, and no thread has two running runs.
pub proof fn law_ended_run_is_not_running(
    before: Talks,
    run_id: Seq<char>,
    thread_id: Seq<char>,
    status: Seq<char>,
    exit_code: Option<i32>,
    error: Option<Seq<char>>,
    finished_at: Option<Seq<char>>,
    replies: Seq<ReplyView>,
)
    requires
        before.is_sound(),
        before.runs.contains_key(run_id),
        before.runs[run_id][1] == SqlView::Text(thread_id),
        is_end(status),
        is_course(update(run_id, status, exit_code, error, finished_at), before, replies),
    ensures
        ({
            let after = talks_become(
                update(run_id, status, exit_code, error, finished_at),
                before,
                replies,
            );
            &&& after == with_ended(
                before,
                run_id,
                thread_id,
                status,
                exit_code,
                error,
                finished_at,
            )
            &&& after.is_sound()
            &&& !after.is_running(run_id, thread_id)
            &&& ai_runs::run_updated(
                replies,
                0,
                run_id,
                status,
                exit_code,
                error,
                finished_at,
            ) == Ok::<(JsonView, int), StepView>((talks::shown_run(after.runs[run_id]), 6))
        }),
{
    let h = update(run_id, status, exit_code, error, finished_at);
    let e = talks::desk_effect();
    let t = talks::desk_tells();
    let start = at_rest(before);
    let n = replies.len() as int;
    let ending = ai_runs::run_update(run_id, status, exit_code, error, finished_at);
    let resting = ai_runs::thread_rests(thread_id, status, finished_at);
    lemma_words();
    lemma_ends();
    lemma_statements_of_ending(
        before,
        run_id,
        thread_id,
        status,
        exit_code,
        error,
        finished_at,
    );
    let ended = talks::talks_after(before, ending);
    let after = talks::talks_after(ended, resting);
    let query = talks::keyed_query(ai_runs::RUN_THREAD@, run_id);
    history::lemma_start(h, e, start, replies);
    assert(h(replies.take(0)) == Err::<(JsonView, int), StepView>(
        StepView::Ask(ActionView::Batch(ai_runs::BEGIN@)),
    ));
    history::lemma_told(h, e, t, start, replies, 0);
    talks::lemma_tells_batch(before, ai_runs::BEGIN@, replies[0]);
    history::lemma_step(h, e, start, replies, 0);
    assert(history::became(h, e, start, replies.take(1)) == start);
    assert(h(replies.take(1)) == Err::<(JsonView, int), StepView>(
        StepView::Ask(ActionView::Write(ending)),
    )) by {
        assert(replies.take(1)[0] == replies[0]);
    }
    history::lemma_told(h, e, t, start, replies, 1);
    talks::lemma_tells_write(before, ending, replies[1]);
    history::lemma_step(h, e, start, replies, 1);
    assert(h(replies.take(2)) == Err::<(JsonView, int), StepView>(
        StepView::Ask(ActionView::Read(seq![query])),
    )) by {
        assert(replies.take(2)[0] == replies[0]);
        assert(replies.take(2)[1] == replies[1]);
    }
    history::lemma_told(h, e, t, start, replies, 2);
    history::lemma_step(h, e, start, replies, 2);
    assert forall|m: int| 3 <= m <= n implies h(#[trigger] replies.take(m)) == ended_at(
        replies.take(m),
        run_id,
        resting,
    ) by {
        assert(replies.take(m)[0] == replies[0]);
        assert(replies.take(m)[1] == replies[1]);
        assert(replies.take(m)[2] == replies[2]);
        talks::lemma_tells_run_thread(ended, run_id, thread_id, replies.take(m), 2);
    }
    assert(h(replies.take(3)) == Err::<(JsonView, int), StepView>(
        StepView::Ask(ActionView::Write(resting)),
    ));
    history::lemma_told(h, e, t, start, replies, 3);
    talks::lemma_tells_write(ended, resting, replies[3]);
    history::lemma_step(h, e, start, replies, 3);
    assert(h(replies.take(4)) == Err::<(JsonView, int), StepView>(
        StepView::Ask(ActionView::Batch(ai_runs::COMMIT@)),
    )) by {
        assert(replies.take(4)[3] == replies[3]);
    }
    history::lemma_told(h, e, t, start, replies, 4);
    talks::lemma_tells_batch(after, ai_runs::COMMIT@, replies[4]);
    history::lemma_step(h, e, start, replies, 4);
    assert(h(replies.take(5)) == Err::<(JsonView, int), StepView>(
        StepView::Ask(ActionView::Read(seq![talks::keyed_query(ai_runs::RUN_BY_ID@, run_id)])),
    )) by {
        assert(replies.take(5)[3] == replies[3]);
        assert(replies.take(5)[4] == replies[4]);
    }
    history::lemma_told(h, e, t, start, replies, 5);
    history::lemma_step(h, e, start, replies, 5);
    assert forall|m: int| 6 <= m <= n implies h(#[trigger] replies.take(m)) == Ok::<
        (JsonView, int),
        StepView,
    >((talks::shown_run(after.runs[run_id]), 6)) by {
        assert(replies.take(m)[3] == replies[3]);
        assert(replies.take(m)[4] == replies[4]);
        assert(replies.take(m)[5] == replies[5]);
        talks::lemma_tells_run(after, run_id, replies.take(m), 5);
    }
    assert forall|m: int| 6 <= m < n implies #[trigger] history::is_quiet(h, e, replies, m) by {
        assert(h(replies.take(m)) is Ok);
    }
    history::lemma_quiet(h, e, start, replies, 6, n);
    assert(h(replies.take(n)) is Ok);
}

/// What is left of the end of a run once its thread is known.
pub open spec fn ended_at(replies: Seq<ReplyView>, run_id: Seq<char>, resting: StatementView) -> Result<
    (JsonView, int),
    StepView,
> {
    match exchange::changed_at(replies, 3, resting) {
        Err(s) => Err(ai_runs::broken_off(replies, 4, s)),
        Ok(_) => match exchange::done_at(replies, 4, ActionView::Batch(ai_runs::COMMIT@)) {
            Err(s) => Err(s),
            Ok(_) => match ai_runs::run_at(replies, 5, run_id) {
                Err(s) => Err(s),
                Ok(None) => Err(StepView::Fail("updated run"@)),
                Ok(Some(run)) => Ok((run, 6)),
            },
        },
    }
}

} // verus!
