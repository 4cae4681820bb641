//! A model of the store as far as conversations go: their threads and runs, what the statements of
//! the library make of them, and what the replies tell of them.
//!
//! A thread and a run are the sequences of the values in their columns, in the order of the schema.
//! The model reads each statement as its text says it. No statement fails but those that a constraint
//! of the schema refuses: a run of a thread that is not there, a second running run of a thread
//! (`ai_chat_runs_one_active` is a unique index of the running ones), and a status that no run has.
use crate::ai_runs;
use crate::ai_threads;
use crate::board;
use crate::exchange;
use crate::exchange::{ActionView, ReplyView, SqlView, StatementView, StepView};
use crate::json;
use crate::json::JsonView;
use crate::rows;
use crate::rows::Kind;
use crate::store;
use vstd::prelude::*;

verus! {

/// Threads and runs, each under its identifier.
pub struct Talks {
    pub threads: Map<Seq<char>, Seq<SqlView>>,
    pub runs: Map<Seq<char>, Seq<SqlView>>,
}

/// Threads and runs, and those to which a transaction that is under way goes back.
pub struct Desk {
    pub now: Talks,
    pub kept: Talks,
}

/// The columns of a run, in the order of the schema.
pub open spec fn run_columns() -> Seq<Seq<char>> {
    seq![
        "id"@,
        "thread_id"@,
        "status"@,
        "exit_code"@,
        "error"@,
        "started_at"@,
        "finished_at"@,
    ]
}

/// What the columns of a run hold.
pub open spec fn run_kinds() -> Seq<Kind> {
    seq![
        Kind::Text,
        Kind::Text,
        Kind::Text,
        Kind::OptionalInteger,
        Kind::OptionalText,
        Kind::Text,
        Kind::OptionalText,
    ]
}

/// The columns of a thread, in the order of the schema.
pub open spec fn thread_columns() -> Seq<Seq<char>> {
    seq![
        "id"@,
        "title"@,
        "status"@,
        "origin_project_id"@,
        "origin_project_name"@,
        "origin_workspace_path"@,
        "origin_issue_id"@,
        "origin_issue_identifier"@,
        "codex_thread_id"@,
        "model"@,
        "reasoning_effort"@,
        "sandbox"@,
        "created_at"@,
        "updated_at"@,
    ]
}

/// What the columns of a thread hold.
pub open spec fn thread_kinds() -> Seq<Kind> {
    seq![
        Kind::Text,
        Kind::Text,
        Kind::Text,
        Kind::Text,
        Kind::Text,
        Kind::Text,
        Kind::OptionalText,
        Kind::OptionalText,
        Kind::OptionalText,
        Kind::Text,
        Kind::Text,
        Kind::Text,
        Kind::Text,
        Kind::Text,
    ]
}

/// A row with values in its columns.
#[verifier::opaque]
pub open spec fn named_row(columns: Seq<Seq<char>>, values: Seq<SqlView>) -> Seq<
    (Seq<char>, SqlView),
> {
    Seq::new(columns.len(), |i: int| (columns[i], values[i]))
}

/// Whether each value is of the kind that its column holds.
pub open spec fn fits(values: Seq<SqlView>, kinds: Seq<Kind>) -> bool {
    &&& values.len() == kinds.len()
    &&& forall|k: int|
        0 <= k < kinds.len() ==> rows::of_kind(#[trigger] values[k], kinds[k]) is Some
}

/// What a value in a column shows.
pub open spec fn cell(values: Seq<SqlView>, kinds: Seq<Kind>, k: int) -> JsonView {
    rows::of_kind(values[k], kinds[k])->0
}

impl Talks {
    /// Whether a thread has a running run.
    pub open spec fn is_busy(self, thread_id: Seq<char>) -> bool {
        exists|run: Seq<char>| self.is_running(run, thread_id)
    }

    /// Whether a run is a running run of a thread.
    pub open spec fn is_running(self, run: Seq<char>, thread_id: Seq<char>) -> bool {
        &&& self.runs.contains_key(run)
        &&& self.runs[run][1] == SqlView::Text(thread_id)
        &&& self.runs[run][2] == SqlView::Text("running"@)
    }

    /// Whether no thread has two running runs.
    pub open spec fn has_one_each(self) -> bool {
        forall|a: Seq<char>, b: Seq<char>, thread_id: Seq<char>| #[trigger]
            self.is_running(a, thread_id) && #[trigger] self.is_running(b, thread_id) ==> a == b
    }

    /// Whether threads and runs are stored as such, each under its identifier, and no thread has two
    /// running runs.
    pub open spec fn is_sound(self) -> bool {
        &&& forall|id: Seq<char>| #[trigger]
            self.runs.contains_key(id) ==> fits(self.runs[id], run_kinds()) && self.runs[id][0]
                == SqlView::Text(id)
        &&& forall|id: Seq<char>| #[trigger]
            self.threads.contains_key(id) ==> fits(self.threads[id], thread_kinds())
                && self.threads[id][0] == SqlView::Text(id)
        &&& self.has_one_each()
    }
}

/// The values of a run that is added.
pub open spec fn new_run(id: Seq<char>, thread_id: Seq<char>, time: Seq<char>) -> Seq<SqlView> {
    seq![
        SqlView::Text(id),
        SqlView::Text(thread_id),
        SqlView::Text("running"@),
        SqlView::Null,
        SqlView::Null,
        SqlView::Text(time),
        SqlView::Null,
    ]
}

/// What a statement makes of threads and runs.
#[verifier::opaque]
pub open spec fn talks_after(talks: Talks, w: StatementView) -> Talks {
    let p = w.params;
    if w.sql == ai_runs::INSERT_RUN@ && p.len() == 3 && p[0] is Text && p[1] is Text && p[2]
        is Text {
        Talks {
            runs: talks.runs.insert(
                p[0]->Text_0,
                new_run(p[0]->Text_0, p[1]->Text_0, p[2]->Text_0),
            ),
            ..talks
        }
    } else if w.sql == ai_runs::THREAD_RUNS@ && p.len() == 2 && p[1] is Text
        && talks.threads.contains_key(p[1]->Text_0) {
        Talks {
            threads: talks.threads.insert(
                p[1]->Text_0,
                talks.threads[p[1]->Text_0].update(2, SqlView::Text("running"@)).update(13, p[0]),
            ),
            ..talks
        }
    } else if w.sql == ai_runs::UPDATE_RUN@ && p.len() == 5 && p[4] is Text
        && talks.runs.contains_key(p[4]->Text_0) {
        Talks {
            runs: talks.runs.insert(
                p[4]->Text_0,
                talks.runs[p[4]->Text_0].update(2, p[0]).update(3, p[1]).update(4, p[2]).update(
                    6,
                    p[3],
                ),
            ),
            ..talks
        }
    } else if w.sql == ai_runs::THREAD_RESTS@ && p.len() == 3 && p[2] is Text
        && talks.threads.contains_key(p[2]->Text_0) && !talks.is_busy(p[2]->Text_0) {
        let values = talks.threads[p[2]->Text_0];
        Talks {
            threads: talks.threads.insert(
                p[2]->Text_0,
                values.update(2, p[0]).update(13, board::coalesced(p[1], values[13])),
            ),
            ..talks
        }
    } else {
        talks
    }
}

/// The effect of an action on threads and runs.
pub open spec fn desk_effect() -> spec_fn(Desk, ActionView) -> Desk {
    |desk: Desk, action: ActionView|
        match action {
            ActionView::Write(w) => Desk { now: talks_after(desk.now, w), ..desk },
            ActionView::Batch(sql) => if sql == ai_runs::BEGIN@ {
                Desk { kept: desk.now, ..desk }
            } else if sql == ai_runs::ROLLBACK@ {
                Desk { now: desk.kept, ..desk }
            } else {
                desk
            },
            _ => desk,
        }
}

/// Whether a reply is one that the store can give to an action, where it holds these threads and
/// runs.
pub open spec fn desk_tells() -> spec_fn(Desk, ActionView, ReplyView) -> bool {
    |desk: Desk, action: ActionView, reply: ReplyView| tells(desk.now, action, reply)
}

/// Whether a text is a status that a run may have.
pub open spec fn is_run_status(status: SqlView) -> bool {
    ||| status == SqlView::Text("running"@)
    ||| status == SqlView::Text("completed"@)
    ||| status == SqlView::Text("failed"@)
    ||| status == SqlView::Text("interrupted"@)
}

/// Whether the store refuses a statement.
pub open spec fn is_refused(talks: Talks, w: StatementView) -> bool {
    ||| w.sql == ai_runs::INSERT_RUN@ && w.params.len() == 3 && w.params[1] is Text && (
    !talks.threads.contains_key(w.params[1]->Text_0) || talks.is_busy(w.params[1]->Text_0))
    ||| w.sql == ai_runs::UPDATE_RUN@ && w.params.len() == 5 && !is_run_status(w.params[0])
}

/// What the replies to the actions of the library tell of threads and runs: the time, a fresh
/// identifier, a thread or a run by its identifier, the thread of a run, and the running run of a
/// thread.
#[verifier::opaque]
pub open spec fn tells(talks: Talks, action: ActionView, reply: ReplyView) -> bool {
    let query = board::single_query(action);
    let sql = query->0.sql;
    let p = query->0.params;
    let keyed = query is Some && p.len() == 1 && p[0] is Text;
    let key = p[0]->Text_0;
    &&& action is NewId ==> reply is Text && !talks.runs.contains_key(reply->Text_0)
        && !talks.threads.contains_key(reply->Text_0)
    &&& query is Some && sql == store::NOW@ ==> board::tells_time(reply)
    &&& action is Batch ==> reply is Done
    &&& action is Write ==> if is_refused(talks, action->Write_0) {
        reply is Failed
    } else {
        reply is Changed
    }
    &&& keyed && sql == ai_runs::RUN_BY_ID@ ==> board::is_table(
        reply,
        if talks.runs.contains_key(key) {
            seq![named_row(run_columns(), talks.runs[key])]
        } else {
            Seq::empty()
        },
    )
    &&& keyed && sql == ai_runs::RUN_THREAD@ ==> board::is_table(
        reply,
        if talks.runs.contains_key(key) {
            seq![seq![("thread_id"@, talks.runs[key][1])]]
        } else {
            Seq::empty()
        },
    )
    &&& keyed && sql == ai_threads::THREAD_BY_ID@ ==> board::is_table(
        reply,
        if talks.threads.contains_key(key) {
            seq![named_row(thread_columns(), talks.threads[key])]
        } else {
            Seq::empty()
        },
    )
    &&& keyed && sql == ai_threads::CURRENT_RUN@ ==> if talks.is_busy(key) {
        exists|run: Seq<char>| #[trigger]
            talks.is_running(run, key) && board::is_table(
                reply,
                seq![named_row(run_columns(), talks.runs[run])],
            )
    } else {
        board::is_table(reply, Seq::empty())
    }
}

/// A query with one text for its parameter.
pub open spec fn keyed_query(sql: Seq<char>, key: Seq<char>) -> StatementView {
    store::stated(sql, store::params().push(store::text_param(key)))
}

proof fn lemma_keyed(sql: Seq<char>, key: Seq<char>)
    ensures
        board::single_query(ActionView::Read(seq![keyed_query(sql, key)])) == Some(
            keyed_query(sql, key),
        ),
        keyed_query(sql, key).params.len() == 1,
        keyed_query(sql, key).params[0] == SqlView::Text(key),
{
    let asked = seq![keyed_query(sql, key)];
    assert(asked[0] == keyed_query(sql, key));
}

/// A table of one row is read as it is.
pub proof fn lemma_one_row(
    replies: Seq<ReplyView>,
    at: int,
    statement: StatementView,
    row: Seq<(Seq<char>, SqlView)>,
)
    requires
        0 <= at < replies.len(),
        board::is_table(replies[at], seq![row]),
        row.len() > 0,
        !(row[0].1 is Lost),
    ensures
        exchange::rows_at(replies, at, statement) == Ok::<
            Seq<Seq<(Seq<char>, SqlView)>>,
            StepView,
        >(seq![row]),
        seq![row].len() == 1,
        seq![row][0] == row,
{
    let found = seq![row];
    let tables = seq![found];
    assert(tables[0] == found);
    assert(found[0] == row);
}

proof fn lemma_run_columns_differ(i: int, j: int)
    requires
        0 <= j < i < 7,
    ensures
        run_columns()[i] != run_columns()[j],
{
    reveal_strlit("id");
    reveal_strlit("thread_id");
    reveal_strlit("status");
    reveal_strlit("exit_code");
    reveal_strlit("error");
    reveal_strlit("started_at");
    reveal_strlit("finished_at");
    let a = run_columns()[i];
    let b = run_columns()[j];
    assert(a.len() != b.len() || a[0] != b[0]);
}

proof fn lemma_thread_columns_differ(i: int, j: int)
    requires
        0 <= j < i < 14,
    ensures
        thread_columns()[i] != thread_columns()[j],
{
    reveal_strlit("id");
    reveal_strlit("title");
    reveal_strlit("status");
    reveal_strlit("origin_project_id");
    reveal_strlit("origin_project_name");
    reveal_strlit("origin_workspace_path");
    reveal_strlit("origin_issue_id");
    reveal_strlit("origin_issue_identifier");
    reveal_strlit("codex_thread_id");
    reveal_strlit("model");
    reveal_strlit("reasoning_effort");
    reveal_strlit("sandbox");
    reveal_strlit("created_at");
    reveal_strlit("updated_at");
    let a = thread_columns()[i];
    let b = thread_columns()[j];
    assert(a.len() != b.len() || a[0] != b[0]);
}

/// A plan over columns is read from a row with values in them.
pub proof fn lemma_plan(
    columns: Seq<Seq<char>>,
    kinds: Seq<Kind>,
    values: Seq<SqlView>,
    plan: Seq<(Seq<char>, Seq<char>, Kind)>,
    places: Seq<int>,
)
    requires
        columns.len() == kinds.len(),
        fits(values, kinds),
        columns.len() > 0,
        forall|i: int, j: int|
            0 <= j < i < columns.len() ==> #[trigger] columns[i] != #[trigger] columns[j],
        places.len() == plan.len(),
        forall|i: int|
            0 <= i < plan.len() ==> 0 <= #[trigger] places[i] < columns.len() && plan[i].1
                == columns[places[i]] && plan[i].2 == kinds[places[i]],
    ensures
        rows::planned(named_row(columns, values), plan) == Ok::<
            Seq<(Seq<char>, JsonView)>,
            Seq<char>,
        >(Seq::new(plan.len(), |i: int| (plan[i].0, cell(values, kinds, places[i])))),
{
    reveal(named_row);
    let row = named_row(columns, values);
    let found = Seq::new(plan.len(), |i: int| cell(values, kinds, places[i]));
    assert(rows::of_kind(values[0], kinds[0]) is Some);
    assert forall|i: int| 0 <= i < plan.len() implies rows::column_value(
        row,
        (#[trigger] plan[i]).1,
        plan[i].2,
    ) == Ok::<JsonView, Seq<char>>(found[i]) by {
        let k = places[i];
        assert(row[k].0 == columns[k]);
        assert forall|j: int| 0 <= j < k implies (#[trigger] row[j]).0 != columns[k] by {
            assert(columns[k] != columns[j]);
        }
        rows::lemma_cell_index(row, columns[k], k);
        assert(rows::of_kind(values[k], kinds[k]) is Some);
        assert(row[0].1 == values[0]);
    }
    rows::lemma_planned_values(row, plan, found);
    assert(Seq::new(plan.len(), |i: int| (plan[i].0, found[i])) =~= Seq::new(
        plan.len(),
        |i: int| (plan[i].0, cell(values, kinds, places[i])),
    ));
}

/// A run as it is shown.
pub open spec fn shown_run(values: Seq<SqlView>) -> JsonView {
    JsonView::Object(
        seq![
            ("id"@, cell(values, run_kinds(), 0)),
            ("threadId"@, cell(values, run_kinds(), 1)),
            ("status"@, cell(values, run_kinds(), 2)),
            ("exitCode"@, cell(values, run_kinds(), 3)),
            ("error"@, cell(values, run_kinds(), 4)),
            ("startedAt"@, cell(values, run_kinds(), 5)),
            ("finishedAt"@, cell(values, run_kinds(), 6)),
        ],
    )
}

/// A run shows each column of its row.
pub proof fn law_run_is_shown_as_stored(values: Seq<SqlView>)
    requires
        fits(values, run_kinds()),
    ensures
        ai_runs::run_of_row(named_row(run_columns(), values)) == Ok::<JsonView, Seq<char>>(
            shown_run(values),
        ),
        named_row(run_columns(), values).len() > 0,
        !(named_row(run_columns(), values)[0].1 is Lost),
{
    let plan = ai_runs::run_plan();
    let places = Seq::new(7, |i: int| i);
    assert forall|i: int, j: int| 0 <= j < i < 7 implies #[trigger] run_columns()[i]
        != #[trigger] run_columns()[j] by {
        lemma_run_columns_differ(i, j);
    }
    lemma_plan(run_columns(), run_kinds(), values, plan, places);
    assert(rows::planned(named_row(run_columns(), values), plan)->Ok_0 =~= shown_run(
        values,
    )->Object_0);
    reveal(named_row);
    assert(rows::of_kind(values[0], run_kinds()[0]) is Some);
}

/// Where a thread started from, as it is shown.
pub open spec fn shown_origin(values: Seq<SqlView>) -> JsonView {
    JsonView::Object(
        ai_threads::with_some(
            ai_threads::with_some(
                seq![
                    ("projectId"@, cell(values, thread_kinds(), 3)),
                    ("projectName"@, cell(values, thread_kinds(), 4)),
                    ("workspacePath"@, cell(values, thread_kinds(), 5)),
                ],
                "issueId"@,
                cell(values, thread_kinds(), 6),
            ),
            "issueIdentifier"@,
            cell(values, thread_kinds(), 7),
        ),
    )
}

/// A thread as it is shown, but for its running run.
pub open spec fn shown_thread(values: Seq<SqlView>) -> JsonView {
    JsonView::Object(
        seq![
            ("id"@, cell(values, thread_kinds(), 0)),
            ("title"@, cell(values, thread_kinds(), 1)),
            ("status"@, cell(values, thread_kinds(), 2)),
            ("origin"@, shown_origin(values)),
            ("codexThreadId"@, cell(values, thread_kinds(), 8)),
            ("model"@, cell(values, thread_kinds(), 9)),
            ("reasoningEffort"@, cell(values, thread_kinds(), 10)),
            ("sandbox"@, cell(values, thread_kinds(), 11)),
            ("createdAt"@, cell(values, thread_kinds(), 12)),
            ("updatedAt"@, cell(values, thread_kinds(), 13)),
        ],
    )
}

/// A thread shows each column of its row.
pub proof fn law_thread_is_shown_as_stored(values: Seq<SqlView>)
    requires
        fits(values, thread_kinds()),
    ensures
        ai_threads::thread_of_row(named_row(thread_columns(), values)) == Ok::<
            JsonView,
            Seq<char>,
        >(shown_thread(values)),
        named_row(thread_columns(), values).len() > 0,
        !(named_row(thread_columns(), values)[0].1 is Lost),
{
    let columns = thread_columns();
    let kinds = thread_kinds();
    let row = named_row(columns, values);
    assert forall|i: int, j: int| 0 <= j < i < 14 implies #[trigger] columns[i]
        != #[trigger] columns[j] by {
        lemma_thread_columns_differ(i, j);
    }
    lemma_plan(columns, kinds, values, ai_threads::issue_plan(), seq![6int, 7]);
    lemma_plan(columns, kinds, values, ai_threads::origin_plan(), seq![3int, 4, 5]);
    lemma_plan(columns, kinds, values, ai_threads::thread_plan(), seq![0int, 1, 2]);
    lemma_plan(
        columns,
        kinds,
        values,
        ai_threads::thread_tail_plan(),
        seq![8int, 9, 10, 11, 12, 13],
    );
    let origin = rows::planned(row, ai_threads::origin_plan())->Ok_0;
    assert(origin =~= seq![
        ("projectId"@, cell(values, kinds, 3)),
        ("projectName"@, cell(values, kinds, 4)),
        ("workspacePath"@, cell(values, kinds, 5)),
    ]);
    let issue = rows::planned(row, ai_threads::issue_plan())->Ok_0;
    assert(issue[0].1 == cell(values, kinds, 6));
    assert(issue[1].1 == cell(values, kinds, 7));
    assert(ai_threads::thread_of_row(row)->Ok_0->Object_0 =~= shown_thread(values)->Object_0);
    reveal(named_row);
    assert(rows::of_kind(values[0], kinds[0]) is Some);
}

/// A fresh identifier is a text that no run and no thread has.
pub proof fn lemma_tells_new_id(talks: Talks, reply: ReplyView)
    requires
        tells(talks, ActionView::NewId, reply),
    ensures
        reply is Text,
        !talks.runs.contains_key(reply->Text_0),
{
    reveal(tells);
}

/// The time is told as one.
pub proof fn lemma_tells_time(talks: Talks, reply: ReplyView)
    requires
        tells(talks, board::time_query(), reply),
    ensures
        board::tells_time(reply),
{
    reveal(tells);
    let asked = seq![store::stated(store::NOW@, store::params())];
    assert(asked[0].sql == store::NOW@);
}

/// A transaction begins and ends.
pub proof fn lemma_tells_batch(talks: Talks, sql: Seq<char>, reply: ReplyView)
    requires
        tells(talks, ActionView::Batch(sql), reply),
    ensures
        reply is Done,
{
    reveal(tells);
}

/// A statement is carried out unless it is refused.
pub proof fn lemma_tells_write(talks: Talks, w: StatementView, reply: ReplyView)
    requires
        tells(talks, ActionView::Write(w), reply),
    ensures
        is_refused(talks, w) ==> reply is Failed,
        !is_refused(talks, w) ==> reply is Changed,
{
    reveal(tells);
}

/// A run is read as it is stored.
pub proof fn lemma_tells_run(talks: Talks, id: Seq<char>, replies: Seq<ReplyView>, at: int)
    requires
        0 <= at < replies.len(),
        talks.is_sound(),
        talks.runs.contains_key(id),
        tells(
            talks,
            ActionView::Read(seq![keyed_query(ai_runs::RUN_BY_ID@, id)]),
            replies[at],
        ),
    ensures
        ai_runs::run_at(replies, at, id) == Ok::<Option<JsonView>, StepView>(
            Some(shown_run(talks.runs[id])),
        ),
{
    reveal(tells);
    lemma_keyed(ai_runs::RUN_BY_ID@, id);
    law_run_is_shown_as_stored(talks.runs[id]);
    lemma_one_row(
        replies,
        at,
        keyed_query(ai_runs::RUN_BY_ID@, id),
        named_row(run_columns(), talks.runs[id]),
    );
}

/// The thread of a run is read as it is stored.
pub proof fn lemma_tells_run_thread(
    talks: Talks,
    id: Seq<char>,
    thread_id: Seq<char>,
    replies: Seq<ReplyView>,
    at: int,
)
    requires
        0 <= at < replies.len(),
        talks.runs.contains_key(id),
        talks.runs[id][1] == SqlView::Text(thread_id),
        tells(
            talks,
            ActionView::Read(seq![keyed_query(ai_runs::RUN_THREAD@, id)]),
            replies[at],
        ),
    ensures
        ({
            let found = exchange::rows_at(replies, at, keyed_query(ai_runs::RUN_THREAD@, id));
            &&& found is Ok
            &&& store::single_text(found->Ok_0) == Ok::<Seq<char>, Seq<char>>(thread_id)
        }),
{
    reveal(tells);
    lemma_keyed(ai_runs::RUN_THREAD@, id);
    let row = seq![("thread_id"@, talks.runs[id][1])];
    assert(row[0].0 == "thread_id"@);
    lemma_one_row(replies, at, keyed_query(ai_runs::RUN_THREAD@, id), row);
    rows::lemma_cell_index(row, row[0].0, 0);
}

/// A thread is read as it is stored.
pub proof fn lemma_tells_thread(talks: Talks, id: Seq<char>, replies: Seq<ReplyView>, at: int)
    requires
        0 <= at < replies.len(),
        talks.is_sound(),
        talks.threads.contains_key(id),
        tells(
            talks,
            ActionView::Read(seq![keyed_query(ai_threads::THREAD_BY_ID@, id)]),
            replies[at],
        ),
    ensures
        ({
            let found = exchange::rows_at(
                replies,
                at,
                keyed_query(ai_threads::THREAD_BY_ID@, id),
            );
            &&& found is Ok
            &&& found->Ok_0.len() == 1
            &&& ai_threads::thread_of_row(found->Ok_0[0]) == Ok::<JsonView, Seq<char>>(
                shown_thread(talks.threads[id]),
            )
        }),
{
    reveal(tells);
    lemma_keyed(ai_threads::THREAD_BY_ID@, id);
    law_thread_is_shown_as_stored(talks.threads[id]);
    lemma_one_row(
        replies,
        at,
        keyed_query(ai_threads::THREAD_BY_ID@, id),
        named_row(thread_columns(), talks.threads[id]),
    );
}

/// The running run of a thread, as the thread shows it: null where there is none.
pub open spec fn shown_current(talks: Talks, thread_id: Seq<char>) -> JsonView {
    if talks.is_busy(thread_id) {
        shown_run(talks.runs[choose|run: Seq<char>| talks.is_running(run, thread_id)])
    } else {
        JsonView::Null
    }
}

/// The running run of a thread is read as it is stored.
pub proof fn lemma_tells_current_run(
    talks: Talks,
    thread_id: Seq<char>,
    replies: Seq<ReplyView>,
    at: int,
)
    requires
        0 <= at < replies.len(),
        talks.is_sound(),
        tells(
            talks,
            ActionView::Read(seq![keyed_query(ai_threads::CURRENT_RUN@, thread_id)]),
            replies[at],
        ),
    ensures
        ({
            let found = exchange::rows_at(
                replies,
                at,
                keyed_query(ai_threads::CURRENT_RUN@, thread_id),
            );
            &&& found is Ok
            &&& ai_runs::first_run(found->Ok_0) is Ok
            &&& json::or_null(ai_runs::first_run(found->Ok_0)->Ok_0) == shown_current(
                talks,
                thread_id,
            )
        }),
{
    reveal(tells);
    let query = keyed_query(ai_threads::CURRENT_RUN@, thread_id);
    lemma_keyed(ai_threads::CURRENT_RUN@, thread_id);
    if talks.is_busy(thread_id) {
        let told = choose|run: Seq<char>| #[trigger]
            talks.is_running(run, thread_id) && board::is_table(
                replies[at],
                seq![named_row(run_columns(), talks.runs[run])],
            );
        let chosen = choose|run: Seq<char>| talks.is_running(run, thread_id);
        assert(talks.is_running(told, thread_id) && talks.is_running(chosen, thread_id));
        law_run_is_shown_as_stored(talks.runs[told]);
        lemma_one_row(replies, at, query, named_row(run_columns(), talks.runs[told]));
    } else {
        let tables = seq![Seq::<Seq<(Seq<char>, SqlView)>>::empty()];
        assert(tables[0].len() == 0);
    }
}

} // verus!
