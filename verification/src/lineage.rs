//! That a task is given one parent at a time, and that no task becomes its own ancestor.
use crate::board;
use crate::board::Board;
use crate::exchange;
use crate::exchange::{ActionView, ReplyView, ResponseView, SqlView, StepView};
use crate::fields;
use crate::history;
use crate::json;
use crate::json::JsonView;
use crate::parents;
use crate::relations;
use crate::relations::PairView;
use crate::rows;
use crate::showing;
use crate::store;
use crate::task_edits;
use crate::tasks;
use vstd::prelude::*;

verus! {

/// What a request that relates two tasks of a board has in hand once both are read.
pub open spec fn pair_of(before: Board, a: Seq<char>, b: Seq<char>, body: JsonView) -> Result<
    (PairView, int),
    StepView,
> {
    match fields::expected_version(body) {
        Err(m) => Err(StepView::Fail(m)),
        Ok(version) => if before.tasks[a][26] != SqlView::Integer(version) {
            Err(StepView::Answer(task_edits::task_conflict()))
        } else if before.tasks[a][2] != before.tasks[b][2] {
            Err(
                StepView::Answer(
                    exchange::refusal(
                        400,
                        "CROSS_PROJECT_RELATION"@,
                        "Issue relations must stay within one project"@,
                    ),
                ),
            )
        } else if a == b {
            Err(
                StepView::Answer(
                    exchange::refusal(
                        400,
                        "SELF_RELATION"@,
                        "An issue cannot be related to itself"@,
                    ),
                ),
            )
        } else {
            Ok((PairView { task_id: a, related_task_id: b, version }, 4))
        },
    }
}

proof fn lemma_pair_is_read(
    replies: Seq<ReplyView>,
    before: Board,
    key: Seq<char>,
    related_key: Seq<char>,
    a: Seq<char>,
    b: Seq<char>,
    body: JsonView,
    relations_a: JsonView,
    relations_b: JsonView,
)
    requires
        before.is_sound(),
        before.tasks.contains_key(a),
        before.tasks.contains_key(b),
        tasks::task_at(replies, 0, key) == Ok::<(Option<JsonView>, int), StepView>(
            (
                Some(
                    tasks::extended(
                        showing::shown_task(before.tasks[a]),
                        "relations"@,
                        relations_a,
                    ),
                ),
                2,
            ),
        ),
        tasks::task_at(replies, 2, related_key) == Ok::<(Option<JsonView>, int), StepView>(
            (
                Some(
                    tasks::extended(
                        showing::shown_task(before.tasks[b]),
                        "relations"@,
                        relations_b,
                    ),
                ),
                4,
            ),
        ),
    ensures
        relations::pair_at(replies, key, related_key, body) == pair_of(before, a, b, body),
{
    showing::lemma_shown_members(before.tasks[a], "relations"@, relations_a);
    showing::lemma_shown_members(before.tasks[b], "relations"@, relations_b);
    assert(rows::of_kind(before.tasks[a][26], showing::task_kinds()[26]) is Some);
    assert(rows::of_kind(before.tasks[a][2], showing::task_kinds()[2]) is Some);
    assert(rows::of_kind(before.tasks[b][2], showing::task_kinds()[2]) is Some);
}

/// A request that relates two tasks has both in hand after four replies, and nothing has become of
/// the board by then.
pub proof fn lemma_pair_in_hand(
    handler: spec_fn(Seq<ReplyView>) -> Result<ResponseView, StepView>,
    before: Board,
    replies: Seq<ReplyView>,
    key: Seq<char>,
    related_key: Seq<char>,
    a: Seq<char>,
    b: Seq<char>,
    body: JsonView,
)
    requires
        history::is_course(handler, board::board_effect(), board::board_tells(), before, replies),
        before.is_sound(),
        before.names(key, a),
        before.names(related_key, b),
        forall|m: int|
            0 <= m <= replies.len() && #[trigger] relations::pair_at(
                replies.take(m),
                key,
                related_key,
                body,
            ) is Err ==> handler(replies.take(m)) == Err::<ResponseView, StepView>(
                relations::pair_at(replies.take(m), key, related_key, body)->Err_0,
            ),
    ensures
        replies.len() >= 4,
        history::became(handler, board::board_effect(), before, replies.take(4)) == before,
        forall|m: int|
            4 <= m <= replies.len() ==> #[trigger] relations::pair_at(
                replies.take(m),
                key,
                related_key,
                body,
            ) == pair_of(before, a, b, body),
{
    let e = board::board_effect();
    history::lemma_start(handler, e, before, replies);
    assert(relations::pair_at(replies.take(0), key, related_key, body) is Err);
    if replies.len() >= 1 && tasks::task_at(replies.take(1), 0, key) is Err {
        assert(relations::pair_at(replies.take(1), key, related_key, body) is Err);
    }
    board::lemma_task_is_read(handler, before, replies, 0, key, a);
    assert(tasks::task_at(replies.take(2), 0, key) is Ok);
    assert(relations::pair_at(replies.take(2), key, related_key, body) is Err);
    if replies.len() >= 3 {
        assert(tasks::task_at(replies.take(3), 0, key) is Ok);
        if tasks::task_at(replies.take(3), 2, related_key) is Err {
            assert(relations::pair_at(replies.take(3), key, related_key, body) is Err);
        }
    }
    board::lemma_task_is_read(handler, before, replies, 2, related_key, b);
    assert forall|m: int| 4 <= m <= replies.len() implies #[trigger] relations::pair_at(
        replies.take(m),
        key,
        related_key,
        body,
    ) == pair_of(before, a, b, body) by {
        assert(tasks::task_at(replies.take(m), 0, key) is Ok);
        assert(tasks::task_at(replies.take(m), 2, related_key) is Ok);
        lemma_pair_is_read(
            replies.take(m),
            before,
            key,
            related_key,
            a,
            b,
            body,
            board::related_at(replies, 1),
            board::related_at(replies, 3),
        );
    }
}

/// What is left of a request that gives a task a parent once both are read.
pub open spec fn giving_at(replies: Seq<ReplyView>, pair: PairView, body: JsonView) -> Result<
    ResponseView,
    StepView,
> {
    match relations::relation_written(
        replies,
        4,
        ("parent"@, pair.related_task_id, pair.task_id),
        pair,
        true,
    ) {
        Err(s) => Err(s),
        Ok(next) => relations::relation_shown(replies, next, pair, body),
    }
}

/// Two tasks of a board as the answer to a change of their relation shows them.
pub open spec fn pair_shown(
    board: Board,
    a: Seq<char>,
    b: Seq<char>,
    replies: Seq<ReplyView>,
    at: int,
) -> ResponseView {
    ResponseView::Json(
        200,
        JsonView::Object(
            seq![
                ("task"@, board::task_shown(board, a, replies, at)),
                ("relatedTask"@, board::task_shown(board, b, replies, at + 2)),
            ],
        ),
    )
}

/// A board on which a task has a parent, and is counted one version up.
pub open spec fn with_parent(
    before: Board,
    a: Seq<char>,
    b: Seq<char>,
    thread_id: Option<Seq<char>>,
    time: Seq<char>,
) -> Board {
    Board {
        parents: before.parents.insert(a, b),
        ..before.with_task(
            a,
            board::touched(
                before.tasks[a],
                store::optional_param(thread_id),
                SqlView::Text(time),
            ),
        )
    }
}

proof fn lemma_statements_of_giving(
    before: Board,
    a: Seq<char>,
    b: Seq<char>,
    version: int,
    thread_id: Option<Seq<char>>,
    time: Seq<char>,
    later: Seq<char>,
)
    requires
        before.is_sound(),
        before.tasks.contains_key(a),
        before.tasks.contains_key(b),
        before.names(a, a),
        before.names(b, b),
        before.tasks[a][26] == SqlView::Integer(version),
    ensures
        ({
            let taken = board::board_after(
                before,
                store::stated(relations::DELETE_PARENT@, store::params().push(store::text_param(a))),
            );
            let given = board::board_after(
                taken,
                relations::relation_insert(("parent"@, b, a), time),
            );
            let after = board::board_after(
                given,
                relations::task_touch(thread_id, later, a, version),
            );
            &&& taken == (Board { parents: before.parents.remove(a), ..before })
            &&& given == (Board { parents: before.parents.insert(a, b), ..before })
            &&& after == with_parent(before, a, b, thread_id, later)
            &&& after.is_sound()
            &&& after.names(a, a)
            &&& after.names(b, b)
        }),
{
    reveal(board::board_after);
    board::lemma_other_statements();
    let taken = Board { parents: before.parents.remove(a), ..before };
    let given = Board { parents: before.parents.insert(a, b), ..before };
    assert(before.parents.remove(a).insert(a, b) =~= before.parents.insert(a, b));
    let w = relations::relation_insert(("parent"@, b, a), time);
    assert(w.params.len() == 4);
    assert(board::board_after(taken, w) == given);
    let touch = relations::task_touch(thread_id, later, a, version);
    assert(touch.params.len() == 4);
    let values = board::touched(
        before.tasks[a],
        store::optional_param(thread_id),
        SqlView::Text(later),
    );
    assert(showing::is_stored_task(before.tasks[a]));
    assert forall|k: int| 0 <= k < 29 implies rows::of_kind(
        #[trigger] values[k],
        showing::task_kinds()[k],
    ) is Some by {
        assert(rows::of_kind(before.tasks[a][k], showing::task_kinds()[k]) is Some);
    }
    assert(board::board_after(given, touch) == with_parent(before, a, b, thread_id, later));
    board::lemma_with_task(given, a, values);
    lemma_names_alike(before, given, a);
    lemma_names_alike(before, given, b);
    assert(given.is_sound());
    assert(given.with_task(a, values) == with_parent(before, a, b, thread_id, later));
}

/// The same keys name the same tasks on boards with the same tasks.
pub proof fn lemma_names_alike(one: Board, other: Board, key: Seq<char>)
    requires
        one.tasks == other.tasks,
    ensures
        forall|id: Seq<char>| #[trigger] one.names(key, id) ==> other.names(key, id),
        one.is_sound() ==> other.is_sound(),
{
    assert forall|id: Seq<char>| #[trigger] one.names(key, id) implies other.names(key, id) by {
        assert(one.is_named(key, id));
        assert forall|third: Seq<char>| #[trigger] other.is_named(key, third) implies third
            == id by {
            assert(one.is_named(key, third));
        }
    }
}

/// A change of a relation that shows both tasks at its end comes to that end.
pub proof fn lemma_shown_pair(
    handler: spec_fn(Seq<ReplyView>) -> Result<ResponseView, StepView>,
    before: Board,
    replies: Seq<ReplyView>,
    at: int,
    a: Seq<char>,
    b: Seq<char>,
)
    requires
        history::is_course(handler, board::board_effect(), board::board_tells(), before, replies),
        0 <= at <= replies.len(),
        ({
            let board = history::became(handler, board::board_effect(), before, replies.take(at));
            board.is_sound() && board.names(a, a) && board.names(b, b)
        }),
        forall|m: int|
            at <= m <= replies.len() ==> handler(#[trigger] replies.take(m)) == shown_at(
                replies.take(m),
                at,
                a,
                b,
            ),
    ensures
        ({
            let board = history::became(handler, board::board_effect(), before, replies.take(at));
            &&& history::became(handler, board::board_effect(), before, replies) == board
            &&& handler(replies) == Ok::<ResponseView, StepView>(
                pair_shown(board, a, b, replies, at + 1),
            )
        }),
{
    let e = board::board_effect();
    let n = replies.len() as int;
    let board = history::became(handler, e, before, replies.take(at));
    history::lemma_start(handler, e, before, replies);
    assert(handler(replies.take(at)) == shown_at(replies.take(at), at, a, b));
    if at + 1 <= n {
        assert(handler(replies.take(at + 1)) == shown_at(replies.take(at + 1), at, a, b));
    }
    board::lemma_task_is_read(handler, before, replies, at, a, a);
    assert(tasks::task_at(replies.take(at + 2), at, a) is Ok);
    assert(handler(replies.take(at + 2)) == shown_at(replies.take(at + 2), at, a, b));
    if at + 3 <= n {
        assert(tasks::task_at(replies.take(at + 3), at, a) is Ok);
        assert(handler(replies.take(at + 3)) == shown_at(replies.take(at + 3), at, a, b));
    }
    board::lemma_task_is_read(handler, before, replies, at + 2, b, b);
    assert forall|m: int| at + 4 <= m <= n implies handler(#[trigger] replies.take(m)) == Ok::<
        ResponseView,
        StepView,
    >(pair_shown(board, a, b, replies, at + 1)) by {
        assert(tasks::task_at(replies.take(m), at, a) is Ok);
        assert(tasks::task_at(replies.take(m), at + 2, b) is Ok);
        let shown = shown_at(replies.take(m), at, a, b);
        assert(shown is Ok);
        assert(shown->Ok_0->Json_1->Object_0 =~= pair_shown(
            board,
            a,
            b,
            replies,
            at + 1,
        )->Json_1->Object_0);
    }
    assert forall|m: int| at + 4 <= m < n implies #[trigger] history::is_quiet(
        handler,
        e,
        replies,
        m,
    ) by {
        assert(handler(replies.take(m)) is Ok);
    }
    history::lemma_quiet(handler, e, before, replies, at + 4, n);
    assert(handler(replies.take(n)) is Ok);
}

/// What is left of a change of a relation once everything is stored.
pub open spec fn shown_at(replies: Seq<ReplyView>, at: int, a: Seq<char>, b: Seq<char>) -> Result<
    ResponseView,
    StepView,
> {
    match tasks::task_at(replies, at, a) {
        Err(s) => Err(s),
        Ok((task, next)) => match tasks::task_at(replies, next, b) {
            Err(s) => Err(s),
            Ok((related, _)) => Ok(
                ResponseView::Json(
                    200,
                    JsonView::Object(
                        json::members().push(("task"@, json::or_null(task))).push(
                            ("relatedTask"@, json::or_null(related)),
                        ),
                    ),
                ),
            ),
        },
    }
}

/// How a request that gives a task a parent stands once the ancestors of the parent are read.
proof fn lemma_giving_starts(replies: Seq<ReplyView>, pair: PairView, body: JsonView)
    requires
        replies.len() >= 5,
        exchange::rows_at(
            replies,
            4,
            relations::cycle_query(pair.task_id, pair.related_task_id),
        ) is Ok,
    ensures
        ({
            let found = exchange::rows_at(
                replies,
                4,
                relations::cycle_query(pair.task_id, pair.related_task_id),
            )->Ok_0;
            giving_at(replies, pair, body) == if found.len() > 0 {
                Err::<ResponseView, StepView>(StepView::Answer(relations::relation_cycle()))
            } else {
                given_at(replies, pair, body)
            }
        }),
{
}

/// What is left of a request that gives a task a parent once it is known that this makes no cycle.
pub open spec fn given_at(replies: Seq<ReplyView>, pair: PairView, body: JsonView) -> Result<
    ResponseView,
    StepView,
> {
    match exchange::changed_at(
        replies,
        5,
        store::stated(
            relations::DELETE_PARENT@,
            store::params().push(store::text_param(pair.task_id)),
        ),
    ) {
        Err(s) => Err(s),
        Ok(_) => match store::now_at(replies, 6) {
            Err(s) => Err(s),
            Ok(time) => match exchange::changed_at(
                replies,
                7,
                relations::relation_insert(("parent"@, pair.related_task_id, pair.task_id), time),
            ) {
                Err(s) => Err(s),
                Ok(inserted) => if inserted != 1 {
                    Err(
                        StepView::Answer(
                            exchange::refusal(
                                409,
                                "RELATION_EXISTS"@,
                                "This issue relation already exists"@,
                            ),
                        ),
                    )
                } else {
                    counted_at(replies, pair, body)
                },
            },
        },
    }
}

/// What is left of a request that gives a task a parent once it has it.
pub open spec fn counted_at(replies: Seq<ReplyView>, pair: PairView, body: JsonView) -> Result<
    ResponseView,
    StepView,
> {
    match fields::text_of(body, "threadId"@, 256) {
        Err(m) => Err(StepView::Fail(m)),
        Ok(thread_id) => match store::now_at(replies, 8) {
            Err(s) => Err(s),
            Ok(time) => match exchange::changed_at(
                replies,
                9,
                relations::task_touch(thread_id, time, pair.task_id, pair.version),
            ) {
                Err(s) => Err(s),
                Ok(_) => shown_at(replies, 10, pair.task_id, pair.related_task_id),
            },
        },
    }
}

proof fn lemma_given(
    handler: spec_fn(Seq<ReplyView>) -> Result<ResponseView, StepView>,
    before: Board,
    replies: Seq<ReplyView>,
    pair: PairView,
    body: JsonView,
)
    requires
        history::is_course(handler, board::board_effect(), board::board_tells(), before, replies),
        replies.len() >= 5,
        history::became(handler, board::board_effect(), before, replies.take(5)) == before,
        before.is_sound(),
        before.names(pair.task_id, pair.task_id),
        before.names(pair.related_task_id, pair.related_task_id),
        before.tasks[pair.task_id][26] == SqlView::Integer(pair.version),
        fields::text_of(body, "threadId"@, 256) is Ok,
        forall|m: int|
            5 <= m <= replies.len() ==> handler(#[trigger] replies.take(m)) == given_at(
                replies.take(m),
                pair,
                body,
            ),
    ensures
        ({
            let after = with_parent(
                before,
                pair.task_id,
                pair.related_task_id,
                fields::text_of(body, "threadId"@, 256)->Ok_0,
                board::time_at(replies, 8),
            );
            &&& history::became(handler, board::board_effect(), before, replies) == after
            &&& after.is_sound()
            &&& handler(replies) == Ok::<ResponseView, StepView>(
                pair_shown(after, pair.task_id, pair.related_task_id, replies, 11),
            )
        }),
{
    let e = board::board_effect();
    let t = board::board_tells();
    let n = replies.len() as int;
    let a = pair.task_id;
    let b = pair.related_task_id;
    let thread_id = fields::text_of(body, "threadId"@, 256)->Ok_0;
    let taking = store::stated(
        relations::DELETE_PARENT@,
        store::params().push(store::text_param(a)),
    );
    assert(before.is_named(a, a) && before.is_named(b, b));
    board::lemma_other_statements();
    assert(handler(replies.take(5)) == given_at(replies.take(5), pair, body));
    history::lemma_told(handler, e, t, before, replies, 5);
    board::lemma_tells_write(before, taking, replies[5]);
    history::lemma_step(handler, e, before, replies, 5);
    let taken = board::board_after(before, taking);
    assert(handler(replies.take(6)) == Err::<ResponseView, StepView>(
        StepView::Ask(board::time_query()),
    )) by {
        assert(replies.take(6)[5] == replies[5]);
    }
    history::lemma_told(handler, e, t, before, replies, 6);
    board::lemma_tells_time(taken, replies[6]);
    history::lemma_step(handler, e, before, replies, 6);
    let time = board::time_at(replies, 6);
    let giving = relations::relation_insert(("parent"@, b, a), time);
    assert(handler(replies.take(7)) == Err::<ResponseView, StepView>(
        StepView::Ask(ActionView::Write(giving)),
    )) by {
        assert(replies.take(7)[5] == replies[5]);
        assert(replies.take(7)[6] == replies[6]);
        board::lemma_time_is_read(replies.take(7), 6);
    }
    history::lemma_told(handler, e, t, before, replies, 7);
    board::lemma_tells_parent(taken, a, b, time, replies[7]);
    history::lemma_step(handler, e, before, replies, 7);
    let given = board::board_after(taken, giving);
    lemma_statements_of_giving(before, a, b, pair.version, thread_id, time, time);
    assert(replies[7] == ReplyView::Changed(1));
    assert forall|m: int| 8 <= m <= n implies handler(#[trigger] replies.take(m)) == counted_at(
        replies.take(m),
        pair,
        body,
    ) by {
        assert(replies.take(m)[5] == replies[5]);
        assert(replies.take(m)[6] == replies[6]);
        assert(replies.take(m)[7] == replies[7]);
        board::lemma_time_is_read(replies.take(m), 6);
    }
    assert(history::became(handler, e, before, replies.take(8)) == given);
    lemma_counted(handler, before, given, replies, pair, body, time);
}

proof fn lemma_counted(
    handler: spec_fn(Seq<ReplyView>) -> Result<ResponseView, StepView>,
    before: Board,
    given: Board,
    replies: Seq<ReplyView>,
    pair: PairView,
    body: JsonView,
    earlier: Seq<char>,
)
    requires
        history::is_course(handler, board::board_effect(), board::board_tells(), before, replies),
        replies.len() >= 8,
        history::became(handler, board::board_effect(), before, replies.take(8)) == given,
        before.is_sound(),
        before.names(pair.task_id, pair.task_id),
        before.names(pair.related_task_id, pair.related_task_id),
        before.tasks[pair.task_id][26] == SqlView::Integer(pair.version),
        fields::text_of(body, "threadId"@, 256) is Ok,
        given == (Board {
            parents: before.parents.insert(pair.task_id, pair.related_task_id),
            ..before
        }),
        forall|m: int|
            8 <= m <= replies.len() ==> handler(#[trigger] replies.take(m)) == counted_at(
                replies.take(m),
                pair,
                body,
            ),
    ensures
        ({
            let after = with_parent(
                before,
                pair.task_id,
                pair.related_task_id,
                fields::text_of(body, "threadId"@, 256)->Ok_0,
                board::time_at(replies, 8),
            );
            &&& history::became(handler, board::board_effect(), before, replies) == after
            &&& after.is_sound()
            &&& handler(replies) == Ok::<ResponseView, StepView>(
                pair_shown(after, pair.task_id, pair.related_task_id, replies, 11),
            )
        }),
{
    let e = board::board_effect();
    let t = board::board_tells();
    let n = replies.len() as int;
    let a = pair.task_id;
    let b = pair.related_task_id;
    let thread_id = fields::text_of(body, "threadId"@, 256)->Ok_0;
    assert(before.is_named(a, a) && before.is_named(b, b));
    board::lemma_other_statements();
    assert(handler(replies.take(8)) == Err::<ResponseView, StepView>(
        StepView::Ask(board::time_query()),
    ));
    history::lemma_told(handler, e, t, before, replies, 8);
    board::lemma_tells_time(given, replies[8]);
    history::lemma_step(handler, e, before, replies, 8);
    let time = board::time_at(replies, 8);
    let touch = relations::task_touch(thread_id, time, a, pair.version);
    assert(handler(replies.take(9)) == Err::<ResponseView, StepView>(
        StepView::Ask(ActionView::Write(touch)),
    )) by {
        assert(replies.take(9)[8] == replies[8]);
        board::lemma_time_is_read(replies.take(9), 8);
    }
    history::lemma_told(handler, e, t, before, replies, 9);
    board::lemma_tells_write(given, touch, replies[9]);
    history::lemma_step(handler, e, before, replies, 9);
    lemma_statements_of_giving(before, a, b, pair.version, thread_id, earlier, time);
    let after = with_parent(before, a, b, thread_id, time);
    assert(history::became(handler, e, before, replies.take(10)) == after);
    assert forall|m: int| 10 <= m <= n implies handler(#[trigger] replies.take(m)) == shown_at(
        replies.take(m),
        10,
        a,
        b,
    ) by {
        assert(replies.take(m)[8] == replies[8]);
        assert(replies.take(m)[9] == replies[9]);
        board::lemma_time_is_read(replies.take(m), 8);
    }
    lemma_shown_pair(handler, before, replies, 10, a, b);
}

/// Where two tasks of one project are named, and the first with its version, the second becomes the
/// parent of the first unless the first is among its ancestors. Then the request is refused, and
/// nothing becomes of the board. Else the second is from then on the only parent of the first, the
/// first is counted one version up, and every other parent and every other task, the second too,
/// stays as it is; the request is answered with both tasks. The parents stay a forest either way.
pub proof fn law_parent_is_given(
    before: Board,
    key: Seq<char>,
    related_key: Seq<char>,
    a: Seq<char>,
    b: Seq<char>,
    body: JsonView,
    replies: Seq<ReplyView>,
)
    requires
        before.is_sound(),
        parents::is_forest(before.parents),
        before.names(key, a),
        before.names(related_key, b),
        before.names(a, a),
        before.names(b, b),
        a != b,
        before.tasks[a][2] == before.tasks[b][2],
        fields::expected_version(body) is Ok,
        before.tasks[a][26] == SqlView::Integer(fields::expected_version(body)->Ok_0),
        fields::text_of(body, "threadId"@, 256) is Ok,
        history::is_course(
            parents::change(key, "parent"@, related_key, body, true),
            board::board_effect(),
            board::board_tells(),
            before,
            replies,
        ),
    ensures
        ({
            let result = relations::relation_changed(
                replies,
                key,
                "parent"@,
                related_key,
                body,
                true,
            );
            let after = history::became(
                parents::change(key, "parent"@, related_key, body, true),
                board::board_effect(),
                before,
                replies,
            );
            &&& parents::is_forest(after.parents)
            &&& after.is_sound()
            &&& if parents::is_ancestor(before.parents, a, b) {
                &&& result == Err::<ResponseView, StepView>(
                    StepView::Answer(relations::relation_cycle()),
                )
                &&& after == before
            } else {
                &&& after == with_parent(
                    before,
                    a,
                    b,
                    fields::text_of(body, "threadId"@, 256)->Ok_0,
                    board::time_at(replies, 8),
                )
                &&& result == Ok::<ResponseView, StepView>(pair_shown(after, a, b, replies, 11))
            }
        }),
{
    let h = parents::change(key, "parent"@, related_key, body, true);
    let e = board::board_effect();
    let t = board::board_tells();
    let n = replies.len() as int;
    let version = fields::expected_version(body)->Ok_0;
    let pair = PairView { task_id: a, related_task_id: b, version };
    lemma_pair_in_hand(h, before, replies, key, related_key, a, b, body);
    assert(before.is_named(a, a));
    assert forall|m: int| 4 <= m <= n implies h(#[trigger] replies.take(m)) == giving_at(
        replies.take(m),
        pair,
        body,
    ) by {
        assert(relations::pair_at(replies.take(m), key, related_key, body) == Ok::<
            (PairView, int),
            StepView,
        >((pair, 4)));
    }
    let query = relations::cycle_query(a, b);
    assert(h(replies.take(4)) == Err::<ResponseView, StepView>(
        StepView::Ask(ActionView::Read(seq![query])),
    ));
    history::lemma_told(h, e, t, before, replies, 4);
    history::lemma_step(h, e, before, replies, 4);
    let circular = parents::is_ancestor(before.parents, a, b);
    assert forall|m: int| 5 <= m <= n implies h(#[trigger] replies.take(m)) == if circular {
        Err::<ResponseView, StepView>(StepView::Answer(relations::relation_cycle()))
    } else {
        given_at(replies.take(m), pair, body)
    } by {
        assert(replies.take(m)[4] == replies[4]);
        board::lemma_tells_cycle(before, a, b, replies.take(m), 4);
        lemma_giving_starts(replies.take(m), pair, body);
    }
    history::lemma_start(h, e, before, replies);
    if circular {
        assert forall|m: int| 5 <= m < n implies #[trigger] history::is_quiet(h, e, replies, m) by {
            assert(h(replies.take(m)) == Err::<ResponseView, StepView>(
                StepView::Answer(relations::relation_cycle()),
            ));
        }
        history::lemma_quiet(h, e, before, replies, 5, n);
        assert(h(replies.take(n)) is Err);
    } else {
        lemma_given(h, before, replies, pair, body);
        parents::lemma_insert_keeps_forest(before.parents, a, b);
    }
}

proof fn lemma_parents_of_a_board(before: Board, action: ActionView)
    requires
        match action {
            ActionView::Write(w) => w.params.len() != 2,
            _ => true,
        },
    ensures
        board::board_effect()(before, action).parents == parents::parent_effect()(
            before.parents,
            action,
        ),
{
    reveal(board::board_after);
    board::lemma_other_statements();
}

proof fn lemma_query_tells(
    before: Board,
    key: Seq<char>,
    related_key: Seq<char>,
    body: JsonView,
    replies: Seq<ReplyView>,
)
    requires
        history::is_course(
            parents::change(key, "parent"@, related_key, body, true),
            board::board_effect(),
            board::board_tells(),
            before,
            replies,
        ),
    ensures
        parents::query_tells(before.parents, replies, key, related_key, body),
{
    let h = parents::change(key, "parent"@, related_key, body, true);
    let e = board::board_effect();
    match relations::pair_at(replies, key, related_key, body) {
        Ok((pair, at)) => {
            let query = relations::cycle_query(pair.task_id, pair.related_task_id);
            if exchange::rows_at(replies, at, query) is Ok {
                parents::lemma_pair_comes_later(replies, key, related_key, body);
                assert(0 <= at < replies.len());
                assert forall|i: int| 0 <= i < at implies #[trigger] history::is_quiet(
                    h,
                    e,
                    replies,
                    i,
                ) by {
                    parents::lemma_change_asks_first(
                        replies,
                        key,
                        related_key,
                        body,
                        pair,
                        at,
                        i,
                    );
                }
                history::lemma_start(h, e, before, replies);
                history::lemma_quiet(h, e, before, replies, 0, at);
                parents::lemma_change_asks_first(replies, key, related_key, body, pair, at, at);
                history::lemma_told(h, e, board::board_tells(), before, replies, at);
                board::lemma_tells_cycle(
                    before,
                    pair.task_id,
                    pair.related_task_id,
                    replies,
                    at,
                );
            }
        },
        Err(_) => {},
    }
}

/// The parents of tasks stay a forest: whatever relation is added or removed, and however the request
/// ends, no task becomes its own ancestor.
pub proof fn law_parents_stay_a_forest(
    before: Board,
    key: Seq<char>,
    relation_type: Seq<char>,
    related_key: Seq<char>,
    body: JsonView,
    adding: bool,
    replies: Seq<ReplyView>,
)
    requires
        parents::is_forest(before.parents),
        history::is_course(
            parents::change(key, relation_type, related_key, body, adding),
            board::board_effect(),
            board::board_tells(),
            before,
            replies,
        ),
    ensures
        parents::is_forest(
            history::became(
                parents::change(key, relation_type, related_key, body, adding),
                board::board_effect(),
                before,
                replies,
            ).parents,
        ),
{
    let h = parents::change(key, relation_type, related_key, body, adding);
    let e = board::board_effect();
    let n = replies.len() as int;
    let part = |b: Board| b.parents;
    if adding && relation_type == "parent"@ {
        lemma_query_tells(before, key, related_key, body, replies);
    }
    parents::lemma_change_keeps_forest(
        before.parents,
        replies,
        key,
        relation_type,
        related_key,
        body,
        adding,
    );
    assert forall|i: int, b: Board|
        #![trigger history::done_by(h, replies, i), part(b)]
        0 <= i < n && history::done_by(h, replies, i) is Some implies part(
        e(b, history::done_by(h, replies, i)->0),
    ) == parents::parent_effect()(part(b), history::done_by(h, replies, i)->0) by {
        parents::lemma_change_is_short(
            replies,
            key,
            relation_type,
            related_key,
            body,
            adding,
            i,
        );
        lemma_parents_of_a_board(b, history::done_by(h, replies, i)->0);
    }
    history::lemma_start(h, e, before, replies);
    history::lemma_part(h, e, part, parents::parent_effect(), before, replies, n);
}

} // verus!
