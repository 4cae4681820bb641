//! That a task is moved or deleted, and nothing else.
use crate::archiving;
use crate::board;
use crate::board::Board;
use crate::editing;
use crate::exchange;
use crate::exchange::{ActionView, ReplyView, ResponseView, SqlView, StatementView, StepView};
use crate::fields;
use crate::fields::ActorView;
use crate::history;
use crate::json;
use crate::json::JsonView;
use crate::projects;
use crate::rows;
use crate::showing;
use crate::store;
use crate::task_edits;
use crate::tasks;
use vstd::prelude::*;

verus! {

/// The move of a task.
pub open spec fn moving(key: Seq<char>, body: JsonView) -> spec_fn(Seq<ReplyView>) -> Result<
    ResponseView,
    StepView,
> {
    |replies: Seq<ReplyView>| task_edits::task_moved(replies, key, body)
}

/// The project to which a request moves a task: the one that it names, or else that of the task.
pub open spec fn project_of(values: Seq<SqlView>, body: JsonView) -> Seq<char> {
    task_edits::text_or(fields::text_of(body, "projectId"@, 64)->Ok_0, values[2]->Text_0)
}

/// How the move of a task fails before the project is looked for: the version that it expects is
/// none, or not that of the task; the task is archived; or the project that it names is no text.
pub open spec fn starting_fails(body: JsonView, values: Seq<SqlView>) -> Option<
    Result<ResponseView, StepView>,
> {
    match fields::expected_version(body) {
        Err(m) => Some(Err(StepView::Fail(m))),
        Ok(version) => if values[26] != SqlView::Integer(version) {
            Some(Err(StepView::Answer(task_edits::task_conflict())))
        } else if !(values[25] is Null) {
            Some(
                Ok(exchange::refusal(409, "TASK_ARCHIVED"@, "Archived tasks cannot be moved"@)),
            )
        } else {
            match fields::text_of(body, "projectId"@, 64) {
                Err(m) => Some(Err(StepView::Fail(m))),
                Ok(_) => None,
            }
        },
    }
}

/// How the move of a task fails: it fails at the start, the project is not there, the status is none,
/// or the thread is no text.
pub open spec fn moving_fails(before: Board, body: JsonView, values: Seq<SqlView>) -> Option<
    Result<ResponseView, StepView>,
> {
    if starting_fails(body, values) is Some {
        starting_fails(body, values)
    } else if !before.next.contains_key(project_of(values, body)) {
        Some(Ok(projects::project_not_found()))
    } else {
        match placing_fails(body) {
            Some(m) => Some(Err(StepView::Fail(m))),
            None => match fields::text_of(body, "threadId"@, 256) {
                Err(m) => Some(Err(StepView::Fail(m))),
                Ok(_) => None,
            },
        }
    }
}

/// Why the status that a move names is none, where it is none.
pub open spec fn placing_fails(body: JsonView) -> Option<Seq<char>> {
    match fields::plain_text(body, "status"@) {
        Err(m) => Some(m),
        Ok(status) => match fields::status_spec(status) {
            Err(m) => Some(m),
            Ok(_) => None,
        },
    }
}

/// The place of the reply that tells the time of a move.
pub open spec fn place_of_time(body: JsonView) -> int {
    if fields::real_of(json::field(body, "sortOrder"@)) is Some {
        3
    } else {
        4
    }
}

/// The sort order of a task that is moved: the one that the request names, or else the one that is
/// told.
pub open spec fn order_of(body: JsonView, replies: Seq<ReplyView>) -> Seq<char> {
    match fields::real_of(json::field(body, "sortOrder"@)) {
        Some(s) => s,
        None => replies[3]->Text_0,
    }
}

/// The values of a task that is moved.
pub open spec fn moved_values(
    values: Seq<SqlView>,
    project_id: Seq<char>,
    status: Seq<char>,
    order: Seq<char>,
    thread_id: Option<Seq<char>>,
    time: Seq<char>,
) -> Seq<SqlView> {
    board::touched(
        values.update(2, SqlView::Text(project_id)).update(5, SqlView::Text(status)).update(
            8,
            SqlView::Real(order),
        ),
        store::optional_param(thread_id),
        SqlView::Text(time),
    )
}

/// The statement of the move of a task, by the time that it notes.
pub open spec fn move_statement(
    project_id: Seq<char>,
    status: Seq<char>,
    order: Seq<char>,
    thread_id: Option<Seq<char>>,
    id: Seq<char>,
    version: int,
) -> spec_fn(Seq<char>) -> StatementView {
    |time: Seq<char>|
        task_edits::task_move(project_id, status, order, thread_id, time, id, version)
}

proof fn lemma_move_statement(
    before: Board,
    id: Seq<char>,
    project_id: Seq<char>,
    status: Seq<char>,
    order: Seq<char>,
    thread_id: Option<Seq<char>>,
    version: int,
    time: Seq<char>,
)
    requires
        before.is_sound(),
        before.tasks.contains_key(id),
        before.tasks[id][26] == SqlView::Integer(version),
    ensures
        ({
            let w = move_statement(project_id, status, order, thread_id, id, version)(time);
            let after = board::board_after(before, w);
            let values = before.tasks[id];
            &&& w.sql != task_edits::INSERT_TASK@
            &&& after == before.with_task(
                id,
                moved_values(values, project_id, status, order, thread_id, time),
            )
            &&& after.is_sound()
            &&& forall|key: Seq<char>| #[trigger] before.names(key, id) ==> after.names(key, id)
        }),
{
    reveal(board::board_after);
    board::lemma_other_statements();
    let w = task_edits::task_move(project_id, status, order, thread_id, time, id, version);
    assert(w.params.len() == 7);
    let old_values = before.tasks[id];
    let values = moved_values(old_values, project_id, status, order, thread_id, time);
    assert(showing::is_stored_task(old_values));
    assert forall|k: int| 0 <= k < 29 implies rows::of_kind(
        #[trigger] values[k],
        showing::task_kinds()[k],
    ) is Some by {
        assert(rows::of_kind(old_values[k], showing::task_kinds()[k]) is Some);
    }
    board::lemma_with_task(before, id, values);
}

/// What is left of a move once the task is read.
pub open spec fn moving_goes_on(
    replies: Seq<ReplyView>,
    id: Seq<char>,
    body: JsonView,
    values: Seq<SqlView>,
) -> Result<ResponseView, StepView> {
    match starting_fails(body, values) {
        Some(failed) => failed,
        None => match projects::project_at(replies, 2, project_of(values, body), false) {
            Err(s) => Err(s),
            Ok(None) => Ok(projects::project_not_found()),
            Ok(Some(_)) => task_edits::task_placed(
                replies,
                3,
                id,
                fields::expected_version(body)->Ok_0,
                project_of(values, body),
                body,
            ),
        },
    }
}

proof fn lemma_moving_goes_on(
    replies: Seq<ReplyView>,
    key: Seq<char>,
    id: Seq<char>,
    body: JsonView,
    values: Seq<SqlView>,
    related: JsonView,
)
    requires
        showing::is_stored_task(values),
        values[0] == SqlView::Text(id),
        task_edits::current_task(replies, key, body) == board::task_in_hand(
            tasks::extended(showing::shown_task(values), "relations"@, related),
            body,
        ),
    ensures
        task_edits::task_moved(replies, key, body) == moving_goes_on(replies, id, body, values),
{
    reveal(task_edits::task_moved);
    showing::lemma_shown_members(values, "relations"@, related);
    assert(rows::of_kind(values[2], showing::task_kinds()[2]) is Some);
    assert(rows::of_kind(values[25], showing::task_kinds()[25]) is Some);
    assert(rows::of_kind(values[26], showing::task_kinds()[26]) is Some);
}

/// The move of a task puts it in a project, under a status and in an order, counts it one version up
/// and notes the time; every other field, every other task, the numbering and the parents stay as they
/// are, and the answer shows the task as it has become. A move that fails changes nothing.
pub proof fn law_task_is_moved(
    before: Board,
    key: Seq<char>,
    id: Seq<char>,
    body: JsonView,
    replies: Seq<ReplyView>,
)
    requires
        before.is_sound(),
        before.names(key, id),
        before.names(id, id),
        history::is_course(
            moving(key, body),
            board::board_effect(),
            board::board_tells(),
            before,
            replies,
        ),
    ensures
        ({
            let result = task_edits::task_moved(replies, key, body);
            let after = history::became(moving(key, body), board::board_effect(), before, replies);
            let values = before.tasks[id];
            let at = place_of_time(body);
            match moving_fails(before, body, values) {
                Some(failed) => result == failed && after == before,
                None => {
                    &&& after == before.with_task(
                        id,
                        moved_values(
                            values,
                            project_of(values, body),
                            fields::plain_text(body, "status"@)->Ok_0,
                            order_of(body, replies),
                            fields::text_of(body, "threadId"@, 256)->Ok_0,
                            board::time_at(replies, at),
                        ),
                    )
                    &&& after.is_sound()
                    &&& result == Ok::<ResponseView, StepView>(
                        task_edits::task_response(
                            200,
                            board::task_shown(after, id, replies, at + 3),
                        ),
                    )
                },
            }
        }),
{
    let h = moving(key, body);
    let e = board::board_effect();
    let t = board::board_tells();
    let n = replies.len() as int;
    let values = before.tasks[id];
    assert forall|m: int|
        0 <= m <= n && #[trigger] task_edits::current_task(replies.take(m), key, body) is Err implies h(
        replies.take(m),
    ) == Err::<ResponseView, StepView>(
        task_edits::current_task(replies.take(m), key, body)->Err_0,
    ) by {
        reveal(task_edits::task_moved);
    }
    board::lemma_task_in_hand(h, before, replies, key, id, body);
    history::lemma_start(h, e, before, replies);
    assert forall|m: int| 2 <= m <= n implies h(#[trigger] replies.take(m)) == moving_goes_on(
        replies.take(m),
        id,
        body,
        values,
    ) by {
        assert(task_edits::current_task(replies.take(m), key, body) == board::task_in_hand(
            board::task_shown(before, id, replies, 1),
            body,
        ));
        lemma_moving_goes_on(
            replies.take(m),
            key,
            id,
            body,
            values,
            board::related_at(replies, 1),
        );
    }
    if starting_fails(body, values) is Some {
        board::lemma_failure_is_quiet(h, before, replies, 2, starting_fails(body, values)->0);
    } else {
        let project_id = project_of(values, body);
        assert(h(replies.take(2)) == Err::<ResponseView, StepView>(
            StepView::Ask(ActionView::Read(seq![board::project_query(project_id)])),
        ));
        history::lemma_told(h, e, t, before, replies, 2);
        history::lemma_step(h, e, before, replies, 2);
        assert forall|m: int| 3 <= m <= n implies h(#[trigger] replies.take(m))
            == placing_goes_on(replies.take(m), before, id, body, values) by {
            assert(replies.take(m)[2] == replies[2]);
            board::lemma_tells_project(before, project_id, replies.take(m), 2);
        }
        lemma_placing(h, before, id, body, replies);
    }
}

/// What is left of a move once the project is looked for.
pub open spec fn placing_goes_on(
    replies: Seq<ReplyView>,
    before: Board,
    id: Seq<char>,
    body: JsonView,
    values: Seq<SqlView>,
) -> Result<ResponseView, StepView> {
    if before.next.contains_key(project_of(values, body)) {
        task_edits::task_placed(
            replies,
            3,
            id,
            fields::expected_version(body)->Ok_0,
            project_of(values, body),
            body,
        )
    } else {
        Ok(projects::project_not_found())
    }
}

proof fn lemma_placing(
    h: spec_fn(Seq<ReplyView>) -> Result<ResponseView, StepView>,
    before: Board,
    id: Seq<char>,
    body: JsonView,
    replies: Seq<ReplyView>,
)
    requires
        before.is_sound(),
        before.names(id, id),
        history::is_course(h, board::board_effect(), board::board_tells(), before, replies),
        replies.len() >= 3,
        history::became(h, board::board_effect(), before, replies.take(3)) == before,
        starting_fails(body, before.tasks[id]) is None,
        forall|m: int|
            3 <= m <= replies.len() ==> h(#[trigger] replies.take(m)) == placing_goes_on(
                replies.take(m),
                before,
                id,
                body,
                before.tasks[id],
            ),
    ensures
        ({
            let after = history::became(h, board::board_effect(), before, replies);
            let values = before.tasks[id];
            let at = place_of_time(body);
            match moving_fails(before, body, values) {
                Some(failed) => h(replies) == failed && after == before,
                None => {
                    &&& after == before.with_task(
                        id,
                        moved_values(
                            values,
                            project_of(values, body),
                            fields::plain_text(body, "status"@)->Ok_0,
                            order_of(body, replies),
                            fields::text_of(body, "threadId"@, 256)->Ok_0,
                            board::time_at(replies, at),
                        ),
                    )
                    &&& after.is_sound()
                    &&& h(replies) == Ok::<ResponseView, StepView>(
                        task_edits::task_response(
                            200,
                            board::task_shown(after, id, replies, at + 3),
                        ),
                    )
                },
            }
        }),
{
    let e = board::board_effect();
    let t = board::board_tells();
    let n = replies.len() as int;
    let values = before.tasks[id];
    let project_id = project_of(values, body);
    let failed = moving_fails(before, body, values);
    let at = place_of_time(body);
    assert(before.is_named(id, id));
    if !before.next.contains_key(project_id) || placing_fails(body) is Some {
        board::lemma_failure_is_quiet(h, before, replies, 3, failed->0);
    } else {
        let status = fields::plain_text(body, "status"@)->Ok_0;
        let greatest = task_edits::greatest_order_except(project_id, status, id);
        if at == 4 {
            assert(h(replies.take(3)) == Err::<ResponseView, StepView>(
                StepView::Ask(ActionView::NextSortOrder(greatest)),
            ));
            history::lemma_told(h, e, t, before, replies, 3);
            board::lemma_tells_order(before, greatest, replies[3]);
            history::lemma_step(h, e, before, replies, 3);
        }
        assert(history::became(h, e, before, replies.take(at)) == before);
        let order = order_of(body, replies);
        let version = fields::expected_version(body)->Ok_0;
        if fields::text_of(body, "threadId"@, 256) is Err {
            assert forall|m: int| at <= m <= n implies h(#[trigger] replies.take(m))
                == failed->0 by {
                assert(at == 4 ==> replies.take(m)[3] == replies[3]);
            }
            board::lemma_failure_is_quiet(h, before, replies, at, failed->0);
        } else {
            let thread_id = fields::text_of(body, "threadId"@, 256)->Ok_0;
            let write = move_statement(project_id, status, order, thread_id, id, version);
            assert forall|m: int| at <= m <= n implies h(#[trigger] replies.take(m))
                == board::change_at(replies.take(m), at, id, write) by {
                assert(at == 4 ==> replies.take(m)[3] == replies[3]);
            }
            assert forall|time: Seq<char>| (#[trigger] write(time)).sql
                != task_edits::INSERT_TASK@ by {
                lemma_move_statement(
                    before,
                    id,
                    project_id,
                    status,
                    order,
                    thread_id,
                    version,
                    time,
                );
            }
            assert forall|time: Seq<char>| {
                let after = board::board_after(before, #[trigger] write(time));
                after.is_sound() && after.names(id, id)
            } by {
                lemma_move_statement(
                    before,
                    id,
                    project_id,
                    status,
                    order,
                    thread_id,
                    version,
                    time,
                );
            }
            board::lemma_change_is_shown(h, before, replies, at, id, write);
            lemma_move_statement(
                before,
                id,
                project_id,
                status,
                order,
                thread_id,
                version,
                board::time_at(replies, at),
            );
        }
    }
}

/// The deletion of a task.
pub open spec fn deletion(key: Seq<char>, body: JsonView) -> spec_fn(Seq<ReplyView>) -> Result<
    ResponseView,
    StepView,
> {
    |replies: Seq<ReplyView>| task_edits::task_deleted(replies, key, body)
}

/// A board without a task, and without its parent and its children.
pub open spec fn without(before: Board, id: Seq<char>) -> Board {
    Board {
        tasks: before.tasks.remove(id),
        parents: before.parents.restrict(
            before.parents.dom().filter(
                |child: Seq<char>| child != id && before.parents[child] != id,
            ),
        ),
        ..before
    }
}

/// How the deletion of a task fails: the version that it expects is none, or not that of the task.
pub open spec fn deletion_fails(body: JsonView, values: Seq<SqlView>) -> Option<
    Result<ResponseView, StepView>,
> {
    match fields::expected_version(body) {
        Err(m) => Some(Err(StepView::Fail(m))),
        Ok(version) => if values[26] != SqlView::Integer(version) {
            Some(Err(StepView::Answer(task_edits::task_conflict())))
        } else {
            None
        },
    }
}

/// The statement that deletes a task.
pub open spec fn delete_statement(id: Seq<char>, version: int) -> StatementView {
    store::stated(
        task_edits::DELETE_TASK@,
        store::params().push(store::text_param(id)).push(SqlView::Integer(version)),
    )
}

/// What is left of a deletion once the task is read.
pub open spec fn deletion_goes_on(
    replies: Seq<ReplyView>,
    id: Seq<char>,
    body: JsonView,
    values: Seq<SqlView>,
) -> Result<ResponseView, StepView> {
    match deletion_fails(body, values) {
        Some(failed) => failed,
        None => match exchange::rows_at(replies, 2, board::attachments_query(id)) {
            Err(s) => Err(s),
            Ok(found) => match store::first_texts(found) {
                Err(m) => Err(StepView::Fail(m)),
                Ok(attachments) => match exchange::changed_at(
                    replies,
                    3,
                    delete_statement(id, fields::expected_version(body)->Ok_0),
                ) {
                    Err(s) => Err(s),
                    Ok(_) => match exchange::done_at(
                        replies,
                        4,
                        ActionView::RemoveAttachments(attachments),
                    ) {
                        Err(s) => Err(s),
                        Ok(_) => Ok(ResponseView::Empty(204)),
                    },
                },
            },
        },
    }
}

proof fn lemma_deletion_goes_on(
    replies: Seq<ReplyView>,
    key: Seq<char>,
    id: Seq<char>,
    body: JsonView,
    values: Seq<SqlView>,
    related: JsonView,
)
    requires
        showing::is_stored_task(values),
        values[0] == SqlView::Text(id),
        task_edits::current_task(replies, key, body) == board::task_in_hand(
            tasks::extended(showing::shown_task(values), "relations"@, related),
            body,
        ),
    ensures
        task_edits::task_deleted(replies, key, body) == deletion_goes_on(
            replies,
            id,
            body,
            values,
        ),
{
    reveal(task_edits::task_deleted);
    showing::lemma_shown_members(values, "relations"@, related);
    assert(rows::of_kind(values[26], showing::task_kinds()[26]) is Some);
}

/// The deletion of a task takes it off the board, and with it its parent and its children; every
/// other task and every other parent, the numbers of the projects and the identifiers that were given
/// stay as they are. A deletion that fails changes nothing.
pub proof fn law_task_is_deleted(
    before: Board,
    key: Seq<char>,
    id: Seq<char>,
    body: JsonView,
    replies: Seq<ReplyView>,
)
    requires
        before.is_sound(),
        before.names(key, id),
        history::is_course(
            deletion(key, body),
            board::board_effect(),
            board::board_tells(),
            before,
            replies,
        ),
    ensures
        ({
            let result = task_edits::task_deleted(replies, key, body);
            let after = history::became(
                deletion(key, body),
                board::board_effect(),
                before,
                replies,
            );
            match deletion_fails(body, before.tasks[id]) {
                Some(failed) => result == failed && after == before,
                None => {
                    &&& after == without(before, id)
                    &&& after.is_sound()
                    &&& result == Ok::<ResponseView, StepView>(ResponseView::Empty(204))
                },
            }
        }),
{
    let h = deletion(key, body);
    let e = board::board_effect();
    let t = board::board_tells();
    let n = replies.len() as int;
    let values = before.tasks[id];
    assert forall|m: int|
        0 <= m <= n && #[trigger] task_edits::current_task(replies.take(m), key, body) is Err implies h(
        replies.take(m),
    ) == Err::<ResponseView, StepView>(
        task_edits::current_task(replies.take(m), key, body)->Err_0,
    ) by {
        reveal(task_edits::task_deleted);
    }
    board::lemma_task_in_hand(h, before, replies, key, id, body);
    history::lemma_start(h, e, before, replies);
    assert(before.is_named(key, id));
    assert forall|m: int| 2 <= m <= n implies h(#[trigger] replies.take(m)) == deletion_goes_on(
        replies.take(m),
        id,
        body,
        values,
    ) by {
        assert(task_edits::current_task(replies.take(m), key, body) == board::task_in_hand(
            board::task_shown(before, id, replies, 1),
            body,
        ));
        lemma_deletion_goes_on(
            replies.take(m),
            key,
            id,
            body,
            values,
            board::related_at(replies, 1),
        );
    }
    if deletion_fails(body, values) is Some {
        board::lemma_failure_is_quiet(h, before, replies, 2, deletion_fails(body, values)->0);
    } else {
        let version = fields::expected_version(body)->Ok_0;
        let w = delete_statement(id, version);
        assert(h(replies.take(2)) == Err::<ResponseView, StepView>(
            StepView::Ask(ActionView::Read(seq![board::attachments_query(id)])),
        ));
        history::lemma_told(h, e, t, before, replies, 2);
        history::lemma_step(h, e, before, replies, 2);
        let found = replies[2]->Tables_0[0];
        assert(h(replies.take(3)) == Err::<ResponseView, StepView>(
            StepView::Ask(ActionView::Write(w)),
        )) by {
            assert(replies.take(3)[2] == replies[2]);
            board::lemma_tells_attachments(before, id, replies.take(3), 2);
        }
        history::lemma_told(h, e, t, before, replies, 3);
        board::lemma_other_statements();
        board::lemma_tells_write(before, w, replies[3]);
        history::lemma_step(h, e, before, replies, 3);
        let after = board::board_after(before, w);
        lemma_delete_statement(before, id, version);
        let attachments = store::first_texts(found)->Ok_0;
        assert(h(replies.take(4)) == Err::<ResponseView, StepView>(
            StepView::Ask(ActionView::RemoveAttachments(attachments)),
        )) by {
            assert(replies.take(4)[2] == replies[2]);
            assert(replies.take(4)[3] == replies[3]);
            board::lemma_tells_attachments(before, id, replies.take(4), 2);
        }
        history::lemma_told(h, e, t, before, replies, 4);
        board::lemma_tells_removal(after, attachments, replies[4]);
        history::lemma_step(h, e, before, replies, 4);
        assert forall|m: int| 5 <= m <= n implies h(#[trigger] replies.take(m)) == Ok::<
            ResponseView,
            StepView,
        >(ResponseView::Empty(204)) by {
            assert(replies.take(m)[2] == replies[2]);
            assert(replies.take(m)[3] == replies[3]);
            assert(replies.take(m)[4] == replies[4]);
            board::lemma_tells_attachments(before, id, replies.take(m), 2);
        }
        assert forall|m: int| 5 <= m < n implies #[trigger] history::is_quiet(h, e, replies, m) by {
            assert(h(replies.take(m)) is Ok);
        }
        history::lemma_quiet(h, e, before, replies, 5, n);
        assert(h(replies.take(n)) is Ok);
    }
}

proof fn lemma_delete_statement(before: Board, id: Seq<char>, version: int)
    requires
        before.is_sound(),
        before.tasks.contains_key(id),
        before.tasks[id][26] == SqlView::Integer(version),
    ensures
        board::board_after(before, delete_statement(id, version)) == without(before, id),
        without(before, id).is_sound(),
{
    reveal(board::board_after);
    board::lemma_other_statements();
    let w = delete_statement(id, version);
    assert(w.params.len() == 2);
    assert(board::board_after(before, w).parents =~= without(before, id).parents);
    let after = without(before, id);
    assert forall|other: Seq<char>| #[trigger] after.tasks.contains_key(other) implies
        showing::is_stored_task(after.tasks[other]) && after.tasks[other][0] == SqlView::Text(
        other,
    ) by {
        assert(before.tasks.contains_key(other));
    }
}

/// A request that changes a task which no key names, such as one that was deleted, is answered that
/// there is none, and changes nothing.
pub proof fn law_unknown_task_is_not_found(
    handler: spec_fn(Seq<ReplyView>) -> Result<ResponseView, StepView>,
    before: Board,
    key: Seq<char>,
    body: JsonView,
    actor: ActorView,
    archived: bool,
    replies: Seq<ReplyView>,
)
    requires
        handler == moving(key, body) || handler == deletion(key, body) || handler
            == editing::editing(key, body, actor) || handler == archiving::archiving(
            key,
            body,
            archived,
        ),
        forall|id: Seq<char>| !(#[trigger] before.is_named(key, id)),
        history::is_course(handler, board::board_effect(), board::board_tells(), before, replies),
    ensures
        handler(replies) == Err::<ResponseView, StepView>(
            StepView::Answer(task_edits::task_not_found()),
        ),
        history::became(handler, board::board_effect(), before, replies) == before,
{
    let e = board::board_effect();
    let n = replies.len() as int;
    assert forall|m: int|
        0 <= m <= n && #[trigger] task_edits::current_task(replies.take(m), key, body) is Err implies handler(
        replies.take(m),
    ) == Err::<ResponseView, StepView>(
        task_edits::current_task(replies.take(m), key, body)->Err_0,
    ) by {
        reveal(task_edits::task_moved);
        reveal(task_edits::task_deleted);
        reveal(task_edits::task_updated);
        reveal(task_edits::task_archived);
    }
    history::lemma_start(handler, e, before, replies);
    assert(task_edits::current_task(replies.take(0), key, body) == Err::<
        (JsonView, int, int),
        StepView,
    >(StepView::Ask(ActionView::Read(seq![board::task_query(key)]))));
    history::lemma_told(handler, e, board::board_tells(), before, replies, 0);
    history::lemma_step(handler, e, before, replies, 0);
    let failed = Err::<ResponseView, StepView>(StepView::Answer(task_edits::task_not_found()));
    assert forall|m: int| 1 <= m <= n implies handler(#[trigger] replies.take(m)) == failed by {
        assert(replies.take(m)[0] == replies[0]);
        board::lemma_tells_no_task(before, key, replies.take(m), 0);
        assert(task_edits::current_task(replies.take(m), key, body) is Err);
    }
    board::lemma_failure_is_quiet(handler, before, replies, 1, failed);
}

} // verus!
