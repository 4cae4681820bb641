//! That archiving a task and restoring it gives the task back.
use crate::board;
use crate::board::Board;
use crate::exchange;
use crate::exchange::{ReplyView, ResponseView, SqlView, StatementView, StepView};
use crate::fields;
use crate::history;
use crate::json::JsonView;
use crate::rows;
use crate::showing;
use crate::store;
use crate::task_edits;
use crate::tasks;
use vstd::prelude::*;

verus! {

/// The archiving or restoring of a task.
pub open spec fn archiving(key: Seq<char>, body: JsonView, archived: bool) -> spec_fn(
    Seq<ReplyView>,
) -> Result<ResponseView, StepView> {
    |replies: Seq<ReplyView>| task_edits::task_archived(replies, key, body, archived)
}

/// Whether these are the replies of the store to the archiving or restoring of a task.
pub open spec fn is_archiving(
    before: Board,
    key: Seq<char>,
    body: JsonView,
    archived: bool,
    replies: Seq<ReplyView>,
) -> bool {
    history::is_course(
        archiving(key, body, archived),
        board::board_effect(),
        board::board_tells(),
        before,
        replies,
    )
}

/// What becomes of a board with the archiving or restoring of a task.
pub open spec fn board_becomes(
    before: Board,
    key: Seq<char>,
    body: JsonView,
    archived: bool,
    replies: Seq<ReplyView>,
) -> Board {
    history::became(archiving(key, body, archived), board::board_effect(), before, replies)
}

/// The values of a task that is archived, or restored, at a time.
pub open spec fn archived_values(
    values: Seq<SqlView>,
    archived: bool,
    thread_id: Option<Seq<char>>,
    time: Seq<char>,
) -> Seq<SqlView> {
    let archived_at = if archived {
        SqlView::Text(time)
    } else {
        SqlView::Null
    };
    board::touched(
        values.update(25, archived_at),
        store::optional_param(thread_id),
        SqlView::Text(time),
    )
}

/// The statement of the archiving or restoring of a task, by the time that it notes.
pub open spec fn archive_statement(
    archived: bool,
    thread_id: Option<Seq<char>>,
    id: Seq<char>,
    version: int,
) -> spec_fn(Seq<char>) -> StatementView {
    |time: Seq<char>| task_edits::task_archive(archived, thread_id, time, id, version)
}

proof fn lemma_archive_statement(
    before: Board,
    id: Seq<char>,
    archived: bool,
    thread_id: Option<Seq<char>>,
    version: int,
    time: Seq<char>,
)
    requires
        before.is_sound(),
        before.tasks.contains_key(id),
        before.tasks[id][26] == SqlView::Integer(version),
    ensures
        ({
            let after = board::board_after(
                before,
                archive_statement(archived, thread_id, id, version)(time),
            );
            let values = archived_values(before.tasks[id], archived, thread_id, time);
            &&& after == before.with_task(id, values)
            &&& after.is_sound()
            &&& forall|key: Seq<char>| #[trigger] before.names(key, id) ==> after.names(key, id)
        }),
{
    reveal(board::board_after);
    board::lemma_other_statements();
    let w = task_edits::task_archive(archived, thread_id, time, id, version);
    assert(w.params.len() == 5);
    let values = archived_values(before.tasks[id], archived, thread_id, time);
    let old_values = before.tasks[id];
    assert(showing::is_stored_task(old_values));
    assert forall|k: int| 0 <= k < 29 implies rows::of_kind(
        #[trigger] values[k],
        showing::task_kinds()[k],
    ) is Some by {
        assert(rows::of_kind(old_values[k], showing::task_kinds()[k]) is Some);
    }
    board::lemma_with_task(before, id, values);
}

proof fn lemma_archiving_goes_on(
    replies: Seq<ReplyView>,
    key: Seq<char>,
    id: Seq<char>,
    body: JsonView,
    archived: bool,
    values: Seq<SqlView>,
    related: JsonView,
)
    requires
        showing::is_stored_task(values),
        values[0] == SqlView::Text(id),
        fields::expected_version(body) is Ok,
        values[26] == SqlView::Integer(fields::expected_version(body)->Ok_0),
        fields::text_of(body, "threadId"@, 256) is Ok,
        task_edits::current_task(replies, key, body) == board::task_in_hand(
            tasks::extended(showing::shown_task(values), "relations"@, related),
            body,
        ),
    ensures
        task_edits::task_archived(replies, key, body, archived) == if !archived
            && values[25] is Null {
            Ok::<ResponseView, StepView>(
                exchange::refusal(
                    409,
                    "TASK_NOT_ARCHIVED"@,
                    "Only archived tasks can be restored"@,
                ),
            )
        } else {
            board::change_at(
                replies,
                2,
                id,
                archive_statement(
                    archived,
                    fields::text_of(body, "threadId"@, 256)->Ok_0,
                    id,
                    fields::expected_version(body)->Ok_0,
                ),
            )
        },
{
    reveal(task_edits::task_archived);
    showing::lemma_shown_members(values, "relations"@, related);
    assert(rows::of_kind(values[25], showing::task_kinds()[25]) is Some);
}

/// Where a task is named with its version, it is archived or restored: the request is answered with
/// the task as it has become, counted one version up, and every other task, the numbering and the
/// parents stay as they are. A task that is not archived is not restored: that request is refused,
/// and nothing becomes of the board.
pub proof fn law_task_is_archived(
    before: Board,
    key: Seq<char>,
    id: Seq<char>,
    body: JsonView,
    archived: bool,
    replies: Seq<ReplyView>,
)
    requires
        before.is_sound(),
        before.names(key, id),
        before.names(id, id),
        is_archiving(before, key, body, archived, replies),
        fields::expected_version(body) is Ok,
        before.tasks[id][26] == SqlView::Integer(fields::expected_version(body)->Ok_0),
        fields::text_of(body, "threadId"@, 256) is Ok,
    ensures
        ({
            let result = task_edits::task_archived(replies, key, body, archived);
            let after = board_becomes(before, key, body, archived, replies);
            let thread_id = fields::text_of(body, "threadId"@, 256)->Ok_0;
            if !archived && before.tasks[id][25] is Null {
                &&& result == Ok::<ResponseView, StepView>(
                    exchange::refusal(
                        409,
                        "TASK_NOT_ARCHIVED"@,
                        "Only archived tasks can be restored"@,
                    ),
                )
                &&& after == before
            } else {
                &&& after == before.with_task(
                    id,
                    archived_values(
                        before.tasks[id],
                        archived,
                        thread_id,
                        board::time_at(replies, 2),
                    ),
                )
                &&& result == Ok::<ResponseView, StepView>(
                    task_edits::task_response(200, board::task_shown(after, id, replies, 5)),
                )
            }
        }),
{
    let h = archiving(key, body, archived);
    let e = board::board_effect();
    let version = fields::expected_version(body)->Ok_0;
    let thread_id = fields::text_of(body, "threadId"@, 256)->Ok_0;
    let n = replies.len() as int;
    assert forall|m: int|
        0 <= m <= n && #[trigger] task_edits::current_task(replies.take(m), key, body) is Err implies h(
        replies.take(m),
    ) == Err::<ResponseView, StepView>(
        task_edits::current_task(replies.take(m), key, body)->Err_0,
    ) by {
        reveal(task_edits::task_archived);
    }
    board::lemma_task_in_hand(h, before, replies, key, id, body);
    history::lemma_start(h, e, before, replies);
    let write = archive_statement(archived, thread_id, id, version);
    let refused = !archived && before.tasks[id][25] is Null;
    assert forall|m: int| 2 <= m <= n implies h(#[trigger] replies.take(m)) == if refused {
        Ok::<ResponseView, StepView>(
            exchange::refusal(
                409,
                "TASK_NOT_ARCHIVED"@,
                "Only archived tasks can be restored"@,
            ),
        )
    } else {
        board::change_at(replies.take(m), 2, id, write)
    } by {
        assert(task_edits::current_task(replies.take(m), key, body) == board::task_in_hand(
            board::task_shown(before, id, replies, 1),
            body,
        ));
        lemma_archiving_goes_on(
            replies.take(m),
            key,
            id,
            body,
            archived,
            before.tasks[id],
            board::related_at(replies, 1),
        );
    }
    if refused {
        assert forall|m: int| 2 <= m < n implies #[trigger] history::is_quiet(h, e, replies, m) by {
            assert(h(replies.take(m)) is Ok);
        }
        history::lemma_quiet(h, e, before, replies, 2, n);
        assert(h(replies.take(n)) is Ok);
    } else {
        assert forall|time: Seq<char>| (#[trigger] write(time)).sql
            != task_edits::INSERT_TASK@ by {
            board::lemma_other_statements();
        }
        assert forall|time: Seq<char>| {
            let after = board::board_after(before, #[trigger] write(time));
            after.is_sound() && after.names(id, id)
        } by {
            lemma_archive_statement(before, id, archived, thread_id, version, time);
        }
        board::lemma_change_is_shown(h, before, replies, 2, id, write);
        lemma_archive_statement(
            before,
            id,
            archived,
            thread_id,
            version,
            board::time_at(replies, 2),
        );
    }
}

/// Archiving a task and then restoring it gives the task back. The first request is answered with
/// the task as archived, one version up; the second with the task as it was, but for its version,
/// which has been counted up by two, and the time of its last change. To restore it once more is
/// refused, and nothing becomes of the board. The requests name no thread.
pub proof fn law_restoring_undoes_archiving(
    before: Board,
    id: Seq<char>,
    key: Seq<char>,
    body: JsonView,
    replies: Seq<ReplyView>,
    later_key: Seq<char>,
    later_body: JsonView,
    later_replies: Seq<ReplyView>,
    last_key: Seq<char>,
    last_body: JsonView,
    last_replies: Seq<ReplyView>,
)
    requires
        before.is_sound(),
        before.names(id, id),
        before.names(key, id),
        before.names(later_key, id),
        before.names(last_key, id),
        before.tasks[id][25] is Null,
        fields::expected_version(body) is Ok,
        before.tasks[id][26] == SqlView::Integer(fields::expected_version(body)->Ok_0),
        fields::expected_version(later_body) == Ok::<int, Seq<char>>(
            fields::expected_version(body)->Ok_0 + 1,
        ),
        fields::expected_version(last_body) == Ok::<int, Seq<char>>(
            fields::expected_version(body)->Ok_0 + 2,
        ),
        fields::text_of(body, "threadId"@, 256) == Ok::<Option<Seq<char>>, Seq<char>>(None),
        fields::text_of(later_body, "threadId"@, 256) == Ok::<Option<Seq<char>>, Seq<char>>(None),
        fields::text_of(last_body, "threadId"@, 256) is Ok,
        is_archiving(before, key, body, true, replies),
        is_archiving(
            board_becomes(before, key, body, true, replies),
            later_key,
            later_body,
            false,
            later_replies,
        ),
        is_archiving(
            board_becomes(
                board_becomes(before, key, body, true, replies),
                later_key,
                later_body,
                false,
                later_replies,
            ),
            last_key,
            last_body,
            false,
            last_replies,
        ),
    ensures
        ({
            let values = before.tasks[id];
            let version = fields::expected_version(body)->Ok_0;
            let time = SqlView::Text(board::time_at(replies, 2));
            let later_time = SqlView::Text(board::time_at(later_replies, 2));
            let archived = board_becomes(before, key, body, true, replies);
            let restored = board_becomes(archived, later_key, later_body, false, later_replies);
            &&& archived == before.with_task(
                id,
                values.update(25, time).update(26, SqlView::Integer(version + 1)).update(28, time),
            )
            &&& task_edits::task_archived(replies, key, body, true) == Ok::<ResponseView, StepView>(
                task_edits::task_response(200, board::task_shown(archived, id, replies, 5)),
            )
            &&& restored == before.with_task(
                id,
                values.update(26, SqlView::Integer(version + 2)).update(28, later_time),
            )
            &&& task_edits::task_archived(later_replies, later_key, later_body, false) == Ok::<
                ResponseView,
                StepView,
            >(task_edits::task_response(200, board::task_shown(restored, id, later_replies, 5)))
            &&& task_edits::task_archived(last_replies, last_key, last_body, false) == Ok::<
                ResponseView,
                StepView,
            >(
                exchange::refusal(
                    409,
                    "TASK_NOT_ARCHIVED"@,
                    "Only archived tasks can be restored"@,
                ),
            )
            &&& board_becomes(restored, last_key, last_body, false, last_replies) == restored
        }),
{
    let values = before.tasks[id];
    let version = fields::expected_version(body)->Ok_0;
    let time = board::time_at(replies, 2);
    let later_time = board::time_at(later_replies, 2);
    assert(showing::is_stored_task(values));
    law_task_is_archived(before, key, id, body, true, replies);
    lemma_archive_statement(before, id, true, None, version, time);
    let archived = board_becomes(before, key, body, true, replies);
    let first = archived_values(values, true, None, time);
    assert(first =~= values.update(25, SqlView::Text(time)).update(
        26,
        SqlView::Integer(version + 1),
    ).update(28, SqlView::Text(time)));
    law_task_is_archived(archived, later_key, id, later_body, false, later_replies);
    lemma_archive_statement(archived, id, false, None, version + 1, later_time);
    let restored = board_becomes(archived, later_key, later_body, false, later_replies);
    let second = archived_values(first, false, None, later_time);
    assert(second =~= values.update(26, SqlView::Integer(version + 2)).update(
        28,
        SqlView::Text(later_time),
    ));
    assert(restored.tasks =~= before.tasks.insert(id, second));
    law_task_is_archived(restored, last_key, id, last_body, false, last_replies);
}

/// A task that differs from another in its version and in the time of its last change alone is shown
/// alike, but for these two.
pub proof fn law_version_and_time_are_shown(values: Seq<SqlView>, version: int, time: Seq<char>)
    requires
        showing::is_stored_task(values),
    ensures
        ({
            let changed = values.update(26, SqlView::Integer(version)).update(
                28,
                SqlView::Text(time),
            );
            let members = showing::shown_task(values)->Object_0;
            &&& showing::task_keys()[20] == "version"@
            &&& showing::task_keys()[22] == "updatedAt"@
            &&& showing::shown_task(changed) == JsonView::Object(
                members.update(20, ("version"@, JsonView::Integer(version))).update(
                    22,
                    ("updatedAt"@, JsonView::Text(time)),
                ),
            )
        }),
{
    reveal(showing::shown_task);
    let changed = values.update(26, SqlView::Integer(version)).update(28, SqlView::Text(time));
    let members = showing::shown_task(values)->Object_0;
    assert(showing::shown_assignee(changed) == showing::shown_assignee(values));
    assert(showing::shown_task(changed)->Object_0 =~= members.update(
        20,
        ("version"@, JsonView::Integer(version)),
    ).update(22, ("updatedAt"@, JsonView::Text(time))));
}

} // verus!
