//! That a task is stored and shown as it was sent, under a number that is never used again.
use crate::board;
use crate::board::Board;
use crate::exchange;
use crate::exchange::{ActionView, ReplyView, ResponseView, SqlView, StatementView, StepView};
use crate::fields;
use crate::fields::ActorView;
use crate::history;
use crate::ids;
use crate::json;
use crate::json::JsonView;
use crate::projects;
use crate::rows;
use crate::showing;
use crate::store;
use crate::task_edits;
use crate::task_edits::{DetailsView, OutlineView};
use crate::tasks;
use crate::text;
use vstd::prelude::*;

verus! {

/// Whether an identifier was given with a number below the next one of its project.
pub open spec fn is_past(board: Board, project_id: Seq<char>, identifier: Seq<char>) -> bool {
    exists|n: int|
        0 <= n < board.next[project_id] && identifier == #[trigger] ids::identifier(project_id, n)
}

/// Whether every identifier was given with a number below the next one of its project.
pub open spec fn is_rising(board: Board) -> bool {
    &&& forall|p: Seq<char>| board.next.contains_key(p) ==> #[trigger] board.next[p] >= 0
    &&& forall|p: Seq<char>, s: Seq<char>|
        #[trigger] board.given.contains((p, s)) ==> board.next.contains_key(p) && is_past(
            board,
            p,
            s,
        )
}

/// The creation of a task.
pub open spec fn creation(body: JsonView, actor: ActorView) -> spec_fn(Seq<ReplyView>) -> Result<
    ResponseView,
    StepView,
> {
    |replies: Seq<ReplyView>| task_edits::task_created(replies, body, actor)
}

/// The project for which a request asks a task to be created.
pub open spec fn asked_project(body: JsonView) -> Seq<char> {
    match fields::text_of(body, "projectId"@, 64) {
        Ok(asked) => task_edits::text_or(asked, fields::DEFAULT_PROJECT_ID@),
        Err(_) => Seq::empty(),
    }
}

/// The place of the reply that tells the identifier of the new task.
pub open spec fn place_of_id(body: JsonView) -> int {
    if fields::real_of(json::field(body, "sortOrder"@)) is Some {
        1
    } else {
        2
    }
}

/// The place of the reply to the statement that adds the task.
pub open spec fn place_of_insertion(body: JsonView) -> int {
    place_of_id(body) + 2
}

/// The sort order of a task: the one that the request names, or else the one that is told.
pub open spec fn order_of(body: JsonView, replies: Seq<ReplyView>) -> Seq<char> {
    match fields::real_of(json::field(body, "sortOrder"@)) {
        Some(s) => s,
        None => replies[1]->Text_0,
    }
}

/// The statement that adds a task.
pub open spec fn insertion(
    id: Seq<char>,
    project_id: Seq<char>,
    number: int,
    head: OutlineView,
    sort_order: Seq<char>,
    actor: ActorView,
    tail: DetailsView,
    time: Seq<char>,
) -> StatementView {
    store::stated(
        task_edits::INSERT_TASK@,
        task_edits::details_params(
            task_edits::outline_params(
                id,
                ids::identifier(project_id, number),
                project_id,
                head,
                sort_order,
            ),
            actor,
            tail,
            time,
        ),
    )
}

/// The statement that counts a task of a project.
pub open spec fn count_statement(project_id: Seq<char>, time: Seq<char>) -> StatementView {
    store::stated(
        task_edits::COUNT_TASK@,
        store::params().push(store::text_param(time)).push(store::text_param(project_id)),
    )
}

/// The values of a task that is created.
pub open spec fn sent_values(
    id: Seq<char>,
    project_id: Seq<char>,
    number: int,
    head: OutlineView,
    sort_order: Seq<char>,
    actor: ActorView,
    tail: DetailsView,
    time: Seq<char>,
) -> Seq<SqlView> {
    seq![
        SqlView::Text(id),
        SqlView::Text(ids::identifier(project_id, number)),
        SqlView::Text(project_id),
        SqlView::Text(head.title),
        SqlView::Text(head.description),
        SqlView::Text(head.status),
        SqlView::Text(head.priority),
        SqlView::Text(head.labels),
        SqlView::Real(sort_order),
        store::optional_param(tail.thread_id),
        SqlView::Text(actor.kind),
        SqlView::Text(actor.id),
        SqlView::Text(actor.name),
        store::optional_param(actor.avatar_url),
        SqlView::Text(tail.assignee.kind),
        SqlView::Text(tail.assignee.id),
        SqlView::Text(tail.assignee.name),
        store::optional_param(tail.assignee.avatar_url),
        store::optional_param(tail.workflow_id),
        store::optional_param(tail.git_branch),
        store::optional_param(tail.worktree_path),
        store::optional_param(tail.worktree_branch),
        store::optional_param(tail.due_date),
        task_edits::interval_param(tail.recurrence),
        task_edits::unit_param(tail.recurrence),
        SqlView::Null,
        SqlView::Integer(1),
        SqlView::Text(time),
        SqlView::Text(time),
    ]
}

/// Where a task is worked on, as it was sent.
pub open spec fn sent_development(
    git_branch: Option<Seq<char>>,
    worktree_path: Option<Seq<char>>,
    worktree_branch: Option<Seq<char>>,
) -> JsonView {
    match worktree_path {
        Some(path) => JsonView::Object(
            seq![
                ("type"@, JsonView::Text("worktree"@)),
                ("path"@, JsonView::Text(path)),
                ("branch"@, rows::shown_text(worktree_branch)),
            ],
        ),
        None => match git_branch {
            Some(branch) => JsonView::Object(
                seq![("type"@, JsonView::Text("branch"@)), ("branch"@, JsonView::Text(branch))],
            ),
            None => JsonView::Null,
        },
    }
}

/// Who a task is assigned to, as it was sent.
pub open spec fn sent_assignee(assignee: ActorView) -> JsonView {
    JsonView::Object(
        seq![
            ("type"@, JsonView::Text(assignee.kind)),
            ("id"@, JsonView::Text(assignee.id)),
            ("name"@, JsonView::Text(assignee.name)),
            ("avatarUrl"@, rows::shown_text(assignee.avatar_url)),
        ],
    )
}

/// How a task recurs, as it was sent.
pub open spec fn sent_recurrence(recurrence: Option<(int, Seq<char>)>) -> JsonView {
    match recurrence {
        Some((interval, unit)) => JsonView::Object(
            seq![("interval"@, JsonView::Integer(interval)), ("unit"@, JsonView::Text(unit))],
        ),
        None => JsonView::Null,
    }
}

/// A new task as it is shown, but for its relations: everything as it was sent, with its first
/// version, and not archived. The labels are what their stored text reads as, which is what was sent
/// wherever [`task_edits::create_task`] stores a task.
pub open spec fn sent_task(
    id: Seq<char>,
    project_id: Seq<char>,
    number: int,
    head: OutlineView,
    sort_order: Seq<char>,
    actor: ActorView,
    tail: DetailsView,
    time: Seq<char>,
) -> JsonView {
    JsonView::Object(
        seq![
            ("id"@, JsonView::Text(id)),
            ("identifier"@, JsonView::Text(ids::identifier(project_id, number))),
            ("projectId"@, JsonView::Text(project_id)),
            ("title"@, JsonView::Text(head.title)),
            ("description"@, JsonView::Text(head.description)),
            ("status"@, JsonView::Text(head.status)),
            ("priority"@, JsonView::Text(head.priority)),
            ("labels"@, tasks::shown_labels(JsonView::Text(head.labels))),
            ("sortOrder"@, JsonView::Real(sort_order)),
            ("threadId"@, rows::shown_text(tail.thread_id)),
            ("creatorType"@, JsonView::Text(actor.kind)),
            ("creatorId"@, JsonView::Text(actor.id)),
            ("creatorName"@, JsonView::Text(actor.name)),
            ("creatorAvatarUrl"@, rows::shown_text(actor.avatar_url)),
            ("assignee"@, sent_assignee(tail.assignee)),
            ("workflowId"@, rows::shown_text(tail.workflow_id)),
            (
                "developmentContext"@,
                sent_development(tail.git_branch, tail.worktree_path, tail.worktree_branch),
            ),
            ("dueDate"@, rows::shown_text(tail.due_date)),
            ("recurrence"@, sent_recurrence(tail.recurrence)),
            ("archivedAt"@, JsonView::Null),
            ("version"@, JsonView::Integer(1)),
            ("createdAt"@, JsonView::Text(time)),
            ("updatedAt"@, JsonView::Text(time)),
        ],
    )
}

/// The values that a creation sends are those of a task, and the statement that adds it stores them
/// in their columns.
pub proof fn law_task_is_stored_as_sent(
    id: Seq<char>,
    project_id: Seq<char>,
    number: int,
    head: OutlineView,
    sort_order: Seq<char>,
    actor: ActorView,
    tail: DetailsView,
    time: Seq<char>,
)
    ensures
        ({
            let w = insertion(id, project_id, number, head, sort_order, actor, tail, time);
            let values = sent_values(id, project_id, number, head, sort_order, actor, tail, time);
            &&& w.params.len() == 26
            &&& board::inserted(w.params) == values
            &&& showing::is_stored_task(values)
        }),
{
    let w = insertion(id, project_id, number, head, sort_order, actor, tail, time);
    let values = sent_values(id, project_id, number, head, sort_order, actor, tail, time);
    assert(w.params.len() == 26);
    assert(board::inserted(w.params) =~= values);
    assert forall|k: int| 0 <= k < 29 implies rows::of_kind(
        #[trigger] values[k],
        showing::task_kinds()[k],
    ) is Some by {
    }
}

/// A new task is shown as it was sent.
pub proof fn law_task_is_shown_as_sent(
    id: Seq<char>,
    project_id: Seq<char>,
    number: int,
    head: OutlineView,
    sort_order: Seq<char>,
    actor: ActorView,
    tail: DetailsView,
    time: Seq<char>,
)
    ensures
        showing::shown_task(
            sent_values(id, project_id, number, head, sort_order, actor, tail, time),
        ) == sent_task(id, project_id, number, head, sort_order, actor, tail, time),
        tasks::task_of_row(
            showing::task_row(
                sent_values(id, project_id, number, head, sort_order, actor, tail, time),
            ),
        ) == Ok::<JsonView, Seq<char>>(
            sent_task(id, project_id, number, head, sort_order, actor, tail, time),
        ),
{
    let values = sent_values(id, project_id, number, head, sort_order, actor, tail, time);
    let sent = sent_task(id, project_id, number, head, sort_order, actor, tail, time);
    law_task_is_stored_as_sent(id, project_id, number, head, sort_order, actor, tail, time);
    showing::law_task_is_shown_as_stored(values);
    reveal(showing::shown_task);
    let shown = showing::shown_task(values);
    assert(showing::shown_assignee(values)->Object_0 =~= sent->Object_0[14].1->Object_0);
    let development = showing::shown_development(values);
    let expected = sent_development(
        tail.git_branch,
        tail.worktree_path,
        tail.worktree_branch,
    );
    assert(development is Object == (expected is Object));
    if development is Object {
        assert(development->Object_0 =~= expected->Object_0);
    }
    let recurrence = tasks::recurrence_of(
        showing::shown_cell(values, 23),
        showing::shown_cell(values, 24),
    );
    if tail.recurrence is Some {
        assert(recurrence->Object_0 =~= sent_recurrence(tail.recurrence)->Object_0);
    }
    assert(shown->Object_0 =~= sent->Object_0);
}

/// How the creation of a task fails before anything is stored: a field is invalid, the project is
/// not there, or a task recurs that is not due.
pub open spec fn creation_fails(before: Board, body: JsonView, actor: ActorView) -> Option<
    Result<ResponseView, StepView>,
> {
    match fields::text_of(body, "projectId"@, 64) {
        Err(m) => Some(Err(StepView::Fail(m))),
        Ok(_) => if !ids::project_id_form(asked_project(body)) {
            Some(Ok(exchange::refusal(400, "INVALID_FIELD"@, "Project id is invalid"@)))
        } else if !before.next.contains_key(asked_project(body)) {
            Some(Ok(projects::project_not_found()))
        } else {
            match (task_edits::outline(body), task_edits::details(body, actor)) {
                (Err(m), _) => Some(Err(StepView::Fail(m))),
                (_, Err(m)) => Some(Err(StepView::Fail(m))),
                (Ok(_), Ok(tail)) => if tail.recurrence is Some && tail.due_date is None {
                    Some(
                        Ok(
                            exchange::refusal(
                                400,
                                "INVALID_FIELD"@,
                                "A recurring issue requires dueDate"@,
                            ),
                        ),
                    )
                } else {
                    None
                },
            }
        },
    }
}

/// What becomes of a board with the insertion of a task.
pub open spec fn board_with(
    before: Board,
    id: Seq<char>,
    project_id: Seq<char>,
    number: int,
    values: Seq<SqlView>,
) -> Board {
    Board {
        next: before.next.insert(project_id, before.next[project_id] + 1),
        given: before.given.insert((project_id, ids::identifier(project_id, number))),
        tasks: before.tasks.insert(id, values),
        ..before
    }
}

proof fn lemma_insertion_of_a_board(
    before: Board,
    id: Seq<char>,
    project_id: Seq<char>,
    number: int,
    head: OutlineView,
    sort_order: Seq<char>,
    actor: ActorView,
    tail: DetailsView,
    time: Seq<char>,
)
    requires
        before.is_sound(),
        !before.tasks.contains_key(id),
        forall|other: Seq<char>|
            #![trigger before.tasks.contains_key(other)]
            before.tasks.contains_key(other) ==> before.tasks[other][1] != SqlView::Text(id),
    ensures
        ({
            let w = insertion(id, project_id, number, head, sort_order, actor, tail, time);
            let counting = count_statement(project_id, time);
            let values = sent_values(id, project_id, number, head, sort_order, actor, tail, time);
            let after = board::board_after(board::board_after(before, w), counting);
            &&& counting.sql != task_edits::INSERT_TASK@
            &&& after == board_with(before, id, project_id, number, values)
            &&& after.is_sound()
            &&& after.names(id, id)
        }),
{
    reveal(board::board_after);
    board::lemma_other_statements();
    law_task_is_stored_as_sent(id, project_id, number, head, sort_order, actor, tail, time);
    let w = insertion(id, project_id, number, head, sort_order, actor, tail, time);
    let counting = count_statement(project_id, time);
    let values = sent_values(id, project_id, number, head, sort_order, actor, tail, time);
    assert(values[0] == SqlView::Text(id));
    assert(values[1] == SqlView::Text(ids::identifier(project_id, number)));
    assert(values[2] == SqlView::Text(project_id));
    assert(board::inserted(w.params)[0] == w.params[0]);
    assert(board::inserted(w.params)[1] == w.params[1]);
    assert(board::inserted(w.params)[2] == w.params[2]);
    let middle = board::board_after(before, w);
    assert(middle == (Board {
        given: before.given.insert((project_id, ids::identifier(project_id, number))),
        ..before.with_task(id, values)
    }));
    assert(counting.params.len() == 2);
    let after = board::board_after(middle, counting);
    assert(after == board_with(before, id, project_id, number, values));
    assert forall|other: Seq<char>| #[trigger] after.tasks.contains_key(other) implies
        showing::is_stored_task(after.tasks[other]) && after.tasks[other][0] == SqlView::Text(
        other,
    ) by {
        if other != id {
            assert(before.tasks.contains_key(other));
        }
    }
    assert(after.is_named(id, id));
    assert forall|other: Seq<char>| #[trigger] after.is_named(id, other) implies other == id by {
        if other != id {
            assert(before.tasks.contains_key(other));
        }
    }
}

proof fn lemma_decimals_differ(a: nat, b: nat)
    requires
        text::decimal(a) == text::decimal(b),
    ensures
        a == b,
    decreases a,
{
    assert(text::decimal(a).last() == text::digit(a % 10));
    assert(text::decimal(b).last() == text::digit(b % 10));
    lemma_decimal_is_not_empty(a / 10);
    lemma_decimal_is_not_empty(b / 10);
    if a >= 10 && b >= 10 {
        assert(text::decimal(a).drop_last() =~= text::decimal(a / 10));
        assert(text::decimal(b).drop_last() =~= text::decimal(b / 10));
        lemma_decimals_differ(a / 10, b / 10);
    }
}

proof fn lemma_decimal_is_not_empty(n: nat)
    ensures
        text::decimal(n).len() > 0,
{
}

proof fn lemma_identifiers_differ(project_id: Seq<char>, a: int, b: int)
    requires
        0 <= a,
        0 <= b,
        ids::identifier(project_id, a) == ids::identifier(project_id, b),
    ensures
        a == b,
{
    let head = ids::prefix(project_id) + "-"@;
    let x = ids::identifier(project_id, a);
    let y = ids::identifier(project_id, b);
    assert(x.skip(head.len() as int) =~= text::decimal(a as nat));
    assert(y.skip(head.len() as int) =~= text::decimal(b as nat));
    lemma_decimals_differ(a as nat, b as nat);
}


proof fn lemma_numbers_rise(before: Board, project_id: Seq<char>, id: Seq<char>, values: Seq<SqlView>)
    requires
        is_rising(before),
        before.next.contains_key(project_id),
    ensures
        ({
            let number = before.next[project_id];
            &&& !before.given.contains((project_id, ids::identifier(project_id, number)))
            &&& is_rising(board_with(before, id, project_id, number, values))
        }),
{
    let number = before.next[project_id];
    let identifier = ids::identifier(project_id, number);
    let after = board_with(before, id, project_id, number, values);
    if before.given.contains((project_id, identifier)) {
        assert(is_past(before, project_id, identifier));
        let m = choose|m: int|
            0 <= m < number && identifier == #[trigger] ids::identifier(project_id, m);
        lemma_identifiers_differ(project_id, number, m);
    }
    assert forall|p: Seq<char>| after.next.contains_key(p) implies #[trigger] after.next[p]
        >= 0 by {
        assert(before.next.contains_key(p) ==> before.next[p] >= 0);
    }
    assert forall|p: Seq<char>, s: Seq<char>| #[trigger] after.given.contains((p, s)) implies
        after.next.contains_key(p) && is_past(after, p, s) by {
        if before.given.contains((p, s)) {
            assert(is_past(before, p, s));
            let m = choose|m: int|
                0 <= m < before.next[p] && s == #[trigger] ids::identifier(p, m);
            assert(0 <= m < after.next[p] && s == ids::identifier(p, m));
        } else {
            assert(before.next[p] >= 0);
            assert(0 <= number < after.next[p] && s == ids::identifier(p, number));
        }
    }
}

proof fn lemma_storing(
    handler: spec_fn(Seq<ReplyView>) -> Result<ResponseView, StepView>,
    before: Board,
    replies: Seq<ReplyView>,
    at: int,
    project_id: Seq<char>,
    number: int,
    head: OutlineView,
    sort_order: Seq<char>,
    actor: ActorView,
    tail: DetailsView,
)
    requires
        history::is_course(handler, board::board_effect(), board::board_tells(), before, replies),
        0 <= at <= replies.len(),
        history::became(handler, board::board_effect(), before, replies.take(at)) == before,
        before.is_sound(),
        forall|n: int|
            at <= n <= replies.len() ==> handler(#[trigger] replies.take(n))
                == task_edits::task_stored(
                replies.take(n),
                at,
                project_id,
                number,
                head,
                sort_order,
                actor,
                tail,
            ),
    ensures
        replies.len() > at + 2,
        replies[at] is Text,
        !before.tasks.contains_key(replies[at]->Text_0),
        ({
            let id = replies[at]->Text_0;
            let time = board::time_at(replies, at + 1);
            let values = sent_values(id, project_id, number, head, sort_order, actor, tail, time);
            let after = history::became(handler, board::board_effect(), before, replies);
            if replies[at + 2] is Changed {
                &&& after == board_with(before, id, project_id, number, values)
                &&& after.is_sound()
                &&& handler(replies) == Ok::<ResponseView, StepView>(
                    task_edits::task_response(201, board::task_shown(after, id, replies, at + 5)),
                )
            } else {
                &&& replies[at + 2] is Failed
                &&& after == before
                &&& handler(replies) == Err::<ResponseView, StepView>(
                    StepView::Fail(replies[at + 2]->Failed_0),
                )
            }
        }),
{
    let e = board::board_effect();
    let t = board::board_tells();
    let n = replies.len() as int;
    history::lemma_start(handler, e, before, replies);
    assert(handler(replies.take(at)) is Err);
    history::lemma_told(handler, e, t, before, replies, at);
    board::lemma_tells_new_id(before, replies[at]);
    let id = replies[at]->Text_0;
    history::lemma_step(handler, e, before, replies, at);
    assert(replies.take(at + 1)[at] == replies[at]);
    assert(handler(replies.take(at + 1)) == Err::<ResponseView, StepView>(
        StepView::Ask(board::time_query()),
    ));
    history::lemma_told(handler, e, t, before, replies, at + 1);
    board::lemma_tells_time(before, replies[at + 1]);
    history::lemma_step(handler, e, before, replies, at + 1);
    let time = board::time_at(replies, at + 1);
    assert forall|m: int| at + 2 <= m <= n implies store::now_at(
        #[trigger] replies.take(m),
        at + 1,
    ) == Ok::<Seq<char>, StepView>(time) && store::id_at(replies.take(m), at) == Ok::<
        Seq<char>,
        StepView,
    >(id) by {
        assert(replies.take(m)[at] == replies[at]);
        assert(replies.take(m)[at + 1] == replies[at + 1]);
        board::lemma_time_is_read(replies.take(m), at + 1);
    }
    let w = insertion(id, project_id, number, head, sort_order, actor, tail, time);
    let counting = count_statement(project_id, time);
    assert(store::now_at(replies.take(at + 2), at + 1) is Ok);
    assert(handler(replies.take(at + 2)) == Err::<ResponseView, StepView>(
        StepView::Ask(ActionView::Write(w)),
    ));
    history::lemma_told(handler, e, t, before, replies, at + 2);
    board::lemma_tells_insertion(before, w, replies[at + 2]);
    history::lemma_step(handler, e, before, replies, at + 2);
    lemma_insertion_of_a_board(
        before,
        id,
        project_id,
        number,
        head,
        sort_order,
        actor,
        tail,
        time,
    );
    if replies[at + 2] is Changed {
        let middle = board::board_after(before, w);
        let after = board::board_after(middle, counting);
        assert(store::now_at(replies.take(at + 3), at + 1) is Ok);
        assert(replies.take(at + 3)[at + 2] == replies[at + 2]);
        assert(handler(replies.take(at + 3)) == Err::<ResponseView, StepView>(
            StepView::Ask(ActionView::Write(counting)),
        ));
        history::lemma_told(handler, e, t, before, replies, at + 3);
        board::lemma_tells_write(middle, counting, replies[at + 3]);
        history::lemma_step(handler, e, before, replies, at + 3);
        assert(history::became(handler, e, before, replies.take(at + 4)) == after);
        assert forall|m: int| at + 4 <= m <= n implies handler(#[trigger] replies.take(m))
            == created_at(replies.take(m), at + 4, id) by {
            assert(store::now_at(replies.take(m), at + 1) is Ok);
            assert(replies.take(m)[at + 2] == replies[at + 2]);
            assert(replies.take(m)[at + 3] == replies[at + 3]);
        }
        lemma_created_is_shown(handler, before, replies, at + 4, id);
    } else {
        assert forall|m: int| at + 3 <= m <= n implies handler(#[trigger] replies.take(m)) == Err::<
            ResponseView,
            StepView,
        >(StepView::Fail(replies[at + 2]->Failed_0)) by {
            assert(store::now_at(replies.take(m), at + 1) is Ok);
            assert(replies.take(m)[at + 2] == replies[at + 2]);
        }
        assert forall|m: int| at + 3 <= m < n implies #[trigger] history::is_quiet(
            handler,
            e,
            replies,
            m,
        ) by {
            assert(handler(replies.take(m)) == Err::<ResponseView, StepView>(
                StepView::Fail(replies[at + 2]->Failed_0),
            ));
        }
        history::lemma_quiet(handler, e, before, replies, at + 3, n);
        assert(handler(replies.take(n)) is Err);
    }
}

/// What is left of a creation once the task is stored.
pub open spec fn created_at(replies: Seq<ReplyView>, at: int, id: Seq<char>) -> Result<
    ResponseView,
    StepView,
> {
    match tasks::task_at(replies, at, id) {
        Err(s) => Err(s),
        Ok((None, _)) => Err(StepView::Fail("created task"@)),
        Ok((Some(task), _)) => Ok(task_edits::task_response(201, task)),
    }
}

proof fn lemma_created_is_shown(
    handler: spec_fn(Seq<ReplyView>) -> Result<ResponseView, StepView>,
    before: Board,
    replies: Seq<ReplyView>,
    at: int,
    id: Seq<char>,
)
    requires
        history::is_course(handler, board::board_effect(), board::board_tells(), before, replies),
        0 <= at <= replies.len(),
        ({
            let board = history::became(handler, board::board_effect(), before, replies.take(at));
            board.is_sound() && board.names(id, id)
        }),
        forall|n: int|
            at <= n <= replies.len() ==> handler(#[trigger] replies.take(n)) == created_at(
                replies.take(n),
                at,
                id,
            ),
    ensures
        ({
            let board = history::became(handler, board::board_effect(), before, replies.take(at));
            &&& history::became(handler, board::board_effect(), before, replies) == board
            &&& handler(replies) == Ok::<ResponseView, StepView>(
                task_edits::task_response(201, board::task_shown(board, id, replies, at + 1)),
            )
        }),
{
    let e = board::board_effect();
    let n = replies.len() as int;
    history::lemma_start(handler, e, before, replies);
    assert(handler(replies.take(at)) == created_at(replies.take(at), at, id));
    if at + 1 <= n {
        assert(handler(replies.take(at + 1)) == created_at(replies.take(at + 1), at, id));
    }
    board::lemma_task_is_read(handler, before, replies, at, id, id);
    assert forall|m: int| at + 2 <= m < n implies #[trigger] history::is_quiet(
        handler,
        e,
        replies,
        m,
    ) by {
        assert(tasks::task_at(replies.take(m), at, id) is Ok);
        assert(handler(replies.take(m)) is Ok);
    }
    history::lemma_quiet(handler, e, before, replies, at + 2, n);
    assert(tasks::task_at(replies.take(n), at, id) is Ok);
}

/// How a creation stands once the number of the next task is read.
pub open spec fn creation_is_at(
    replies: Seq<ReplyView>,
    before: Board,
    body: JsonView,
    actor: ActorView,
) -> bool {
    let result = task_edits::task_created(replies, body, actor);
    let project_id = asked_project(body);
    let at = place_of_id(body);
    let head = task_edits::outline(body);
    if !before.next.contains_key(project_id) || head is Err {
        &&& creation_fails(before, body, actor) is Some
        &&& result == creation_fails(before, body, actor)->0
    } else if replies.len() < at {
        result == Err::<ResponseView, StepView>(
            StepView::Ask(
                ActionView::NextSortOrder(
                    task_edits::greatest_order(project_id, head->Ok_0.status),
                ),
            ),
        )
    } else if at == 2 && !(replies[1] is Text) {
        true
    } else {
        match creation_fails(before, body, actor) {
            Some(failed) => result == failed,
            None => result == task_edits::task_stored(
                replies,
                at,
                project_id,
                before.next[project_id],
                head->Ok_0,
                order_of(body, replies),
                actor,
                task_edits::details(body, actor)->Ok_0,
            ),
        }
    }
}

proof fn lemma_creation_goes_on(
    replies: Seq<ReplyView>,
    before: Board,
    body: JsonView,
    actor: ActorView,
)
    requires
        fields::text_of(body, "projectId"@, 64) is Ok,
        ids::project_id_form(asked_project(body)),
        ({
            let found = exchange::rows_at(replies, 0, board::number_query(asked_project(body)));
            &&& found is Ok
            &&& store::single_integer(found->Ok_0) == Ok::<Option<int>, Seq<char>>(
                if before.next.contains_key(asked_project(body)) {
                    Some(before.next[asked_project(body)])
                } else {
                    None
                },
            )
        }),
    ensures
        creation_is_at(replies, before, body, actor),
{
    reveal(task_edits::task_created);
    let found = exchange::rows_at(replies, 0, board::number_query(asked_project(body)));
    assert(replies.len() >= 1);
}

/// A task that is created gets the identifier that the next number of its project makes, which no
/// task of the project was given before, and the next number is one more. It is stored as it was
/// sent, in its first version, and every other task stays as it is; the request is answered with the
/// task as it was sent. A creation that fails, before anything is stored or because the store refuses
/// the task, leaves the board as it was. So a number is never used again, whatever has been deleted.
pub proof fn law_task_is_created_as_sent(
    before: Board,
    body: JsonView,
    actor: ActorView,
    replies: Seq<ReplyView>,
)
    requires
        before.is_sound(),
        is_rising(before),
        history::is_course(
            creation(body, actor),
            board::board_effect(),
            board::board_tells(),
            before,
            replies,
        ),
    ensures
        ({
            let result = task_edits::task_created(replies, body, actor);
            let after = history::became(
                creation(body, actor),
                board::board_effect(),
                before,
                replies,
            );
            let at = place_of_id(body);
            let project_id = asked_project(body);
            let number = before.next[project_id];
            let head = task_edits::outline(body)->Ok_0;
            let tail = task_edits::details(body, actor)->Ok_0;
            let order = order_of(body, replies);
            let id = replies[at]->Text_0;
            let time = board::time_at(replies, at + 1);
            match creation_fails(before, body, actor) {
                Some(failed) => result == failed && after == before,
                None => {
                    &&& replies.len() > place_of_insertion(body)
                    &&& if replies[place_of_insertion(body)] is Changed {
                        &&& !before.given.contains(
                            (project_id, ids::identifier(project_id, number)),
                        )
                        &&& !before.tasks.contains_key(id)
                        &&& after == board_with(
                            before,
                            id,
                            project_id,
                            number,
                            sent_values(id, project_id, number, head, order, actor, tail, time),
                        )
                        &&& after.is_sound()
                        &&& is_rising(after)
                        &&& result == Ok::<ResponseView, StepView>(
                            task_edits::task_response(
                                201,
                                tasks::extended(
                                    sent_task(
                                        id,
                                        project_id,
                                        number,
                                        head,
                                        order,
                                        actor,
                                        tail,
                                        time,
                                    ),
                                    "relations"@,
                                    board::related_at(replies, at + 5),
                                ),
                            ),
                        )
                    } else {
                        &&& replies[place_of_insertion(body)] is Failed
                        &&& after == before
                        &&& result == Err::<ResponseView, StepView>(
                            StepView::Fail(replies[place_of_insertion(body)]->Failed_0),
                        )
                    }
                },
            }
        }),
{
    let h = creation(body, actor);
    let e = board::board_effect();
    let t = board::board_tells();
    let n = replies.len() as int;
    let project_id = asked_project(body);
    let at = place_of_id(body);
    history::lemma_start(h, e, before, replies);
    let failed = creation_fails(before, body, actor);
    if fields::text_of(body, "projectId"@, 64) is Err || !ids::project_id_form(project_id) {
        assert forall|m: int| 0 <= m <= n implies h(#[trigger] replies.take(m)) == failed->0 by {
            reveal(task_edits::task_created);
        }
        board::lemma_failure_is_quiet(h, before, replies, 0, failed->0);
    } else {
        assert(h(replies.take(0)) == Err::<ResponseView, StepView>(
            StepView::Ask(ActionView::Read(seq![board::number_query(project_id)])),
        )) by {
            reveal(task_edits::task_created);
        }
        history::lemma_told(h, e, t, before, replies, 0);
        history::lemma_step(h, e, before, replies, 0);
        assert forall|m: int| 1 <= m <= n implies creation_is_at(
            #[trigger] replies.take(m),
            before,
            body,
            actor,
        ) by {
            assert(replies.take(m)[0] == replies[0]);
            board::lemma_tells_number(before, project_id, replies.take(m), 0);
            lemma_creation_goes_on(replies.take(m), before, body, actor);
        }
        if !before.next.contains_key(project_id) || task_edits::outline(body) is Err {
            assert forall|m: int| 1 <= m <= n implies h(#[trigger] replies.take(m))
                == failed->0 by {
                assert(creation_is_at(replies.take(m), before, body, actor));
            }
            assert(creation_is_at(replies.take(1), before, body, actor));
            board::lemma_failure_is_quiet(h, before, replies, 1, failed->0);
        } else {
            if at == 2 {
                assert(creation_is_at(replies.take(1), before, body, actor));
                history::lemma_told(h, e, t, before, replies, 1);
                board::lemma_tells_order(
                    before,
                    task_edits::greatest_order(project_id, task_edits::outline(body)->Ok_0.status),
                    replies[1],
                );
                history::lemma_step(h, e, before, replies, 1);
            }
            assert(history::became(h, e, before, replies.take(at)) == before);
            lemma_creation_ends(before, body, actor, replies);
        }
    }
}

proof fn lemma_creation_ends(
    before: Board,
    body: JsonView,
    actor: ActorView,
    replies: Seq<ReplyView>,
)
    requires
        before.is_sound(),
        is_rising(before),
        history::is_course(
            creation(body, actor),
            board::board_effect(),
            board::board_tells(),
            before,
            replies,
        ),
        fields::text_of(body, "projectId"@, 64) is Ok,
        ids::project_id_form(asked_project(body)),
        before.next.contains_key(asked_project(body)),
        task_edits::outline(body) is Ok,
        place_of_id(body) <= replies.len(),
        place_of_id(body) == 2 ==> replies[1] is Text,
        history::became(
            creation(body, actor),
            board::board_effect(),
            before,
            replies.take(place_of_id(body)),
        ) == before,
        forall|m: int|
            1 <= m <= replies.len() ==> creation_is_at(
                #[trigger] replies.take(m),
                before,
                body,
                actor,
            ),
    ensures
        ({
            let result = task_edits::task_created(replies, body, actor);
            let after = history::became(
                creation(body, actor),
                board::board_effect(),
                before,
                replies,
            );
            let at = place_of_id(body);
            let project_id = asked_project(body);
            let number = before.next[project_id];
            let head = task_edits::outline(body)->Ok_0;
            let tail = task_edits::details(body, actor)->Ok_0;
            let order = order_of(body, replies);
            let id = replies[at]->Text_0;
            let time = board::time_at(replies, at + 1);
            match creation_fails(before, body, actor) {
                Some(failed) => result == failed && after == before,
                None => {
                    &&& replies.len() > at + 2
                    &&& if replies[at + 2] is Changed {
                        &&& !before.given.contains(
                            (project_id, ids::identifier(project_id, number)),
                        )
                        &&& !before.tasks.contains_key(id)
                        &&& after == board_with(
                            before,
                            id,
                            project_id,
                            number,
                            sent_values(id, project_id, number, head, order, actor, tail, time),
                        )
                        &&& after.is_sound()
                        &&& is_rising(after)
                        &&& result == Ok::<ResponseView, StepView>(
                            task_edits::task_response(
                                201,
                                tasks::extended(
                                    sent_task(
                                        id,
                                        project_id,
                                        number,
                                        head,
                                        order,
                                        actor,
                                        tail,
                                        time,
                                    ),
                                    "relations"@,
                                    board::related_at(replies, at + 5),
                                ),
                            ),
                        )
                    } else {
                        &&& replies[at + 2] is Failed
                        &&& after == before
                        &&& result == Err::<ResponseView, StepView>(
                            StepView::Fail(replies[at + 2]->Failed_0),
                        )
                    }
                },
            }
        }),
{
    let h = creation(body, actor);
    let n = replies.len() as int;
    let project_id = asked_project(body);
    let at = place_of_id(body);
    let failed = creation_fails(before, body, actor);
    let number = before.next[project_id];
    let head = task_edits::outline(body)->Ok_0;
    let order = order_of(body, replies);
    if failed is Some {
        assert forall|m: int| at <= m <= n implies h(#[trigger] replies.take(m)) == failed->0 by {
            assert(creation_is_at(replies.take(m), before, body, actor));
            assert(at == 2 ==> replies.take(m)[1] == replies[1]);
        }
        board::lemma_failure_is_quiet(h, before, replies, at, failed->0);
    } else {
        let tail = task_edits::details(body, actor)->Ok_0;
        assert forall|m: int| at <= m <= n implies h(#[trigger] replies.take(m))
            == task_edits::task_stored(
            replies.take(m),
            at,
            project_id,
            number,
            head,
            order,
            actor,
            tail,
        ) by {
            assert(creation_is_at(replies.take(m), before, body, actor));
            assert(at == 2 ==> replies.take(m)[1] == replies[1]);
        }
        lemma_storing(h, before, replies, at, project_id, number, head, order, actor, tail);
        let id = replies[at]->Text_0;
        let time = board::time_at(replies, at + 1);
        law_task_is_shown_as_sent(id, project_id, number, head, order, actor, tail, time);
        lemma_numbers_rise(
            before,
            project_id,
            id,
            sent_values(id, project_id, number, head, order, actor, tail, time),
        );
    }
}

/// Whatever the replies are, a creation changes nothing on the board unless the reply to the
/// statement that adds the task tells that it was carried out.
pub proof fn law_creation_without_insertion_changes_nothing(
    before: Board,
    replies: Seq<ReplyView>,
    body: JsonView,
    actor: ActorView,
)
    requires
        place_of_insertion(body) >= replies.len() || !(replies[place_of_insertion(
            body,
        )] is Changed),
    ensures
        history::became(creation(body, actor), board::board_effect(), before, replies) == before,
{
    let h = creation(body, actor);
    let e = board::board_effect();
    let n = replies.len() as int;
    assert forall|i: int| 0 <= i < n implies #[trigger] history::is_quiet(h, e, replies, i) by {
        reveal(task_edits::task_created);
        let at = place_of_insertion(body);
        if i > at {
            assert(replies.take(i)[at] == replies[at]);
        }
    }
    history::lemma_start(h, e, before, replies);
    history::lemma_quiet(h, e, before, replies, 0, n);
}

/// Whatever the replies are, the deletion of a task leaves the numbers of the projects and the
/// identifiers that were given as they are.
pub proof fn law_deletion_frees_no_number(
    before: Board,
    replies: Seq<ReplyView>,
    key: Seq<char>,
    body: JsonView,
)
    ensures
        ({
            let after = history::became(
                |r: Seq<ReplyView>| task_edits::task_deleted(r, key, body),
                board::board_effect(),
                before,
                replies,
            );
            after.next == before.next && after.given == before.given
        }),
{
    let h = |r: Seq<ReplyView>| task_edits::task_deleted(r, key, body);
    let e = board::board_effect();
    let n = replies.len() as int;
    let part = |b: Board| (b.next, b.given);
    assert forall|i: int, b: Board|
        #![trigger history::done_by(h, replies, i), part(b)]
        0 <= i < n && history::done_by(h, replies, i) is Some implies part(
        e(b, history::done_by(h, replies, i)->0),
    ) == part(b) by {
        reveal(task_edits::task_deleted);
        reveal(board::board_after);
    }
    history::lemma_start(h, e, before, replies);
    history::lemma_kept(h, e, part, before, replies, n);
}

} // verus!
