//! That a task is shown with the tasks that it is related to.
//!
//! The relations of a store are the rows of `task_relations`: a type, a source and a target each.
//! The model reads the five queries for the relatives of a task as their texts say it.
use crate::board;
use crate::board::Board;
use crate::exchange::{ActionView, ReplyView, ResponseView, SqlView, StatementView, StepView};
use crate::fields;
use crate::history;
use crate::json;
use crate::json::JsonView;
use crate::lineage;
use crate::parents;
use crate::relations;
use crate::relations::PairView;
use crate::rows;
use crate::showing;
use crate::store;
use crate::tasks;
use crate::text;
use vstd::prelude::*;

verus! {

/// A stored task as another that is related to it shows it.
pub open spec fn shown_summary(values: Seq<SqlView>) -> JsonView {
    JsonView::Object(
        seq![
            ("id"@, showing::shown_cell(values, 0)),
            ("identifier"@, showing::shown_cell(values, 1)),
            ("projectId"@, showing::shown_cell(values, 2)),
            ("title"@, showing::shown_cell(values, 3)),
            ("status"@, showing::shown_cell(values, 5)),
            ("priority"@, showing::shown_cell(values, 6)),
            ("threadId"@, showing::shown_cell(values, 9)),
            ("assignee"@, showing::shown_assignee(values)),
            ("archivedAt"@, showing::shown_cell(values, 25)),
        ],
    )
}

/// What is shown of a related task are the values of its columns.
pub proof fn law_summary_is_shown_as_stored(values: Seq<SqlView>)
    requires
        showing::is_stored_task(values),
    ensures
        tasks::summary_of_row(showing::task_row(values)) == Ok::<JsonView, Seq<char>>(
            shown_summary(values),
        ),
        values[0] is Text ==> json::text_field(shown_summary(values), "id"@) == Some(
            values[0]->Text_0,
        ),
{
    let row = showing::task_row(values);
    showing::lemma_plan(values, tasks::summary_plan(), seq![0int, 1, 2, 3, 5, 6, 9]);
    let assignee_at = Seq::new(4, |i: int| i + 14);
    showing::lemma_plan(values, tasks::assignee_plan(), assignee_at);
    showing::lemma_column(values, 25);
    assert(rows::row_object(row, tasks::assignee_plan())->Ok_0->Object_0
        =~= showing::shown_assignee(values)->Object_0);
    let shown = tasks::summary_of_row(row);
    assert(shown is Ok);
    assert(shown->Ok_0->Object_0 =~= shown_summary(values)->Object_0);
    json::lemma_lookup(shown_summary(values)->Object_0, "id"@, 0);
}

/// The rows of `task_relations`.
pub type Links = Set<(Seq<char>, Seq<char>, Seq<char>)>;

/// The tasks of a store and the relations between them.
pub struct World {
    pub board: Board,
    pub links: Links,
}

/// Whether a table holds the rows of the tasks that `pick` picks, and of no other.
pub open spec fn holds(board: Board, table: Seq<Seq<(Seq<char>, SqlView)>>, pick: spec_fn(
    Seq<char>,
) -> bool) -> bool {
    &&& forall|i: int| 0 <= i < table.len() ==> #[trigger] is_row_of(board, table[i], pick)
    &&& forall|x: Seq<char>|
        #![trigger board.tasks.contains_key(x)]
        board.tasks.contains_key(x) && pick(x) ==> table.contains(showing::task_row(board.tasks[x]))
}

/// Whether a row is that of a task that `pick` picks.
pub open spec fn is_row_of(board: Board, row: Seq<(Seq<char>, SqlView)>, pick: spec_fn(
    Seq<char>,
) -> bool) -> bool {
    exists|x: Seq<char>| #[trigger]
        board.tasks.contains_key(x) && pick(x) && row == showing::task_row(board.tasks[x])
}

/// The task that is the parent of another.
pub open spec fn parent_of(links: Links, id: Seq<char>) -> spec_fn(Seq<char>) -> bool {
    |x: Seq<char>| links.contains(("parent"@, x, id))
}

/// The tasks that have a task as their parent.
pub open spec fn children_of(links: Links, id: Seq<char>) -> spec_fn(Seq<char>) -> bool {
    |x: Seq<char>| links.contains(("parent"@, id, x))
}

/// The tasks that block a task.
pub open spec fn blockers_of(links: Links, id: Seq<char>) -> spec_fn(Seq<char>) -> bool {
    |x: Seq<char>| links.contains(("blocks"@, x, id))
}

/// The tasks that a task blocks.
pub open spec fn blocked_by(links: Links, id: Seq<char>) -> spec_fn(Seq<char>) -> bool {
    |x: Seq<char>| links.contains(("blocks"@, id, x))
}

/// The tasks that share a row of the type `related` with a task.
pub open spec fn relatives_of(links: Links, id: Seq<char>) -> spec_fn(Seq<char>) -> bool {
    |x: Seq<char>| links.contains(("related"@, id, x)) || links.contains(("related"@, x, id))
}

/// Whether a table is what a query for relatives finds, by the text of the query.
pub open spec fn answers(
    world: World,
    query: StatementView,
    table: Seq<Seq<(Seq<char>, SqlView)>>,
) -> bool {
    let id = query.params[0]->Text_0;
    &&& query.sql == "
        SELECT tasks.*
        FROM task_relations
        JOIN tasks ON tasks.id = task_relations.source_task_id
        WHERE task_relations.relation_type = 'parent'
          AND task_relations.target_task_id = ?1
        "@ ==> holds(world.board, table, parent_of(world.links, id))
    &&& query.sql == "
        SELECT tasks.*
        FROM task_relations
        JOIN tasks ON tasks.id = task_relations.target_task_id
        WHERE task_relations.relation_type = 'parent'
          AND task_relations.source_task_id = ?1
        ORDER BY tasks.sort_order, tasks.created_at, tasks.id
        "@ ==> holds(world.board, table, children_of(world.links, id))
    &&& query.sql == "
        SELECT tasks.*
        FROM task_relations
        JOIN tasks ON tasks.id = task_relations.source_task_id
        WHERE task_relations.relation_type = 'blocks'
          AND task_relations.target_task_id = ?1
        ORDER BY tasks.sort_order, tasks.created_at, tasks.id
        "@ ==> holds(world.board, table, blockers_of(world.links, id))
    &&& query.sql == "
        SELECT tasks.*
        FROM task_relations
        JOIN tasks ON tasks.id = task_relations.target_task_id
        WHERE task_relations.relation_type = 'blocks'
          AND task_relations.source_task_id = ?1
        ORDER BY tasks.sort_order, tasks.created_at, tasks.id
        "@ ==> holds(world.board, table, blocked_by(world.links, id))
    &&& query.sql == "
        SELECT tasks.*
        FROM task_relations
        JOIN tasks ON tasks.id = CASE
          WHEN task_relations.source_task_id = ?1 THEN task_relations.target_task_id
          ELSE task_relations.source_task_id
        END
        WHERE task_relations.relation_type = 'related'
          AND (task_relations.source_task_id = ?1 OR task_relations.target_task_id = ?1)
        ORDER BY tasks.sort_order, tasks.created_at, tasks.id
        "@ ==> holds(world.board, table, relatives_of(world.links, id))
}

/// Whether tables are what queries for relatives find, one each.
pub open spec fn all_answer(
    world: World,
    queries: Seq<StatementView>,
    tables: Seq<Seq<Seq<(Seq<char>, SqlView)>>>,
) -> bool {
    &&& tables.len() == queries.len()
    &&& forall|k: int| 0 <= k < queries.len() ==> #[trigger] answers(world, queries[k], tables[k])
}

/// Whether a list shows the tasks that `pick` picks, and no other.
pub open spec fn lists(board: Board, shown: Seq<JsonView>, pick: spec_fn(Seq<char>) -> bool) -> bool {
    &&& forall|i: int| 0 <= i < shown.len() ==> #[trigger] is_summary_of(board, shown[i], pick)
    &&& forall|x: Seq<char>|
        #![trigger board.tasks.contains_key(x)]
        board.tasks.contains_key(x) && pick(x) ==> shown.contains(shown_summary(board.tasks[x]))
}

/// Whether a value shows a task that `pick` picks.
pub open spec fn is_summary_of(board: Board, value: JsonView, pick: spec_fn(
    Seq<char>,
) -> bool) -> bool {
    exists|x: Seq<char>| #[trigger]
        board.tasks.contains_key(x) && pick(x) && value == shown_summary(board.tasks[x])
}

/// The list under a key of the relations of a task.
pub open spec fn listed(relations: JsonView, key: Seq<char>) -> Seq<JsonView> {
    json::field(relations, key)->0->Array_0
}

/// Whether relations are those of a task: each member shows the tasks that stand in this relation to
/// it, and no other.
pub open spec fn are_relations_of(world: World, id: Seq<char>, relations: JsonView) -> bool {
    &&& match json::field(relations, "parent"@) {
        Some(JsonView::Null) => forall|x: Seq<char>| #[trigger]
            world.board.tasks.contains_key(x) ==> !world.links.contains(("parent"@, x, id)),
        Some(parent) => is_summary_of(world.board, parent, parent_of(world.links, id)),
        None => false,
    }
    &&& json::field(relations, "subIssues"@) == Some(
        JsonView::Array(listed(relations, "subIssues"@)),
    )
    &&& lists(world.board, listed(relations, "subIssues"@), children_of(world.links, id))
    &&& json::field(relations, "blockedBy"@) == Some(
        JsonView::Array(listed(relations, "blockedBy"@)),
    )
    &&& lists(world.board, listed(relations, "blockedBy"@), blockers_of(world.links, id))
    &&& json::field(relations, "blocks"@) == Some(JsonView::Array(listed(relations, "blocks"@)))
    &&& lists(world.board, listed(relations, "blocks"@), blocked_by(world.links, id))
    &&& json::field(relations, "related"@) == Some(JsonView::Array(listed(relations, "related"@)))
    &&& lists(world.board, listed(relations, "related"@), relatives_of(world.links, id))
}

proof fn lemma_list_is_shown(
    board: Board,
    table: Seq<Seq<(Seq<char>, SqlView)>>,
    pick: spec_fn(Seq<char>) -> bool,
)
    requires
        board.is_sound(),
        holds(board, table, pick),
    ensures
        tasks::many_related(table) is Ok,
        tasks::many_related(table)->Ok_0 is Array,
        tasks::many_related(table)->Ok_0->Array_0.len() == table.len(),
        lists(board, tasks::many_related(table)->Ok_0->Array_0, pick),
{
    let read = |row: Seq<(Seq<char>, SqlView)>| tasks::summary_of_row(row);
    let values = Seq::new(table.len(), |i: int| tasks::summary_of_row(table[i])->Ok_0);
    assert forall|i: int| 0 <= i < table.len() implies read(#[trigger] table[i]) == Ok::<
        JsonView,
        Seq<char>,
    >(values[i]) && is_summary_of(board, values[i], pick) by {
        assert(is_row_of(board, table[i], pick));
        let x = choose|x: Seq<char>| #[trigger]
            board.tasks.contains_key(x) && pick(x) && table[i] == showing::task_row(
                board.tasks[x],
            );
        law_summary_is_shown_as_stored(board.tasks[x]);
        assert(board.tasks.contains_key(x) && values[i] == shown_summary(board.tasks[x]));
    }
    rows::lemma_each_row_values(table, read, values);
    assert forall|i: int| 0 <= i < values.len() implies #[trigger] is_summary_of(
        board,
        values[i],
        pick,
    ) by {
        assert(read(table[i]) is Ok);
    }
    assert forall|x: Seq<char>|
        #![trigger board.tasks.contains_key(x)]
        board.tasks.contains_key(x) && pick(x) implies values.contains(
        shown_summary(board.tasks[x]),
    ) by {
        let i = choose|i: int| 0 <= i < table.len() && table[i] == showing::task_row(board.tasks[x]);
        law_summary_is_shown_as_stored(board.tasks[x]);
        assert(values[i] == shown_summary(board.tasks[x]));
    }
}

proof fn lemma_members(
    parent: JsonView,
    sub_issues: JsonView,
    blocked: JsonView,
    blocks: JsonView,
    related: JsonView,
)
    ensures
        ({
            let members = JsonView::Object(
                json::members().push(("parent"@, parent)).push(("subIssues"@, sub_issues)).push(
                    ("blockedBy"@, blocked),
                ).push(("blocks"@, blocks)).push(("related"@, related)),
            );
            &&& json::field(members, "parent"@) == Some(parent)
            &&& json::field(members, "subIssues"@) == Some(sub_issues)
            &&& json::field(members, "blockedBy"@) == Some(blocked)
            &&& json::field(members, "blocks"@) == Some(blocks)
            &&& json::field(members, "related"@) == Some(related)
        }),
{
    reveal_strlit("parent");
    reveal_strlit("subIssues");
    reveal_strlit("blockedBy");
    reveal_strlit("blocks");
    reveal_strlit("related");
    let members = json::members().push(("parent"@, parent)).push(("subIssues"@, sub_issues)).push(
        ("blockedBy"@, blocked),
    ).push(("blocks"@, blocks)).push(("related"@, related));
    assert("blockedBy"@[0] != "subIssues"@[0]);
    assert("blocks"@[0] != "parent"@[0]);
    assert("blocks"@.len() == 6 && "blockedBy"@.len() == 9);
    json::lemma_lookup(members, "parent"@, 0);
    json::lemma_lookup(members, "subIssues"@, 1);
    json::lemma_lookup(members, "blockedBy"@, 2);
    json::lemma_lookup(members, "blocks"@, 3);
    json::lemma_lookup(members, "related"@, 4);
}

/// The relations of a task show what is stored: under `related` exactly the tasks that share a row
/// of that type with it, under `blocks` those that it blocks, under `blockedBy` those that block it,
/// under `subIssues` those whose parent it is, and under `parent` its parent, or null where it has
/// none. This holds wherever the five tables stand among others.
#[verifier::spinoff_prover]
#[verifier::rlimit(30)]
pub proof fn law_relations_are_shown_as_stored(
    world: World,
    id: Seq<char>,
    tables: Seq<Seq<Seq<(Seq<char>, SqlView)>>>,
    from: int,
)
    requires
        world.board.is_sound(),
        0 <= from,
        from + 5 <= tables.len(),
        all_answer(world, tasks::relation_queries(id), tables.subrange(from, from + 5)),
    ensures
        tasks::relations_in(tables, from) is Ok,
        are_relations_of(world, id, tasks::relations_in(tables, from)->Ok_0),
{
    reveal(tasks::relations_in);
    let board = world.board;
    let queries = tasks::relation_queries(id);
    let own = tables.subrange(from, from + 5);
    assert(answers(world, queries[0], own[0]));
    assert(answers(world, queries[1], own[1]));
    assert(answers(world, queries[2], own[2]));
    assert(answers(world, queries[3], own[3]));
    assert(answers(world, queries[4], own[4]));
    assert(own[0] == tables[from] && own[1] == tables[from + 1] && own[2] == tables[from + 2]
        && own[3] == tables[from + 3] && own[4] == tables[from + 4]);
    let p = parent_of(world.links, id);
    assert(holds(board, tables[from], p));
    assert(tasks::one_related(tables[from]) is Ok && (if tables[from].len() == 0 {
        tasks::one_related(tables[from])->Ok_0 == JsonView::Null
    } else {
        is_summary_of(board, tasks::one_related(tables[from])->Ok_0, p)
            && tasks::one_related(tables[from])->Ok_0 is Object
    })) by {
        if tables[from].len() > 0 {
            assert(is_row_of(board, tables[from][0], p));
            let x = choose|x: Seq<char>| #[trigger]
                board.tasks.contains_key(x) && p(x) && tables[from][0] == showing::task_row(
                    board.tasks[x],
                );
            law_summary_is_shown_as_stored(board.tasks[x]);
            assert(board.tasks.contains_key(x) && tasks::one_related(tables[from])->Ok_0
                == shown_summary(board.tasks[x]));
        }
    }
    if tables[from].len() == 0 {
        assert forall|x: Seq<char>| #[trigger] board.tasks.contains_key(x) implies
            !world.links.contains(("parent"@, x, id)) by {
            if p(x) {
                assert(tables[from].contains(showing::task_row(board.tasks[x])));
            }
        }
    }
    lemma_list_is_shown(board, tables[from + 1], children_of(world.links, id));
    lemma_list_is_shown(board, tables[from + 2], blockers_of(world.links, id));
    lemma_list_is_shown(board, tables[from + 3], blocked_by(world.links, id));
    lemma_list_is_shown(board, tables[from + 4], relatives_of(world.links, id));
    lemma_members(
        tasks::one_related(tables[from])->Ok_0,
        tasks::many_related(tables[from + 1])->Ok_0,
        tasks::many_related(tables[from + 2])->Ok_0,
        tasks::many_related(tables[from + 3])->Ok_0,
        tasks::many_related(tables[from + 4])->Ok_0,
    );
}

/// What a statement makes of the relations, by its text.
pub open spec fn links_after(world: World, w: StatementView) -> Links {
    let p = w.params;
    if w.sql == "INSERT OR IGNORE INTO task_relations (relation_type, source_task_id, target_task_id, created_at) VALUES (?1, ?2, ?3, ?4)"@
        && p.len() == 4 {
        world.links.insert((p[0]->Text_0, p[1]->Text_0, p[2]->Text_0))
    } else if w.sql
        == "DELETE FROM task_relations WHERE relation_type = ?1 AND source_task_id = ?2 AND target_task_id = ?3"@
        && p.len() == 3 {
        world.links.remove((p[0]->Text_0, p[1]->Text_0, p[2]->Text_0))
    } else if w.sql
        == "DELETE FROM task_relations WHERE relation_type = 'parent' AND target_task_id = ?1"@
        && p.len() == 1 {
        world.links.filter(
            |l: (Seq<char>, Seq<char>, Seq<char>)| l.0 != "parent"@ || l.2 != p[0]->Text_0,
        )
    } else if w.sql == "DELETE FROM tasks WHERE id = ?1 AND version = ?2"@ && p.len() == 2
        && world.board.finds(p[0], p[1]) {
        world.links.filter(
            |l: (Seq<char>, Seq<char>, Seq<char>)| l.1 != p[0]->Text_0 && l.2 != p[0]->Text_0,
        )
    } else {
        world.links
    }
}

/// The effect of an action on the tasks and their relations.
pub open spec fn world_effect() -> spec_fn(World, ActionView) -> World {
    |world: World, action: ActionView|
        match action {
            ActionView::Write(w) => World {
                board: board::board_after(world.board, w),
                links: links_after(world, w),
            },
            _ => world,
        }
}

/// Whether a reply is one that the store can give to an action: it tells of the tasks what it does,
/// the queries for relatives are answered, and a relation between two tasks is added where it is not
/// there and removed where it is. What becomes of parents is left to what is told of them.
pub open spec fn world_tells() -> spec_fn(World, ActionView, ReplyView) -> bool {
    |world: World, action: ActionView, reply: ReplyView|
        {
            let p = action->Write_0.params;
            &&& board::tells(world.board, action, reply)
            &&& action is Read && action->Read_0.len() == 5 ==> all_answer(
                world,
                action->Read_0,
                reply->Tables_0,
            )
            &&& action is Write && p.len() == 4 && p[0] != SqlView::Text("parent"@)
                && action->Write_0.sql
                == "INSERT OR IGNORE INTO task_relations (relation_type, source_task_id, target_task_id, created_at) VALUES (?1, ?2, ?3, ?4)"@
                ==> reply == ReplyView::Changed(
                if world.links.contains((p[0]->Text_0, p[1]->Text_0, p[2]->Text_0)) {
                    0
                } else {
                    1
                },
            )
            &&& action is Write && p.len() == 3 && action->Write_0.sql
                == "DELETE FROM task_relations WHERE relation_type = ?1 AND source_task_id = ?2 AND target_task_id = ?3"@
                ==> reply == ReplyView::Changed(
                if world.links.contains((p[0]->Text_0, p[1]->Text_0, p[2]->Text_0)) {
                    1
                } else {
                    0
                },
            )
        }
}

/// The board of a world.
pub open spec fn board_of() -> spec_fn(World) -> Board {
    |world: World| world.board
}

proof fn lemma_course_of_the_board(
    handler: spec_fn(Seq<ReplyView>) -> Result<ResponseView, StepView>,
    before: World,
    replies: Seq<ReplyView>,
)
    requires
        history::is_course(handler, world_effect(), world_tells(), before, replies),
    ensures
        history::is_course(
            handler,
            board::board_effect(),
            board::board_tells(),
            before.board,
            replies,
        ),
        forall|n: int|
            0 <= n <= replies.len() ==> (#[trigger] history::became(
                handler,
                world_effect(),
                before,
                replies.take(n),
            )).board == history::became(
                handler,
                board::board_effect(),
                before.board,
                replies.take(n),
            ),
{
    let e = world_effect();
    let part = board_of();
    history::lemma_course_of_a_part(
        handler,
        e,
        world_tells(),
        part,
        board::board_effect(),
        board::board_tells(),
        before,
        replies,
    );
    assert forall|n: int| 0 <= n <= replies.len() implies (#[trigger] history::became(
        handler,
        e,
        before,
        replies.take(n),
    )).board == history::became(
        handler,
        board::board_effect(),
        before.board,
        replies.take(n),
    ) by {
        assert(part(history::became(handler, e, before, replies.take(n))) == history::became(
            handler,
            board::board_effect(),
            before.board,
            replies.take(n),
        ));
    }
}

/// How a relation that is no parent is added once both tasks are read.
pub open spec fn adding_at(
    replies: Seq<ReplyView>,
    stored: (Seq<char>, Seq<char>, Seq<char>),
    pair: PairView,
    body: JsonView,
) -> Result<ResponseView, StepView> {
    match store::now_at(replies, 4) {
        Err(s) => Err(s),
        Ok(time) => match crate::exchange::changed_at(
            replies,
            5,
            relations::relation_insert(stored, time),
        ) {
            Err(s) => Err(s),
            Ok(inserted) => if inserted != 1 {
                Err(StepView::Answer(already_there()))
            } else {
                noted_at(replies, 6, pair, body)
            },
        },
    }
}

/// How a relation is removed once both tasks are read.
pub open spec fn removing_at(
    replies: Seq<ReplyView>,
    stored: (Seq<char>, Seq<char>, Seq<char>),
    pair: PairView,
    body: JsonView,
) -> Result<ResponseView, StepView> {
    match crate::exchange::changed_at(replies, 4, relations::relation_delete(stored)) {
        Err(s) => Err(s),
        Ok(removed) => if removed != 1 {
            Err(StepView::Answer(not_there()))
        } else {
            noted_at(replies, 5, pair, body)
        },
    }
}

/// How the change of a relation is noted in its task, which is then shown with the other.
pub open spec fn noted_at(replies: Seq<ReplyView>, at: int, pair: PairView, body: JsonView) -> Result<
    ResponseView,
    StepView,
> {
    match fields::text_of(body, "threadId"@, 256) {
        Err(m) => Err(StepView::Fail(m)),
        Ok(thread_id) => match store::now_at(replies, at) {
            Err(s) => Err(s),
            Ok(time) => match crate::exchange::changed_at(
                replies,
                at + 1,
                relations::task_touch(thread_id, time, pair.task_id, pair.version),
            ) {
                Err(s) => Err(s),
                Ok(_) => lineage::shown_at(replies, at + 2, pair.task_id, pair.related_task_id),
            },
        },
    }
}

/// That a relation is there already.
pub open spec fn already_there() -> ResponseView {
    crate::exchange::refusal(409, "RELATION_EXISTS"@, "This issue relation already exists"@)
}

/// That a relation is not there.
pub open spec fn not_there() -> ResponseView {
    crate::exchange::refusal(404, "RELATION_NOT_FOUND"@, "This issue relation does not exist"@)
}

proof fn lemma_noted(
    handler: spec_fn(Seq<ReplyView>) -> Result<ResponseView, StepView>,
    before: World,
    replies: Seq<ReplyView>,
    at: int,
    pair: PairView,
    body: JsonView,
)
    requires
        history::is_course(handler, world_effect(), world_tells(), before, replies),
        0 <= at <= replies.len(),
        ({
            let world = history::became(handler, world_effect(), before, replies.take(at));
            &&& world.board.is_sound()
            &&& world.board.names(pair.task_id, pair.task_id)
            &&& world.board.names(pair.related_task_id, pair.related_task_id)
            &&& world.board.tasks[pair.task_id][26] == SqlView::Integer(pair.version)
        }),
        fields::text_of(body, "threadId"@, 256) is Ok,
        forall|m: int|
            at <= m <= replies.len() ==> handler(#[trigger] replies.take(m)) == noted_at(
                replies.take(m),
                at,
                pair,
                body,
            ),
    ensures
        ({
            let world = history::became(handler, world_effect(), before, replies.take(at));
            let after = history::became(handler, world_effect(), before, replies);
            &&& after.links == world.links
            &&& after.board == world.board.with_task(
                pair.task_id,
                board::touched(
                    world.board.tasks[pair.task_id],
                    store::optional_param(fields::text_of(body, "threadId"@, 256)->Ok_0),
                    SqlView::Text(board::time_at(replies, at)),
                ),
            )
            &&& after.board.is_sound()
            &&& handler(replies) == Ok::<ResponseView, StepView>(
                lineage::pair_shown(
                    after.board,
                    pair.task_id,
                    pair.related_task_id,
                    replies,
                    at + 3,
                ),
            )
            &&& are_relations_of(after, pair.task_id, board::related_at(replies, at + 3))
            &&& are_relations_of(after, pair.related_task_id, board::related_at(replies, at + 5))
        }),
{
    let e = world_effect();
    let t = world_tells();
    let n = replies.len() as int;
    let a = pair.task_id;
    let b = pair.related_task_id;
    let world = history::became(handler, e, before, replies.take(at));
    let thread_id = fields::text_of(body, "threadId"@, 256)->Ok_0;
    assert(world.board.is_named(a, a) && world.board.is_named(b, b));
    board::lemma_other_statements();
    history::lemma_start(handler, e, before, replies);
    assert(handler(replies.take(at)) == Err::<ResponseView, StepView>(
        StepView::Ask(board::time_query()),
    ));
    history::lemma_told(handler, e, t, before, replies, at);
    board::lemma_tells_time(world.board, replies[at]);
    history::lemma_step(handler, e, before, replies, at);
    let time = board::time_at(replies, at);
    let touch = relations::task_touch(thread_id, time, a, pair.version);
    assert(handler(replies.take(at + 1)) == Err::<ResponseView, StepView>(
        StepView::Ask(ActionView::Write(touch)),
    )) by {
        assert(replies.take(at + 1)[at] == replies[at]);
        board::lemma_time_is_read(replies.take(at + 1), at);
    }
    history::lemma_told(handler, e, t, before, replies, at + 1);
    board::lemma_tells_write(world.board, touch, replies[at + 1]);
    history::lemma_step(handler, e, before, replies, at + 1);
    let values = board::touched(
        world.board.tasks[a],
        store::optional_param(thread_id),
        SqlView::Text(time),
    );
    lemma_touch(world, a, pair.version, thread_id, time);
    let after = World { board: world.board.with_task(a, values), links: world.links };
    assert(history::became(handler, e, before, replies.take(at + 2)) == after);
    assert forall|m: int| at + 2 <= m <= n implies handler(#[trigger] replies.take(m))
        == lineage::shown_at(replies.take(m), at + 2, a, b) by {
        assert(replies.take(m)[at] == replies[at]);
        assert(replies.take(m)[at + 1] == replies[at + 1]);
        board::lemma_time_is_read(replies.take(m), at);
    }
    lemma_course_of_the_board(handler, before, replies);
    assert(history::became(handler, e, before, replies.take(at + 2)).board == after.board);
    lineage::lemma_shown_pair(handler, before.board, replies, at + 2, a, b);
    lemma_relations_told(handler, before, after, replies, at + 2, a, b);
}

proof fn lemma_touch(
    world: World,
    a: Seq<char>,
    version: int,
    thread_id: Option<Seq<char>>,
    time: Seq<char>,
)
    requires
        world.board.is_sound(),
        world.board.tasks.contains_key(a),
        world.board.tasks[a][26] == SqlView::Integer(version),
    ensures
        ({
            let touch = relations::task_touch(thread_id, time, a, version);
            let values = board::touched(
                world.board.tasks[a],
                store::optional_param(thread_id),
                SqlView::Text(time),
            );
            let after = world.board.with_task(a, values);
            &&& board::board_after(world.board, touch) == after
            &&& links_after(world, touch) == world.links
            &&& after.is_sound()
            &&& forall|key: Seq<char>, other: Seq<char>| #[trigger]
                world.board.names(key, other) ==> after.names(key, other)
        }),
{
    let touch = relations::task_touch(thread_id, time, a, version);
    let values = board::touched(
        world.board.tasks[a],
        store::optional_param(thread_id),
        SqlView::Text(time),
    );
    assert(touch.params.len() == 4);
    assert(touch.params[2] == SqlView::Text(a) && touch.params[3] == SqlView::Integer(version));
    assert(showing::is_stored_task(world.board.tasks[a]));
    assert forall|k: int| 0 <= k < 29 implies rows::of_kind(
        #[trigger] values[k],
        showing::task_kinds()[k],
    ) is Some by {
        assert(rows::of_kind(world.board.tasks[a][k], showing::task_kinds()[k]) is Some);
    }
    assert(values[26] == SqlView::Integer(version + 1));
    board::lemma_with_task(world.board, a, values);
    reveal(board::board_after);
    board::lemma_other_statements();
}

proof fn lemma_relations_told(
    handler: spec_fn(Seq<ReplyView>) -> Result<ResponseView, StepView>,
    before: World,
    world: World,
    replies: Seq<ReplyView>,
    at: int,
    a: Seq<char>,
    b: Seq<char>,
)
    requires
        history::is_course(handler, world_effect(), world_tells(), before, replies),
        0 <= at <= replies.len(),
        history::became(handler, world_effect(), before, replies.take(at)) == world,
        world.board.is_sound(),
        world.board.names(a, a),
        world.board.names(b, b),
        forall|m: int|
            at <= m <= replies.len() ==> handler(#[trigger] replies.take(m)) == lineage::shown_at(
                replies.take(m),
                at,
                a,
                b,
            ),
    ensures
        replies.len() >= at + 4,
        history::became(handler, world_effect(), before, replies) == world,
        are_relations_of(world, a, board::related_at(replies, at + 1)),
        are_relations_of(world, b, board::related_at(replies, at + 3)),
{
    let e = world_effect();
    let t = world_tells();
    let n = replies.len() as int;
    lemma_course_of_the_board(handler, before, replies);
    let be = board::board_effect();
    assert(history::became(handler, e, before, replies.take(at)).board == world.board);
    assert(handler(replies.take(at)) == lineage::shown_at(replies.take(at), at, a, b));
    if at + 1 <= n {
        assert(handler(replies.take(at + 1)) == lineage::shown_at(replies.take(at + 1), at, a, b));
    }
    board::lemma_task_is_read(handler, before.board, replies, at, a, a);
    lemma_five_asked(handler, before, world, replies, at, a);
    assert(tasks::task_at(replies.take(at + 2), at, a) is Ok);
    assert(handler(replies.take(at + 2)) == lineage::shown_at(replies.take(at + 2), at, a, b));
    if at + 3 <= n {
        assert(tasks::task_at(replies.take(at + 3), at, a) is Ok);
        assert(handler(replies.take(at + 3)) == lineage::shown_at(replies.take(at + 3), at, a, b));
    }
    board::lemma_task_is_read(handler, before.board, replies, at + 2, b, b);
    lemma_five_asked(handler, before, world, replies, at + 2, b);
    assert forall|m: int| at + 4 <= m < n implies #[trigger] history::is_quiet(
        handler,
        e,
        replies,
        m,
    ) by {
        assert(tasks::task_at(replies.take(m), at, a) is Ok);
        assert(tasks::task_at(replies.take(m), at + 2, b) is Ok);
        assert(handler(replies.take(m)) == lineage::shown_at(replies.take(m), at, a, b));
        assert(handler(replies.take(m)) is Ok);
    }
    history::lemma_start(handler, e, before, replies);
    history::lemma_quiet(handler, e, before, replies, at + 4, n);
}

proof fn lemma_five_asked(
    handler: spec_fn(Seq<ReplyView>) -> Result<ResponseView, StepView>,
    before: World,
    world: World,
    replies: Seq<ReplyView>,
    at: int,
    a: Seq<char>,
)
    requires
        history::is_course(handler, world_effect(), world_tells(), before, replies),
        0 <= at,
        at + 2 <= replies.len(),
        history::became(handler, world_effect(), before, replies.take(at)) == world,
        world.board.is_sound(),
        world.board.names(a, a),
        handler(replies.take(at)) == Err::<ResponseView, StepView>(
            StepView::Ask(ActionView::Read(seq![board::task_query(a)])),
        ),
        tasks::task_at(replies.take(at + 1), at, a) is Err ==> handler(replies.take(at + 1))
            == Err::<ResponseView, StepView>(
            tasks::task_at(replies.take(at + 1), at, a)->Err_0,
        ),
    ensures
        are_relations_of(world, a, board::related_at(replies, at + 1)),
        history::became(handler, world_effect(), before, replies.take(at + 2)) == world,
{
    let e = world_effect();
    let t = world_tells();
    let values = world.board.tasks[a];
    assert(world.board.is_named(a, a));
    history::lemma_told(handler, e, t, before, replies, at);
    board::lemma_tells_task(world.board, a, a, replies[at]);
    assert(replies.take(at + 1)[at] == replies[at]);
    board::lemma_row_makes_a_task(replies.take(at + 1), at, a, values);
    history::lemma_step(handler, e, before, replies, at);
    let queries = tasks::relation_queries(a);
    assert(handler(replies.take(at + 1)) == Err::<ResponseView, StepView>(
        StepView::Ask(ActionView::Read(queries)),
    ));
    history::lemma_told(handler, e, t, before, replies, at + 1);
    history::lemma_step(handler, e, before, replies, at + 1);
    board::lemma_tells_relations(world.board, queries, replies[at + 1]);
    let tables = replies[at + 1]->Tables_0;
    assert(all_answer(world, queries, tables));
    assert(tables.subrange(0, 5) =~= tables);
    law_relations_are_shown_as_stored(world, a, tables, 0);
}

/// The row under which a relation of a task to another is stored: that one blocks another as a row
/// from the one to the other, that it is blocked by another as a row from the other to it, and that
/// both are related as a row from the one whose identifier comes first.
pub open spec fn row_of(relation_type: Seq<char>, a: Seq<char>, b: Seq<char>) -> (
    Seq<char>,
    Seq<char>,
    Seq<char>,
) {
    if relation_type == "blocks"@ {
        ("blocks"@, a, b)
    } else if relation_type == "blocked_by"@ {
        ("blocks"@, b, a)
    } else if text::precedes(a, b) {
        ("related"@, a, b)
    } else {
        ("related"@, b, a)
    }
}

/// Whether a type of relation is one without a parent.
pub open spec fn is_side_type(relation_type: Seq<char>) -> bool {
    relation_type == "blocks"@ || relation_type == "blocked_by"@ || relation_type == "related"@
}

proof fn lemma_types(relation_type: Seq<char>, a: Seq<char>, b: Seq<char>)
    requires
        is_side_type(relation_type),
    ensures
        relations::endpoints(relation_type, a, b) == Ok::<
            (Seq<char>, Seq<char>, Seq<char>),
            Seq<char>,
        >(row_of(relation_type, a, b)),
        row_of(relation_type, a, b).0 != "parent"@,
        "blocks"@ != "blocked_by"@,
        "related"@ != "blocks"@,
        "related"@ != "blocked_by"@,
{
    reveal_strlit("related");
    reveal_strlit("parent");
    reveal_strlit("blocks");
    reveal_strlit("blocked_by");
    assert("related"@[0] != "parent"@[0]);
    assert("blocks"@[0] != "parent"@[0]);
    assert("blocked_by"@[0] != "parent"@[0]);
    assert("related"@[0] != "blocks"@[0]);
    assert("related"@[0] != "blocked_by"@[0]);
    assert("blocks"@.len() != "blocked_by"@.len());
}

/// The key under which a task shows the tasks to which it stands in a relation of a type.
pub open spec fn key_here(relation_type: Seq<char>) -> Seq<char> {
    if relation_type == "blocks"@ {
        "blocks"@
    } else if relation_type == "blocked_by"@ {
        "blockedBy"@
    } else {
        "related"@
    }
}

/// The key under which the other task of a relation shows the one it was added to.
pub open spec fn key_there(relation_type: Seq<char>) -> Seq<char> {
    if relation_type == "blocks"@ {
        "blockedBy"@
    } else if relation_type == "blocked_by"@ {
        "blocks"@
    } else {
        "related"@
    }
}

/// Whether the relations of a task show another under a key: by its identifier.
pub open spec fn shows(relations: JsonView, key: Seq<char>, id: Seq<char>) -> bool {
    exists|i: int|
        0 <= i < listed(relations, key).len() && json::text_field(
            #[trigger] listed(relations, key)[i],
            "id"@,
        ) == Some(id)
}

proof fn lemma_listed(
    board: Board,
    relations: JsonView,
    key: Seq<char>,
    pick: spec_fn(Seq<char>) -> bool,
    id: Seq<char>,
)
    requires
        board.is_sound(),
        lists(board, listed(relations, key), pick),
        board.tasks.contains_key(id),
    ensures
        shows(relations, key, id) <==> pick(id),
{
    let shown = listed(relations, key);
    law_summary_is_shown_as_stored(board.tasks[id]);
    if pick(id) {
        let i = choose|i: int| 0 <= i < shown.len() && shown[i] == shown_summary(board.tasks[id]);
        assert(json::text_field(shown[i], "id"@) == Some(id));
    }
    if shows(relations, key, id) {
        let i = choose|i: int|
            0 <= i < shown.len() && json::text_field(#[trigger] shown[i], "id"@) == Some(id);
        assert(is_summary_of(board, shown[i], pick));
        let x = choose|x: Seq<char>| #[trigger]
            board.tasks.contains_key(x) && pick(x) && shown[i] == shown_summary(board.tasks[x]);
        law_summary_is_shown_as_stored(board.tasks[x]);
        assert(x == id);
    }
}

proof fn lemma_both_show(world: World, a: Seq<char>, b: Seq<char>, here: JsonView, there: JsonView)
    requires
        world.board.is_sound(),
        world.board.tasks.contains_key(a),
        world.board.tasks.contains_key(b),
        are_relations_of(world, a, here),
        are_relations_of(world, b, there),
    ensures
        shows(here, "related"@, b) <==> world.links.contains(("related"@, a, b))
            || world.links.contains(("related"@, b, a)),
        shows(there, "related"@, a) <==> world.links.contains(("related"@, a, b))
            || world.links.contains(("related"@, b, a)),
        shows(here, "blocks"@, b) <==> world.links.contains(("blocks"@, a, b)),
        shows(there, "blockedBy"@, a) <==> world.links.contains(("blocks"@, a, b)),
        shows(here, "blockedBy"@, b) <==> world.links.contains(("blocks"@, b, a)),
        shows(there, "blocks"@, a) <==> world.links.contains(("blocks"@, b, a)),
{
    lemma_listed(world.board, here, "related"@, relatives_of(world.links, a), b);
    lemma_listed(world.board, there, "related"@, relatives_of(world.links, b), a);
    lemma_listed(world.board, here, "blocks"@, blocked_by(world.links, a), b);
    lemma_listed(world.board, there, "blockedBy"@, blockers_of(world.links, b), a);
    lemma_listed(world.board, here, "blockedBy"@, blockers_of(world.links, a), b);
    lemma_listed(world.board, there, "blocks"@, blocked_by(world.links, b), a);
}

/// The relations that a task in an answer shows.
pub open spec fn relations_shown(response: ResponseView, key: Seq<char>) -> JsonView {
    json::field(json::field(response->Json_1, key)->0, "relations"@)->0
}

proof fn lemma_shown_relations(
    board: Board,
    a: Seq<char>,
    b: Seq<char>,
    replies: Seq<ReplyView>,
    at: int,
)
    ensures
        relations_shown(lineage::pair_shown(board, a, b, replies, at), "task"@)
            == board::related_at(replies, at),
        relations_shown(lineage::pair_shown(board, a, b, replies, at), "relatedTask"@)
            == board::related_at(replies, at + 2),
{
    reveal_strlit("task");
    reveal_strlit("relatedTask");
    assert("task"@.len() != "relatedTask"@.len());
    let members = lineage::pair_shown(board, a, b, replies, at)->Json_1->Object_0;
    json::lemma_lookup(members, "task"@, 0);
    json::lemma_lookup(members, "relatedTask"@, 1);
    showing::lemma_added_field(board.tasks[a], "relations"@, board::related_at(replies, at));
    showing::lemma_added_field(board.tasks[b], "relations"@, board::related_at(replies, at + 2));
}

/// What is asked of a request that changes a relation of two tasks: it names both and the version of
/// the first, and they are two tasks of one project.
pub open spec fn names_a_pair(
    board: Board,
    key: Seq<char>,
    related_key: Seq<char>,
    a: Seq<char>,
    b: Seq<char>,
    body: JsonView,
) -> bool {
    &&& board.is_sound()
    &&& board.names(key, a)
    &&& board.names(related_key, b)
    &&& board.names(a, a)
    &&& board.names(b, b)
    &&& a != b
    &&& board.tasks[a][2] == board.tasks[b][2]
    &&& fields::expected_version(body) is Ok
    &&& board.tasks[a][26] == SqlView::Integer(fields::expected_version(body)->Ok_0)
    &&& fields::text_of(body, "threadId"@, 256) is Ok
}

proof fn lemma_pair_of_worlds(
    handler: spec_fn(Seq<ReplyView>) -> Result<ResponseView, StepView>,
    before: World,
    key: Seq<char>,
    related_key: Seq<char>,
    a: Seq<char>,
    b: Seq<char>,
    body: JsonView,
    replies: Seq<ReplyView>,
)
    requires
        names_a_pair(before.board, key, related_key, a, b, body),
        history::is_course(handler, world_effect(), world_tells(), before, replies),
        forall|m: int|
            0 <= m <= replies.len() && #[trigger] relations::pair_at(
                replies.take(m),
                key,
                related_key,
                body,
            ) is Err ==> handler(replies.take(m)) == Err::<ResponseView, StepView>(
                relations::pair_at(replies.take(m), key, related_key, body)->Err_0,
            ),
    ensures
        replies.len() >= 4,
        history::became(handler, world_effect(), before, replies.take(4)) == before,
        forall|m: int|
            4 <= m <= replies.len() ==> #[trigger] relations::pair_at(
                replies.take(m),
                key,
                related_key,
                body,
            ) == Ok::<(PairView, int), StepView>(
                (
                    PairView {
                        task_id: a,
                        related_task_id: b,
                        version: fields::expected_version(body)->Ok_0,
                    },
                    4,
                ),
            ),
{
    let e = world_effect();
    lemma_course_of_the_board(handler, before, replies);
    lineage::lemma_pair_in_hand(handler, before.board, replies, key, related_key, a, b, body);
    assert forall|m: int| 0 <= m < 4 implies #[trigger] history::is_quiet(
        handler,
        e,
        replies,
        m,
    ) by {
        lemma_pair_reads(handler, key, related_key, body, replies, m);
    }
    history::lemma_start(handler, e, before, replies);
    history::lemma_quiet(handler, e, before, replies, 0, 4);
}

proof fn lemma_pair_reads(
    handler: spec_fn(Seq<ReplyView>) -> Result<ResponseView, StepView>,
    key: Seq<char>,
    related_key: Seq<char>,
    body: JsonView,
    replies: Seq<ReplyView>,
    m: int,
)
    requires
        0 <= m < 4,
        m < replies.len(),
        relations::pair_at(replies.take(m), key, related_key, body) is Err ==> handler(
            replies.take(m),
        ) == Err::<ResponseView, StepView>(
            relations::pair_at(replies.take(m), key, related_key, body)->Err_0,
        ),
    ensures
        history::done_by(handler, replies, m) is None,
{
    let prefix = replies.take(m);
    assert(prefix.len() == m);
    let first = tasks::task_at(prefix, 0, key);
    if first is Ok && (first->Ok_0).0 is Some {
        let second = tasks::task_at(prefix, 2, related_key);
        assert(second is Err || (second->Ok_0).0 is None);
    }
    assert(relations::pair_at(prefix, key, related_key, body) is Err);
}

/// A relation that is no parent is added where it is not there: from then on each of the two tasks
/// shows the other in the answer, under the key of the relation, and no other relation changes.
/// Where it is there already, the request is refused, and nothing becomes of the store.
pub proof fn law_added_relation_is_shown(
    before: World,
    key: Seq<char>,
    relation_type: Seq<char>,
    related_key: Seq<char>,
    a: Seq<char>,
    b: Seq<char>,
    body: JsonView,
    replies: Seq<ReplyView>,
)
    requires
        names_a_pair(before.board, key, related_key, a, b, body),
        is_side_type(relation_type),
        history::is_course(
            parents::change(key, relation_type, related_key, body, true),
            world_effect(),
            world_tells(),
            before,
            replies,
        ),
    ensures
        ({
            let result = relations::relation_changed(
                replies,
                key,
                relation_type,
                related_key,
                body,
                true,
            );
            let after = history::became(
                parents::change(key, relation_type, related_key, body, true),
                world_effect(),
                before,
                replies,
            );
            if before.links.contains(row_of(relation_type, a, b)) {
                &&& result == Err::<ResponseView, StepView>(StepView::Answer(already_there()))
                &&& after.links == before.links
            } else {
                &&& after.links == before.links.insert(row_of(relation_type, a, b))
                &&& result is Ok && result->Ok_0 is Json && result->Ok_0->Json_0 == 200
                &&& are_relations_of(after, a, relations_shown(result->Ok_0, "task"@))
                &&& are_relations_of(after, b, relations_shown(result->Ok_0, "relatedTask"@))
                &&& shows(relations_shown(result->Ok_0, "task"@), key_here(relation_type), b)
                &&& shows(
                    relations_shown(result->Ok_0, "relatedTask"@),
                    key_there(relation_type),
                    a,
                )
            }
        }),
{
    let h = parents::change(key, relation_type, related_key, body, true);
    let e = world_effect();
    let t = world_tells();
    let n = replies.len() as int;
    let version = fields::expected_version(body)->Ok_0;
    let pair = PairView { task_id: a, related_task_id: b, version };
    let stored = row_of(relation_type, a, b);
    lemma_types(relation_type, a, b);
    lemma_pair_of_worlds(h, before, key, related_key, a, b, body, replies);
    assert(before.board.is_named(a, a) && before.board.is_named(b, b));
    assert forall|m: int| 4 <= m <= n implies h(#[trigger] replies.take(m)) == adding_at(
        replies.take(m),
        stored,
        pair,
        body,
    ) by {
        assert(relations::pair_at(replies.take(m), key, related_key, body) is Ok);
        lemma_adding(replies.take(m), stored, pair, body);
    }
    assert(h(replies.take(4)) == Err::<ResponseView, StepView>(
        StepView::Ask(board::time_query()),
    ));
    history::lemma_told(h, e, t, before, replies, 4);
    board::lemma_tells_time(before.board, replies[4]);
    history::lemma_step(h, e, before, replies, 4);
    let time = board::time_at(replies, 4);
    let insert = relations::relation_insert(stored, time);
    assert forall|m: int| 5 <= m <= n implies store::now_at(#[trigger] replies.take(m), 4) == Ok::<
        Seq<char>,
        StepView,
    >(time) by {
        assert(replies.take(m)[4] == replies[4]);
        board::lemma_time_is_read(replies.take(m), 4);
    }
    assert(store::now_at(replies.take(5), 4) is Ok);
    assert(h(replies.take(5)) == Err::<ResponseView, StepView>(
        StepView::Ask(ActionView::Write(insert)),
    ));
    history::lemma_told(h, e, t, before, replies, 5);
    history::lemma_step(h, e, before, replies, 5);
    lemma_inserted(before, stored, time);
    history::lemma_start(h, e, before, replies);
    let there = before.links.contains(stored);
    if there {
        assert(before.links.insert(stored) =~= before.links);
        assert forall|m: int| 6 <= m <= n implies h(#[trigger] replies.take(m)) == Err::<
            ResponseView,
            StepView,
        >(StepView::Answer(already_there())) by {
            assert(store::now_at(replies.take(m), 4) is Ok);
            assert(replies.take(m)[5] == replies[5]);
        }
        assert forall|m: int| 6 <= m < n implies #[trigger] history::is_quiet(h, e, replies, m) by {
            assert(h(replies.take(m)) is Err);
        }
        history::lemma_quiet(h, e, before, replies, 6, n);
        assert(h(replies.take(n)) is Err);
    } else {
        assert forall|m: int| 6 <= m <= n implies h(#[trigger] replies.take(m)) == noted_at(
            replies.take(m),
            6,
            pair,
            body,
        ) by {
            assert(store::now_at(replies.take(m), 4) is Ok);
            assert(replies.take(m)[5] == replies[5]);
        }
        lemma_noted(h, before, replies, 6, pair, body);
        let after = history::became(h, e, before, replies);
        lemma_shown_relations(after.board, a, b, replies, 9);
        lemma_both_show(
            after,
            a,
            b,
            board::related_at(replies, 9),
            board::related_at(replies, 11),
        );
    }
}

proof fn lemma_adding(
    replies: Seq<ReplyView>,
    stored: (Seq<char>, Seq<char>, Seq<char>),
    pair: PairView,
    body: JsonView,
)
    requires
        stored.0 != "parent"@,
    ensures
        (match relations::relation_written(replies, 4, stored, pair, true) {
            Err(s) => Err(s),
            Ok(next) => relations::relation_shown(replies, next, pair, body),
        }) == adding_at(replies, stored, pair, body),
{
}

proof fn lemma_inserted(
    world: World,
    stored: (Seq<char>, Seq<char>, Seq<char>),
    time: Seq<char>,
)
    requires
        world.board.is_sound(),
        stored.0 != "parent"@,
    ensures
        ({
            let insert = relations::relation_insert(stored, time);
            let after = board::board_after(world.board, insert);
            &&& after.tasks == world.board.tasks
            &&& after.is_sound()
            &&& forall|key: Seq<char>, id: Seq<char>| #[trigger]
                world.board.names(key, id) ==> after.names(key, id)
            &&& links_after(world, insert) == world.links.insert(stored)
        }),
{
    reveal(board::board_after);
    board::lemma_other_statements();
    let insert = relations::relation_insert(stored, time);
    assert(insert.params.len() == 4);
    let after = board::board_after(world.board, insert);
    assert(after.tasks == world.board.tasks);
    assert forall|key: Seq<char>, id: Seq<char>| #[trigger] world.board.names(key, id) implies
        after.names(key, id) by {
        lineage::lemma_names_alike(world.board, after, key);
    }
    lineage::lemma_names_alike(world.board, after, ""@);
}

proof fn lemma_deleted(world: World, stored: (Seq<char>, Seq<char>, Seq<char>))
    requires
        world.board.is_sound(),
    ensures
        ({
            let delete = relations::relation_delete(stored);
            let after = board::board_after(world.board, delete);
            &&& after.tasks == world.board.tasks
            &&& after.is_sound()
            &&& forall|key: Seq<char>, id: Seq<char>| #[trigger]
                world.board.names(key, id) ==> after.names(key, id)
            &&& links_after(world, delete) == world.links.remove(stored)
        }),
{
    reveal(board::board_after);
    board::lemma_other_statements();
    let delete = relations::relation_delete(stored);
    assert(delete.params.len() == 3);
    let after = board::board_after(world.board, delete);
    assert(after.tasks == world.board.tasks);
    assert forall|key: Seq<char>, id: Seq<char>| #[trigger] world.board.names(key, id) implies
        after.names(key, id) by {
        lineage::lemma_names_alike(world.board, after, key);
    }
    lineage::lemma_names_alike(world.board, after, ""@);
}

/// A relation that is no parent is removed where it is there: from then on neither of the two tasks
/// shows the other in the answer under the key of the relation, unless another row relates them, and
/// no other relation changes. Where it is not there, the request is refused, and nothing becomes of
/// the relations.
pub proof fn law_removed_relation_is_not_shown(
    before: World,
    key: Seq<char>,
    relation_type: Seq<char>,
    related_key: Seq<char>,
    a: Seq<char>,
    b: Seq<char>,
    body: JsonView,
    replies: Seq<ReplyView>,
)
    requires
        names_a_pair(before.board, key, related_key, a, b, body),
        is_side_type(relation_type),
        history::is_course(
            parents::change(key, relation_type, related_key, body, false),
            world_effect(),
            world_tells(),
            before,
            replies,
        ),
    ensures
        ({
            let result = relations::relation_changed(
                replies,
                key,
                relation_type,
                related_key,
                body,
                false,
            );
            let after = history::became(
                parents::change(key, relation_type, related_key, body, false),
                world_effect(),
                before,
                replies,
            );
            if before.links.contains(row_of(relation_type, a, b)) {
                &&& after.links == before.links.remove(row_of(relation_type, a, b))
                &&& result is Ok && result->Ok_0 is Json && result->Ok_0->Json_0 == 200
                &&& are_relations_of(after, a, relations_shown(result->Ok_0, "task"@))
                &&& are_relations_of(after, b, relations_shown(result->Ok_0, "relatedTask"@))
                &&& relation_type != "related"@ || !before.links.contains(
                    ("related"@, row_of(relation_type, a, b).2, row_of(relation_type, a, b).1),
                ) ==> {
                    &&& !shows(relations_shown(result->Ok_0, "task"@), key_here(relation_type), b)
                    &&& !shows(
                        relations_shown(result->Ok_0, "relatedTask"@),
                        key_there(relation_type),
                        a,
                    )
                }
            } else {
                &&& result == Err::<ResponseView, StepView>(StepView::Answer(not_there()))
                &&& after.links == before.links
            }
        }),
{
    let h = parents::change(key, relation_type, related_key, body, false);
    let e = world_effect();
    let t = world_tells();
    let n = replies.len() as int;
    let version = fields::expected_version(body)->Ok_0;
    let pair = PairView { task_id: a, related_task_id: b, version };
    let stored = row_of(relation_type, a, b);
    lemma_types(relation_type, a, b);
    lemma_pair_of_worlds(h, before, key, related_key, a, b, body, replies);
    assert(before.board.is_named(a, a) && before.board.is_named(b, b));
    assert forall|m: int| 4 <= m <= n implies h(#[trigger] replies.take(m)) == removing_at(
        replies.take(m),
        stored,
        pair,
        body,
    ) by {
        assert(relations::pair_at(replies.take(m), key, related_key, body) is Ok);
    }
    let delete = relations::relation_delete(stored);
    assert(h(replies.take(4)) == Err::<ResponseView, StepView>(
        StepView::Ask(ActionView::Write(delete)),
    ));
    history::lemma_told(h, e, t, before, replies, 4);
    history::lemma_step(h, e, before, replies, 4);
    lemma_deleted(before, stored);
    history::lemma_start(h, e, before, replies);
    if before.links.contains(stored) {
        assert forall|m: int| 5 <= m <= n implies h(#[trigger] replies.take(m)) == noted_at(
            replies.take(m),
            5,
            pair,
            body,
        ) by {
            assert(replies.take(m)[4] == replies[4]);
        }
        lemma_noted(h, before, replies, 5, pair, body);
        let after = history::became(h, e, before, replies);
        lemma_shown_relations(after.board, a, b, replies, 8);
        lemma_both_show(
            after,
            a,
            b,
            board::related_at(replies, 8),
            board::related_at(replies, 10),
        );
    } else {
        assert(before.links.remove(stored) =~= before.links);
        assert forall|m: int| 5 <= m <= n implies h(#[trigger] replies.take(m)) == Err::<
            ResponseView,
            StepView,
        >(StepView::Answer(not_there())) by {
            assert(replies.take(m)[4] == replies[4]);
        }
        assert forall|m: int| 5 <= m < n implies #[trigger] history::is_quiet(h, e, replies, m) by {
            assert(h(replies.take(m)) is Err);
        }
        history::lemma_quiet(h, e, before, replies, 5, n);
        assert(h(replies.take(n)) is Err);
    }
}

/// A task that a key names is shown as it is stored, with the relations that are stored.
pub proof fn law_task_is_shown_with_its_relations(
    world: World,
    key: Seq<char>,
    id: Seq<char>,
    replies: Seq<ReplyView>,
)
    requires
        world.board.is_sound(),
        world.board.names(key, id),
        history::is_course(
            |r: Seq<ReplyView>| tasks::task_at(r, 0, key),
            world_effect(),
            world_tells(),
            world,
            replies,
        ),
    ensures
        ({
            let read = tasks::task_at(replies, 0, key);
            let shown = (read->Ok_0).0->0;
            &&& read is Ok && (read->Ok_0).0 is Some
            &&& shown == tasks::extended(
                showing::shown_task(world.board.tasks[id]),
                "relations"@,
                json::field(shown, "relations"@)->0,
            )
            &&& are_relations_of(world, id, json::field(shown, "relations"@)->0)
        }),
{
    let h = |r: Seq<ReplyView>| tasks::task_at(r, 0, key);
    let e = world_effect();
    let t = world_tells();
    let values = world.board.tasks[id];
    history::lemma_start(h, e, world, replies);
    assert(world.board.is_named(key, id));
    history::lemma_told(h, e, t, world, replies, 0);
    board::lemma_tells_task(world.board, key, id, replies[0]);
    assert(replies.take(1)[0] == replies[0]);
    board::lemma_row_makes_a_task(replies.take(1), 0, key, values);
    history::lemma_step(h, e, world, replies, 0);
    let queries = tasks::relation_queries(id);
    history::lemma_told(h, e, t, world, replies, 1);
    board::lemma_tells_relations(world.board, queries, replies[1]);
    let tables = replies[1]->Tables_0;
    assert(all_answer(world, queries, tables));
    assert(tables.subrange(0, 5) =~= tables);
    law_relations_are_shown_as_stored(world, id, tables, 0);
    board::lemma_row_makes_a_task(replies, 0, key, values);
    showing::lemma_added_field(values, "relations"@, board::related_at(replies, 1));
}

} // verus!
