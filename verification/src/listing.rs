//! That a listing shows the tasks that it asks for.
//!
//! The model reads the query of a listing as its text says it: each condition behind `WHERE` must
//! hold of a task, and each `?` stands for the next parameter.
use crate::board::Board;
use crate::exchange;
use crate::exchange::{ActionView, ReplyView, SqlView, StatementView, StepView};
use crate::history;
use crate::json;
use crate::json::JsonView;
use crate::relatives;
use crate::relatives::World;
use crate::rows;
use crate::showing;
use crate::tasks;
use crate::text;
use vstd::prelude::*;

verus! {

/// Conditions that must all hold, as a query says it.
pub open spec fn all_of(conditions: Seq<Seq<char>>) -> Seq<char>
    decreases conditions.len(),
{
    if conditions.len() == 0 {
        Seq::empty()
    } else if conditions.len() == 1 {
        "WHERE "@ + conditions[0]
    } else {
        all_of(conditions.drop_last()) + " AND "@ + conditions.last()
    }
}

/// The query for the tasks of which conditions hold.
pub open spec fn query_text(conditions: Seq<Seq<char>>) -> Seq<char> {
    "
        SELECT * FROM tasks
        "@ + all_of(conditions) + "
        ORDER BY
          CASE status
            WHEN 'backlog' THEN 1
            WHEN 'todo' THEN 2
            WHEN 'in_progress' THEN 3
            WHEN 'in_review' THEN 4
            WHEN 'blocked' THEN 5
            WHEN 'done' THEN 6
            WHEN 'canceled' THEN 7
          END,
          sort_order,
          created_at,
          id
        "@
}

/// Whether a condition is one that the model reads.
pub open spec fn is_condition(condition: Seq<char>) -> bool {
    ||| condition == "project_id = ?"@
    ||| condition == "status = ?"@
    ||| condition == "archived_at IS NULL"@
    ||| condition == "archived_at IS NOT NULL"@
}

/// Whether a condition holds of a task, where `?` stands for a value.
pub open spec fn meets(values: Seq<SqlView>, condition: Seq<char>, value: SqlView) -> bool {
    &&& condition == "project_id = ?"@ ==> values[2] == value
    &&& condition == "status = ?"@ ==> values[5] == value
    &&& condition == "archived_at IS NULL"@ ==> values[25] is Null
    &&& condition == "archived_at IS NOT NULL"@ ==> !(values[25] is Null)
}

/// How many parameters stand in the first of some conditions.
pub open spec fn marks(conditions: Seq<Seq<char>>, n: int) -> int
    decreases n,
{
    if n <= 0 {
        0
    } else if conditions[n - 1].last() == '?' {
        marks(conditions, n - 1) + 1
    } else {
        marks(conditions, n - 1)
    }
}

/// Whether conditions hold of a task, with the parameters in their order.
pub open spec fn meets_all(
    values: Seq<SqlView>,
    conditions: Seq<Seq<char>>,
    params: Seq<SqlView>,
) -> bool {
    forall|i: int|
        0 <= i < conditions.len() ==> meets(
            values,
            #[trigger] conditions[i],
            params[marks(conditions, i)],
        )
}

/// The tasks of which conditions hold.
pub open spec fn met(board: Board, conditions: Seq<Seq<char>>, params: Seq<SqlView>) -> spec_fn(
    Seq<char>,
) -> bool {
    |x: Seq<char>| meets_all(board.tasks[x], conditions, params)
}

/// Whether conditions are ones that the model reads, each with its parameter.
pub open spec fn are_conditions(conditions: Seq<Seq<char>>, params: Seq<SqlView>) -> bool {
    &&& forall|i: int| 0 <= i < conditions.len() ==> is_condition(#[trigger] conditions[i])
    &&& marks(conditions, conditions.len() as int) == params.len()
}

/// Whether a table is what a query for tasks finds.
pub open spec fn tells_tasks(
    board: Board,
    query: StatementView,
    table: Seq<Seq<(Seq<char>, SqlView)>>,
) -> bool {
    forall|conditions: Seq<Seq<char>>|
        query.sql == #[trigger] query_text(conditions) && are_conditions(conditions, query.params)
            ==> relatives::holds(board, table, met(board, conditions, query.params))
}

/// Whether a reply is one that the store can give to an action: a query for tasks is answered, and so
/// are any queries for relatives.
pub open spec fn list_tells() -> spec_fn(World, ActionView, ReplyView) -> bool {
    |world: World, action: ActionView, reply: ReplyView|
        action is Read ==> {
            &&& reply is Tables
            &&& relatives::all_answer(world, action->Read_0, reply->Tables_0)
            &&& action->Read_0.len() == 1 ==> tells_tasks(
                world.board,
                action->Read_0[0],
                reply->Tables_0[0],
            )
        }
}

/// Whether a task is one that a listing asks for: it is of the project and has the status that are
/// named, where they are not empty, and it is not archived, unless all tasks or the archived ones are
/// asked for.
pub open spec fn is_asked_for(query: Map<Seq<char>, Seq<char>>, values: Seq<SqlView>) -> bool {
    &&& query.dom().contains("projectId"@) && query["projectId"@].len() > 0 ==> values[2]
        == SqlView::Text(query["projectId"@])
    &&& query.dom().contains("status"@) && query["status"@].len() > 0 ==> values[5]
        == SqlView::Text(query["status"@])
    &&& if query.dom().contains("archived"@) && query["archived"@] == "all"@ {
        true
    } else if query.dom().contains("archived"@) && query["archived"@] == "true"@ {
        !(values[25] is Null)
    } else {
        values[25] is Null
    }
}

/// Whether a value shows a task with its relations.
pub open spec fn is_shown(world: World, x: Seq<char>, value: JsonView) -> bool {
    &&& value == tasks::extended(
        showing::shown_task(world.board.tasks[x]),
        "relations"@,
        json::field(value, "relations"@)->0,
    )
    &&& relatives::are_relations_of(world, x, json::field(value, "relations"@)->0)
}

proof fn lemma_condition_marks()
    ensures
        "project_id = ?"@.last() == '?',
        "status = ?"@.last() == '?',
        "archived_at IS NULL"@.last() == 'L',
        "archived_at IS NOT NULL"@.last() == 'L',
        "project_id = ?"@.len() == 14,
        "status = ?"@.len() == 10,
        "archived_at IS NULL"@.len() == 19,
        "archived_at IS NOT NULL"@.len() == 23,
        "true"@.len() == 4,
        "all"@.len() == 3,
{
    reveal_strlit("project_id = ?");
    reveal_strlit("status = ?");
    reveal_strlit("archived_at IS NULL");
    reveal_strlit("archived_at IS NOT NULL");
    reveal_strlit("true");
    reveal_strlit("all");
}

/// The query of a listing finds the tasks that it asks for, and no other.
proof fn lemma_query_asks(
    query: Map<Seq<char>, Seq<char>>,
    board: Board,
    table: Seq<Seq<(Seq<char>, SqlView)>>,
)
    requires
        tells_tasks(board, tasks::list_query(query), table),
    ensures
        relatives::holds(board, table, |x: Seq<char>| is_asked_for(query, board.tasks[x])),
{
    let asked = tasks::list_query(query);
    let conditions = tasks::filters(query);
    let params = asked.params;
    lemma_condition_marks();
    assert(conditions.len() <= 3);
    assert(text::joined(conditions.take(1), " AND "@) == conditions.take(1)[0] || conditions.len()
        == 0);
    lemma_texts_agree(conditions);
    assert(asked.sql == query_text(conditions));
    assert(marks(conditions, 0) == 0);
    if conditions.len() >= 1 {
        assert(marks(conditions, 1) == marks(conditions, 0) + if conditions[0].last() == '?' {
            1int
        } else {
            0
        });
    }
    if conditions.len() >= 2 {
        assert(marks(conditions, 2) == marks(conditions, 1) + if conditions[1].last() == '?' {
            1int
        } else {
            0
        });
    }
    if conditions.len() >= 3 {
        assert(marks(conditions, 3) == marks(conditions, 2) + if conditions[2].last() == '?' {
            1int
        } else {
            0
        });
    }
    assert(are_conditions(conditions, params));
    let pick = met(board, conditions, params);
    assert(relatives::holds(board, table, pick));
    let wanted = |x: Seq<char>| is_asked_for(query, board.tasks[x]);
    assert forall|x: Seq<char>| #[trigger] board.tasks.contains_key(x) implies pick(x) == wanted(
        x,
    ) by {
        lemma_same_tasks(query, board.tasks[x]);
    }
    assert forall|i: int| 0 <= i < table.len() implies #[trigger] relatives::is_row_of(
        board,
        table[i],
        wanted,
    ) by {
        assert(relatives::is_row_of(board, table[i], pick));
        let x = choose|x: Seq<char>| #[trigger]
            board.tasks.contains_key(x) && pick(x) && table[i] == showing::task_row(
                board.tasks[x],
            );
        assert(board.tasks.contains_key(x) && wanted(x));
    }
}

proof fn lemma_same_tasks(query: Map<Seq<char>, Seq<char>>, values: Seq<SqlView>)
    ensures
        meets_all(values, tasks::filters(query), tasks::filter_values(query)) <==> is_asked_for(
            query,
            values,
        ),
{
    let conditions = tasks::filters(query);
    let params = tasks::filter_values(query);
    lemma_condition_marks();
    assert(marks(conditions, 0) == 0);
    if conditions.len() >= 1 {
        assert(marks(conditions, 1) == marks(conditions, 0) + if conditions[0].last() == '?' {
            1int
        } else {
            0
        });
    }
    if conditions.len() >= 2 {
        assert(marks(conditions, 2) == marks(conditions, 1) + if conditions[1].last() == '?' {
            1int
        } else {
            0
        });
    }
    if meets_all(values, conditions, params) {
        if conditions.len() >= 1 {
            assert(meets(values, conditions[0], params[marks(conditions, 0)]));
        }
        if conditions.len() >= 2 {
            assert(meets(values, conditions[1], params[marks(conditions, 1)]));
        }
        if conditions.len() >= 3 {
            assert(meets(values, conditions[2], params[marks(conditions, 2)]));
        }
    }
}

proof fn lemma_texts_agree(conditions: Seq<Seq<char>>)
    ensures
        tasks::where_clause(conditions) == all_of(conditions),
    decreases conditions.len(),
{
    if conditions.len() >= 2 {
        lemma_texts_agree(conditions.drop_last());
        assert(tasks::where_clause(conditions) =~= all_of(conditions));
    }
}

proof fn lemma_queries_of_one(listed: Seq<JsonView>, i: int)
    requires
        0 <= i < listed.len(),
    ensures
        tasks::all_relation_queries(listed).len() == 5 * listed.len(),
        tasks::all_relation_queries(listed).subrange(5 * i, 5 * i + 5) == tasks::relation_queries(
            tasks::key_of(listed[i], "id"@),
        ),
    decreases listed.len(),
{
    tasks::lemma_all_relation_queries_len(listed);
    tasks::lemma_all_relation_queries_len(listed.drop_last());
    let all = tasks::all_relation_queries(listed);
    let earlier = tasks::all_relation_queries(listed.drop_last());
    let last = tasks::relation_queries(tasks::key_of(listed.last(), "id"@));
    assert(all == earlier + last);
    if i < listed.len() - 1 {
        lemma_queries_of_one(listed.drop_last(), i);
        assert(all.subrange(5 * i, 5 * i + 5) =~= earlier.subrange(5 * i, 5 * i + 5));
    } else {
        assert(all.subrange(5 * i, 5 * i + 5) =~= last);
    }
}

proof fn lemma_part_answers(
    world: World,
    queries: Seq<StatementView>,
    tables: Seq<Seq<Seq<(Seq<char>, SqlView)>>>,
    from: int,
)
    requires
        relatives::all_answer(world, queries, tables),
        0 <= from,
        from + 5 <= queries.len(),
    ensures
        relatives::all_answer(
            world,
            queries.subrange(from, from + 5),
            tables.subrange(from, from + 5),
        ),
{
    let some = queries.subrange(from, from + 5);
    let own = tables.subrange(from, from + 5);
    assert forall|k: int| 0 <= k < some.len() implies #[trigger] relatives::answers(
        world,
        some[k],
        own[k],
    ) by {
        assert(relatives::answers(world, queries[from + k], tables[from + k]));
    }
}

proof fn lemma_all_related(
    world: World,
    ids: Seq<Seq<char>>,
    listed: Seq<JsonView>,
    tables: Seq<Seq<Seq<(Seq<char>, SqlView)>>>,
    n: int,
)
    requires
        world.board.is_sound(),
        ids.len() == listed.len(),
        forall|i: int|
            0 <= i < ids.len() ==> world.board.tasks.contains_key(#[trigger] ids[i]) && listed[i]
                == showing::shown_task(world.board.tasks[ids[i]]),
        relatives::all_answer(world, tasks::all_relation_queries(listed), tables),
        0 <= n <= listed.len(),
    ensures
        ({
            let related = tasks::all_related(listed.take(n), tables);
            &&& related is Ok
            &&& related->Ok_0.len() == n
            &&& forall|i: int|
                0 <= i < n ==> is_shown(world, ids[i], #[trigger] related->Ok_0[i])
        }),
    decreases n,
{
    let part = listed.take(n);
    if n > 0 {
        lemma_all_related(world, ids, listed, tables, n - 1);
        assert(part.drop_last() =~= listed.take(n - 1));
        let i = n - 1;
        let x = ids[i];
        let values = world.board.tasks[x];
        assert(world.board.tasks.contains_key(ids[i]));
        showing::lemma_shown_members(values, ""@, JsonView::Null);
        assert(tasks::key_of(listed[i], "id"@) == x);
        lemma_queries_of_one(listed, i);
        lemma_part_answers(world, tasks::all_relation_queries(listed), tables, 5 * i);
        relatives::law_relations_are_shown_as_stored(world, x, tables, 5 * i);
        let relations = tasks::relations_in(tables, 5 * i)->Ok_0;
        showing::lemma_added_field(values, "relations"@, relations);
        assert(part.last() == listed[i]);
        assert(part.len() == n);
        let before = tasks::all_related(listed.take(n - 1), tables)->Ok_0;
        let now = tasks::all_related(part, tables);
        assert(now == Ok::<Seq<JsonView>, Seq<char>>(
            before.push(tasks::extended(listed[i], "relations"@, relations)),
        ));
        assert forall|j: int| 0 <= j < n implies is_shown(
            world,
            ids[j],
            #[trigger] now->Ok_0[j],
        ) by {
            if j < i {
                assert(now->Ok_0[j] == before[j]);
            }
        }
    }
}

/// The listing of tasks.
pub open spec fn listing(query: Map<Seq<char>, Seq<char>>) -> spec_fn(Seq<ReplyView>) -> Result<
    Seq<JsonView>,
    StepView,
> {
    |replies: Seq<ReplyView>| tasks::tasks_at(replies, 0, query)
}

/// Whether a value shows a task of the board that a listing asks for.
pub open spec fn shows_one_asked_for(
    world: World,
    query: Map<Seq<char>, Seq<char>>,
    value: JsonView,
) -> bool {
    exists|x: Seq<char>| #[trigger]
        world.board.tasks.contains_key(x) && is_asked_for(query, world.board.tasks[x]) && is_shown(
            world,
            x,
            value,
        )
}

/// Whether a task is among those that are shown.
pub open spec fn is_among(world: World, x: Seq<char>, shown: Seq<JsonView>) -> bool {
    exists|i: int| 0 <= i < shown.len() && is_shown(world, x, #[trigger] shown[i])
}

proof fn lemma_found_tasks(
    world: World,
    query: Map<Seq<char>, Seq<char>>,
    found: Seq<Seq<(Seq<char>, SqlView)>>,
) -> (ids: Seq<Seq<char>>)
    requires
        world.board.is_sound(),
        tells_tasks(world.board, tasks::list_query(query), found),
    ensures
        ids.len() == found.len(),
        forall|i: int|
            0 <= i < ids.len() ==> world.board.tasks.contains_key(#[trigger] ids[i])
                && is_asked_for(query, world.board.tasks[ids[i]]) && found[i]
                == showing::task_row(world.board.tasks[ids[i]]),
        forall|x: Seq<char>|
            #![trigger world.board.tasks.contains_key(x)]
            world.board.tasks.contains_key(x) && is_asked_for(query, world.board.tasks[x])
                ==> found.contains(showing::task_row(world.board.tasks[x])),
{
    let board = world.board;
    let wanted = |x: Seq<char>| is_asked_for(query, board.tasks[x]);
    lemma_query_asks(query, board, found);
    assert(relatives::holds(board, found, wanted));
    let ids = Seq::new(
        found.len(),
        |i: int|
            choose|x: Seq<char>| #[trigger]
                board.tasks.contains_key(x) && wanted(x) && found[i] == showing::task_row(
                    board.tasks[x],
                ),
    );
    assert forall|i: int| 0 <= i < ids.len() implies board.tasks.contains_key(#[trigger] ids[i])
        && is_asked_for(query, board.tasks[ids[i]]) && found[i] == showing::task_row(
        board.tasks[ids[i]],
    ) by {
        assert(relatives::is_row_of(board, found[i], wanted));
    }
    assert forall|x: Seq<char>|
        #![trigger board.tasks.contains_key(x)]
        board.tasks.contains_key(x) && is_asked_for(query, board.tasks[x]) implies found.contains(
        showing::task_row(board.tasks[x]),
    ) by {
        assert(wanted(x));
    }
    ids
}

proof fn lemma_rows_are_read(world: World, ids: Seq<Seq<char>>, found: Seq<Seq<(Seq<char>, SqlView)>>)
    requires
        world.board.is_sound(),
        ids.len() == found.len(),
        forall|i: int|
            0 <= i < ids.len() ==> world.board.tasks.contains_key(#[trigger] ids[i]) && found[i]
                == showing::task_row(world.board.tasks[ids[i]]),
    ensures
        ({
            let read = |row: Seq<(Seq<char>, SqlView)>| tasks::task_of_row(row);
            let listed = Seq::new(
                ids.len(),
                |i: int| showing::shown_task(world.board.tasks[ids[i]]),
            );
            &&& rows::each_row(found, read) == Ok::<Seq<JsonView>, Seq<char>>(listed)
            &&& rows::leading(found, read) == listed
        }),
        found.len() > 0 ==> exchange::lost(found[0]) is None,
{
    let read = |row: Seq<(Seq<char>, SqlView)>| tasks::task_of_row(row);
    let listed = Seq::new(ids.len(), |i: int| showing::shown_task(world.board.tasks[ids[i]]));
    assert forall|i: int| 0 <= i < found.len() implies read(#[trigger] found[i]) == Ok::<
        JsonView,
        Seq<char>,
    >(listed[i]) by {
        assert(world.board.tasks.contains_key(ids[i]));
        showing::law_task_is_shown_as_stored(world.board.tasks[ids[i]]);
    }
    rows::lemma_each_row_values(found, read, listed);
    if found.len() > 0 {
        assert(world.board.tasks.contains_key(ids[0]));
        showing::lemma_row_is_there(world.board.tasks[ids[0]]);
    } else {
        assert(listed =~= Seq::empty());
    }
}

/// A listing shows exactly the tasks that it asks for, each as it is stored and with its relations:
/// what it shows is of the project and has the status that are named, where they are not empty, and
/// is archived or not as is asked for; and every stored task that meets all of this is among them.
pub proof fn law_listing_shows_what_is_asked_for(
    world: World,
    query: Map<Seq<char>, Seq<char>>,
    replies: Seq<ReplyView>,
)
    requires
        world.board.is_sound(),
        history::is_course(
            listing(query),
            relatives::world_effect(),
            list_tells(),
            world,
            replies,
        ),
    ensures
        ({
            let result = tasks::tasks_at(replies, 0, query);
            let shown = result->Ok_0;
            &&& result is Ok
            &&& forall|i: int|
                0 <= i < shown.len() ==> shows_one_asked_for(world, query, #[trigger] shown[i])
            &&& forall|x: Seq<char>|
                #![trigger world.board.tasks.contains_key(x)]
                world.board.tasks.contains_key(x) && is_asked_for(query, world.board.tasks[x])
                    ==> is_among(world, x, shown)
        }),
{
    let h = listing(query);
    let e = relatives::world_effect();
    let t = list_tells();
    let n = replies.len() as int;
    history::lemma_start(h, e, world, replies);
    let asked = seq![tasks::list_query(query)];
    assert(asked[0] == tasks::list_query(query));
    history::lemma_told(h, e, t, world, replies, 0);
    history::lemma_step(h, e, world, replies, 0);
    let found = replies[0]->Tables_0[0];
    let ids = lemma_found_tasks(world, query, found);
    lemma_rows_are_read(world, ids, found);
    let listed = Seq::new(ids.len(), |i: int| showing::shown_task(world.board.tasks[ids[i]]));
    assert forall|m: int| 1 <= m <= n implies exchange::rows_at(
        #[trigger] replies.take(m),
        0,
        tasks::list_query(query),
    ) == Ok::<Seq<Seq<(Seq<char>, SqlView)>>, StepView>(found) by {
        assert(replies.take(m)[0] == replies[0]);
    }
    assert(exchange::rows_at(replies.take(1), 0, tasks::list_query(query)) is Ok);
    assert(exchange::rows_at(replies.take(n), 0, tasks::list_query(query)) is Ok);
    assert(h(replies.take(1)) == Err::<Seq<JsonView>, StepView>(
        StepView::Ask(ActionView::Read(tasks::all_relation_queries(listed))),
    ));
    history::lemma_told(h, e, t, world, replies, 1);
    let tables = replies[1]->Tables_0;
    lemma_all_related(world, ids, listed, tables, listed.len() as int);
    assert(listed.take(listed.len() as int) =~= listed);
    let shown = tasks::all_related(listed, tables)->Ok_0;
    assert(tasks::tasks_at(replies, 0, query) == Ok::<Seq<JsonView>, StepView>(shown));
    assert forall|i: int| 0 <= i < shown.len() implies shows_one_asked_for(
        world,
        query,
        #[trigger] shown[i],
    ) by {
        assert(is_shown(world, ids[i], shown[i]));
        assert(world.board.tasks.contains_key(ids[i]));
    }
    assert forall|x: Seq<char>|
        #![trigger world.board.tasks.contains_key(x)]
        world.board.tasks.contains_key(x) && is_asked_for(
            query,
            world.board.tasks[x],
        ) implies is_among(world, x, shown) by {
        let i = choose|i: int|
            0 <= i < found.len() && found[i] == showing::task_row(world.board.tasks[x]);
        assert(world.board.tasks.contains_key(ids[i]));
        lemma_one_row_one_task(world.board, x, ids[i]);
        assert(is_shown(world, ids[i], shown[i]));
    }
}

proof fn lemma_one_row_one_task(board: Board, x: Seq<char>, y: Seq<char>)
    requires
        board.is_sound(),
        board.tasks.contains_key(x),
        board.tasks.contains_key(y),
        showing::task_row(board.tasks[x]) == showing::task_row(board.tasks[y]),
    ensures
        x == y,
{
    reveal(showing::task_row);
    assert(showing::task_row(board.tasks[x])[0].1 == board.tasks[x][0]);
    assert(showing::task_row(board.tasks[y])[0].1 == board.tasks[y][0]);
}

/// What a listing shows has the project and the status that the query names, where they are not
/// empty, and a time of archiving as the query asks for.
pub proof fn law_listed_task_has_what_is_named(
    world: World,
    query: Map<Seq<char>, Seq<char>>,
    value: JsonView,
)
    requires
        world.board.is_sound(),
        shows_one_asked_for(world, query, value),
    ensures
        query.dom().contains("projectId"@) && query["projectId"@].len() > 0 ==> json::text_field(
            value,
            "projectId"@,
        ) == Some(query["projectId"@]),
        query.dom().contains("status"@) && query["status"@].len() > 0 ==> json::text_field(
            value,
            "status"@,
        ) == Some(query["status"@]),
        !query.dom().contains("archived"@) ==> json::field(value, "archivedAt"@) == Some(
            JsonView::Null,
        ),
{
    let x = choose|x: Seq<char>| #[trigger]
        world.board.tasks.contains_key(x) && is_asked_for(query, world.board.tasks[x]) && is_shown(
            world,
            x,
            value,
        );
    let values = world.board.tasks[x];
    let relations = json::field(value, "relations"@)->0;
    showing::lemma_shown_members(values, "relations"@, relations);
    showing::lemma_shown_field(values, "relations"@, relations, 5);
    reveal(showing::shown_task);
    assert(showing::task_keys()[5] == "status"@);
    assert(rows::of_kind(values[25], showing::task_kinds()[25]) is Some);
}

} // verus!
