//! That the parents of tasks stay a forest.
//!
//! The parents are a map from a task to its parent: `task_relations_one_parent` in the schema, a
//! unique index, admits one parent of a task.
use crate::exchange;
use crate::exchange::{ActionView, ReplyView, ResponseView, SqlView, StatementView, StepView};
use crate::history;
use crate::json::JsonView;
use crate::relations;
use crate::relations::PairView;
use crate::store;
use crate::task_edits;
use vstd::prelude::*;

verus! {

/// Tasks with a parent, and the parent of each.
pub type Parents = Map<Seq<char>, Seq<char>>;

/// The ancestor of a task that is `n` steps away, where there is one.
pub open spec fn above(parents: Parents, task: Seq<char>, n: nat) -> Option<Seq<char>>
    decreases n,
{
    if n == 0 {
        Some(task)
    } else {
        match above(parents, task, (n - 1) as nat) {
            Some(t) => if parents.contains_key(t) {
                Some(parents[t])
            } else {
                None
            },
            None => None,
        }
    }
}

/// Whether a task is an ancestor of another.
pub open spec fn is_ancestor(parents: Parents, ancestor: Seq<char>, task: Seq<char>) -> bool {
    exists|n: nat| n > 0 && #[trigger] above(parents, task, n) == Some(ancestor)
}

/// Whether no task is its own ancestor.
pub open spec fn is_forest(parents: Parents) -> bool {
    forall|task: Seq<char>, n: nat| n > 0 ==> #[trigger] above(parents, task, n) != Some(task)
}

proof fn lemma_above_adds(parents: Parents, task: Seq<char>, middle: Seq<char>, m: nat, n: nat)
    requires
        above(parents, task, m) == Some(middle),
    ensures
        above(parents, task, m + n) == above(parents, middle, n),
    decreases n,
{
    if n > 0 {
        lemma_above_adds(parents, task, middle, m, (n - 1) as nat);
    }
}

proof fn lemma_fewer_parents(parents: Parents, child: Seq<char>, task: Seq<char>, n: nat)
    ensures
        above(parents.remove(child), task, n) is Some ==> above(parents.remove(child), task, n)
            == above(parents, task, n),
    decreases n,
{
    if n > 0 {
        lemma_fewer_parents(parents, child, task, (n - 1) as nat);
    }
}

/// Taking a parent away leaves a forest.
pub proof fn lemma_remove_keeps_forest(parents: Parents, child: Seq<char>)
    requires
        is_forest(parents),
    ensures
        is_forest(parents.remove(child)),
{
    assert forall|task: Seq<char>, n: nat| n > 0 implies #[trigger] above(
        parents.remove(child),
        task,
        n,
    ) != Some(task) by {
        lemma_fewer_parents(parents, child, task, n);
        assert(above(parents, task, n) != Some(task));
    }
}

proof fn lemma_same_before_child(
    parents: Parents,
    child: Seq<char>,
    parent: Seq<char>,
    task: Seq<char>,
    n: nat,
)
    requires
        forall|k: nat|
            k < n ==> #[trigger] above(parents.insert(child, parent), task, k) != Some(child),
    ensures
        above(parents.insert(child, parent), task, n) == above(parents, task, n),
    decreases n,
{
    if n > 0 {
        lemma_same_before_child(parents, child, parent, task, (n - 1) as nat);
        assert(above(parents.insert(child, parent), task, (n - 1) as nat) != Some(child));
    }
}

proof fn lemma_reached_before(
    parents: Parents,
    child: Seq<char>,
    parent: Seq<char>,
    task: Seq<char>,
    n: nat,
)
    requires
        above(parents.insert(child, parent), task, n) == Some(child),
    ensures
        exists|k: nat| k <= n && #[trigger] above(parents, task, k) == Some(child),
    decreases n,
{
    let more = parents.insert(child, parent);
    if exists|k: nat| k < n && #[trigger] above(more, task, k) == Some(child) {
        let k = choose|k: nat| k < n && #[trigger] above(more, task, k) == Some(child);
        lemma_reached_before(parents, child, parent, task, k);
    } else {
        lemma_same_before_child(parents, child, parent, task, n);
    }
}

/// Giving a parent to a task that is neither the parent nor an ancestor of it leaves a forest.
pub proof fn lemma_insert_keeps_forest(parents: Parents, child: Seq<char>, parent: Seq<char>)
    requires
        is_forest(parents),
        child != parent,
        !is_ancestor(parents, child, parent),
    ensures
        is_forest(parents.insert(child, parent)),
{
    let more = parents.insert(child, parent);
    assert forall|task: Seq<char>, n: nat| n > 0 implies #[trigger] above(more, task, n) != Some(
        task,
    ) by {
        if above(more, task, n) == Some(task) {
            if exists|k: nat| k < n && #[trigger] above(more, task, k) == Some(child) {
                let k = choose|k: nat| k < n && #[trigger] above(more, task, k) == Some(child);
                lemma_above_adds(more, task, task, n, k);
                lemma_above_adds(more, task, child, k, n);
                assert(k + n == n + k);
                assert(above(more, child, n) == Some(child));
                assert(above(more, child, 1) == Some(parent)) by {
                    assert(above(more, child, 0) == Some(child));
                }
                lemma_above_adds(more, child, parent, 1, (n - 1) as nat);
                assert(above(more, parent, (n - 1) as nat) == Some(child));
                lemma_reached_before(parents, child, parent, parent, (n - 1) as nat);
                let m = choose|m: nat|
                    m <= n - 1 && #[trigger] above(parents, parent, m) == Some(child);
                assert(m > 0);
                assert(is_ancestor(parents, child, parent));
            } else {
                lemma_same_before_child(parents, child, parent, task, n);
                assert(above(parents, task, n) != Some(task));
            }
        }
    }
}

/// What a statement makes of the parents. A parent that is added where there is one is ignored.
pub open spec fn parents_after(parents: Parents, statement: StatementView) -> Parents {
    let p = statement.params;
    if statement.sql == relations::DELETE_PARENT@ && p.len() == 1 && p[0] is Text {
        parents.remove(p[0]->Text_0)
    } else if statement.sql == relations::INSERT_RELATION@ && p.len() == 4 && p[0]
        == SqlView::Text("parent"@) && p[1] is Text && p[2] is Text {
        if parents.contains_key(p[2]->Text_0) {
            parents
        } else {
            parents.insert(p[2]->Text_0, p[1]->Text_0)
        }
    } else if statement.sql == relations::DELETE_RELATION@ && p.len() == 3 && p[0]
        == SqlView::Text("parent"@) && p[1] is Text && p[2] is Text {
        if parents.contains_key(p[2]->Text_0) && parents[p[2]->Text_0] == p[1]->Text_0 {
            parents.remove(p[2]->Text_0)
        } else {
            parents
        }
    } else {
        parents
    }
}

/// The effect of an action on the parents.
pub open spec fn parent_effect() -> spec_fn(Parents, ActionView) -> Parents {
    |parents: Parents, action: ActionView|
        match action {
            ActionView::Write(statement) => parents_after(parents, statement),
            _ => parents,
        }
}

/// The change of a relation.
pub open spec fn change(
    id: Seq<char>,
    relation_type: Seq<char>,
    related_id: Seq<char>,
    body: JsonView,
    adding: bool,
) -> spec_fn(Seq<ReplyView>) -> Result<ResponseView, StepView> {
    |replies: Seq<ReplyView>|
        relations::relation_changed(replies, id, relation_type, related_id, body, adding)
}

/// What becomes of the parents with the change of a relation.
pub open spec fn parents_become(
    parents: Parents,
    replies: Seq<ReplyView>,
    id: Seq<char>,
    relation_type: Seq<char>,
    related_id: Seq<char>,
    body: JsonView,
    adding: bool,
) -> Parents {
    history::became(
        change(id, relation_type, related_id, body, adding),
        parent_effect(),
        parents,
        replies,
    )
}

/// Whether the query that looks for a task among the ancestors of its new parent tells the truth of
/// the parents, where it was answered.
pub open spec fn query_tells(
    parents: Parents,
    replies: Seq<ReplyView>,
    id: Seq<char>,
    related_id: Seq<char>,
    body: JsonView,
) -> bool {
    match relations::pair_at(replies, id, related_id, body) {
        Ok((pair, at)) => match exchange::rows_at(
            replies,
            at,
            relations::cycle_query(pair.task_id, pair.related_task_id),
        ) {
            Ok(found) => found.len() > 0 <==> is_ancestor(
                parents,
                pair.task_id,
                pair.related_task_id,
            ),
            Err(_) => true,
        },
        Err(_) => true,
    }
}

/// Whether a step asks neither for a change of the store nor for a batch.
pub open spec fn asks_no_change(step: StepView) -> bool {
    match step {
        StepView::Ask(ActionView::Write(_)) => false,
        StepView::Ask(ActionView::Batch(_)) => false,
        _ => true,
    }
}

proof fn lemma_pair_of_first(
    replies: Seq<ReplyView>,
    id: Seq<char>,
    related_id: Seq<char>,
    body: JsonView,
    i: int,
)
    requires
        0 <= i < replies.len(),
    ensures
        ({
            let whole = relations::pair_at(replies, id, related_id, body);
            let first = relations::pair_at(replies.take(i), id, related_id, body);
            &&& first is Err ==> asks_no_change(first->Err_0)
            &&& whole is Err ==> first is Err
            &&& whole is Ok ==> (if i < (whole->Ok_0).1 {
                first is Err
            } else {
                first == whole
            })
            &&& whole is Ok ==> (whole->Ok_0).1 >= 0 && (whole->Ok_0).0.task_id
                != (whole->Ok_0).0.related_task_id
        }),
{
}

proof fn lemma_types()
    ensures
        "blocks"@ != "parent"@,
        "related"@ != "parent"@,
        relations::INSERT_RELATION@ != task_edits::TOUCH_TASK@,
{
    reveal_strlit("blocks");
    reveal_strlit("related");
    reveal_strlit("parent");
    reveal_strlit(
        "INSERT OR IGNORE INTO task_relations (relation_type, source_task_id, target_task_id, created_at) VALUES (?1, ?2, ?3, ?4)",
    );
    reveal_strlit(
        "UPDATE tasks SET thread_id = COALESCE(?1, thread_id), version = version + 1, updated_at = ?2 WHERE id = ?3 AND version = ?4",
    );
    assert("blocks"@[0] == 'b');
    assert("related"@[0] == 'r');
    assert("parent"@[0] == 'p');
    assert(relations::INSERT_RELATION@[0] == 'I');
    assert(task_edits::TOUCH_TASK@[0] == 'U');
}

/// Whether what was done is nothing, or counts a task one version up.
pub open spec fn is_aside(done: Option<ActionView>) -> bool {
    match done {
        Some(ActionView::Write(w)) => w.sql == task_edits::TOUCH_TASK@ && w.params.len() == 4,
        Some(_) => false,
        None => true,
    }
}

#[verifier::spinoff_prover]
#[verifier::rlimit(30)]
proof fn lemma_parent_added_does(
    replies: Seq<ReplyView>,
    id: Seq<char>,
    related_id: Seq<char>,
    body: JsonView,
    pair: PairView,
    at: int,
    i: int,
)
    requires
        relations::pair_at(replies, id, related_id, body) == Ok::<(PairView, int), StepView>(
            (pair, at),
        ),
        0 <= i < replies.len(),
    ensures
        ({
            let h = change(id, "parent"@, related_id, body, true);
            let done = history::done_by(h, replies, i);
            let found = exchange::rows_at(
                replies,
                at,
                relations::cycle_query(pair.task_id, pair.related_task_id),
            );
            let free = found is Ok && (found->Ok_0).len() == 0;
            let timestamp = store::now_at(replies, at + 2)->Ok_0;
            &&& i != at + 1 && i != at + 3 ==> is_aside(done)
            &&& i == at + 1 ==> done is None || free && done == Some(taking(pair.task_id))
            &&& i == at + 3 ==> done is None || free && history::done_by(h, replies, at + 1) is Some
                && done == Some(giving(pair.task_id, pair.related_task_id, timestamp))
            &&& h(replies) is Ok ==> replies.len() > at + 3 && free && replies[at + 1] is Changed
                && (i == at + 1 || i == at + 3 ==> done is Some)
            &&& found is Ok && !free ==> h(replies) == Err::<ResponseView, StepView>(
                StepView::Answer(relations::relation_cycle()),
            )
        }),
{
    lemma_pair_of_first(replies, id, related_id, body, i);
}

#[verifier::spinoff_prover]
#[verifier::rlimit(30)]
proof fn lemma_other_change_does(
    replies: Seq<ReplyView>,
    id: Seq<char>,
    relation_type: Seq<char>,
    related_id: Seq<char>,
    body: JsonView,
    adding: bool,
    pair: PairView,
    at: int,
    i: int,
)
    requires
        relations::pair_at(replies, id, related_id, body) == Ok::<(PairView, int), StepView>(
            (pair, at),
        ),
        !(adding && relation_type == "parent"@),
        0 <= i < replies.len(),
    ensures
        ({
            let h = change(id, relation_type, related_id, body, adding);
            let done = history::done_by(h, replies, i);
            is_aside(done) || (done is Some && match done->0 {
                ActionView::Write(w) => if adding {
                    w.params.len() == 4 && w.params[0] != SqlView::Text("parent"@)
                } else {
                    i == at && w.params.len() == 3
                },
                _ => false,
            })
        }),
{
    lemma_types();
    lemma_pair_of_first(replies, id, related_id, body, i);
}

proof fn lemma_aside_is_quiet(
    handler: spec_fn(Seq<ReplyView>) -> Result<ResponseView, StepView>,
    replies: Seq<ReplyView>,
    i: int,
)
    requires
        is_aside(history::done_by(handler, replies, i)),
    ensures
        history::is_quiet(handler, parent_effect(), replies, i),
{
    lemma_types();
}

proof fn lemma_no_pair_is_quiet(
    replies: Seq<ReplyView>,
    id: Seq<char>,
    relation_type: Seq<char>,
    related_id: Seq<char>,
    body: JsonView,
    adding: bool,
    parents: Parents,
)
    requires
        relations::pair_at(replies, id, related_id, body) is Err,
    ensures
        parents_become(parents, replies, id, relation_type, related_id, body, adding) == parents,
{
    let h = change(id, relation_type, related_id, body, adding);
    let n = replies.len() as int;
    assert forall|i: int| 0 <= i < n implies #[trigger] history::is_quiet(
        h,
        parent_effect(),
        replies,
        i,
    ) by {
        lemma_pair_of_first(replies, id, related_id, body, i);
    }
    history::lemma_start(h, parent_effect(), parents, replies);
    history::lemma_quiet(h, parent_effect(), parents, replies, 0, n);
}

/// The action that takes the parent of a task away.
pub open spec fn taking(task: Seq<char>) -> ActionView {
    ActionView::Write(
        store::stated(
            relations::DELETE_PARENT@,
            store::params().push(store::text_param(task)),
        ),
    )
}

/// The action that gives a task a parent.
pub open spec fn giving(task: Seq<char>, parent: Seq<char>, timestamp: Seq<char>) -> ActionView {
    ActionView::Write(relations::relation_insert(("parent"@, parent, task), timestamp))
}

proof fn lemma_taken_and_given(
    handler: spec_fn(Seq<ReplyView>) -> Result<ResponseView, StepView>,
    parents: Parents,
    replies: Seq<ReplyView>,
    at: int,
    task: Seq<char>,
    parent: Seq<char>,
    timestamp: Seq<char>,
)
    requires
        0 <= at,
        forall|i: int|
            0 <= i < replies.len() && i != at + 1 && i != at + 3 ==> #[trigger] history::is_quiet(
                handler,
                parent_effect(),
                replies,
                i,
            ),
        at + 1 < replies.len() ==> ({
            let done = history::done_by(handler, replies, at + 1);
            done is None || done == Some(taking(task))
        }),
        at + 3 < replies.len() ==> ({
            let done = history::done_by(handler, replies, at + 3);
            done is None || done == Some(giving(task, parent, timestamp))
        }),
    ensures
        ({
            let after = history::became(handler, parent_effect(), parents, replies);
            let taken = at + 1 < replies.len() && history::done_by(handler, replies, at + 1) is Some;
            let given = at + 3 < replies.len() && history::done_by(handler, replies, at + 3) is Some;
            &&& !taken && !given ==> after == parents
            &&& taken && !given ==> after == parents.remove(task)
            &&& taken && given ==> after == parents.insert(task, parent)
        }),
{
    let e = parent_effect();
    let n = replies.len() as int;
    let fewer = parents.remove(task);
    history::lemma_start(handler, e, parents, replies);
    assert(fewer.insert(task, parent) =~= parents.insert(task, parent));
    let early = if n < at + 1 {
        n
    } else {
        at + 1
    };
    history::lemma_quiet(handler, e, parents, replies, 0, early);
    if n > at + 1 {
        history::lemma_step(handler, e, parents, replies, at + 1);
    }
    if n > at + 2 {
        history::lemma_quiet(handler, e, parents, replies, at + 2, at + 3);
    }
    if n > at + 3 {
        history::lemma_step(handler, e, parents, replies, at + 3);
        history::lemma_quiet(handler, e, parents, replies, at + 4, n);
    }
}

proof fn lemma_parent_moves(
    parents: Parents,
    child: Seq<char>,
    parent: Seq<char>,
)
    requires
        is_forest(parents),
        child != parent,
        !is_ancestor(parents, child, parent),
    ensures
        is_forest(parents.remove(child)),
        is_forest(parents.insert(child, parent)),
{
    lemma_remove_keeps_forest(parents, child);
    lemma_insert_keeps_forest(parents, child, parent);
}

proof fn lemma_parent_added(
    parents: Parents,
    replies: Seq<ReplyView>,
    id: Seq<char>,
    related_id: Seq<char>,
    body: JsonView,
    pair: PairView,
    at: int,
)
    requires
        is_forest(parents),
        query_tells(parents, replies, id, related_id, body),
        relations::pair_at(replies, id, related_id, body) == Ok::<(PairView, int), StepView>(
            (pair, at),
        ),
    ensures
        ({
            let after = parents_become(
                parents,
                replies,
                id,
                "parent"@,
                related_id,
                body,
                true,
            );
            let result = relations::relation_changed(
                replies,
                id,
                "parent"@,
                related_id,
                body,
                true,
            );
            let found = exchange::rows_at(
                replies,
                at,
                relations::cycle_query(pair.task_id, pair.related_task_id),
            );
            &&& is_forest(after)
            &&& is_ancestor(parents, pair.task_id, pair.related_task_id) ==> after == parents
            &&& found is Ok && is_ancestor(parents, pair.task_id, pair.related_task_id)
                ==> result == Err::<ResponseView, StepView>(
                StepView::Answer(relations::relation_cycle()),
            )
            &&& result is Ok ==> after == parents.insert(pair.task_id, pair.related_task_id)
        }),
{
    let h = change(id, "parent"@, related_id, body, true);
    let n = replies.len() as int;
    let timestamp = store::now_at(replies, at + 2)->Ok_0;
    if n > 0 {
        lemma_pair_of_first(replies, id, related_id, body, 0);
        lemma_parent_added_does(replies, id, related_id, body, pair, at, 0);
    } else {
        lemma_no_replies_no_pair(replies, id, related_id, body);
    }
    assert forall|i: int| 0 <= i < n && i != at + 1 && i != at + 3 implies #[trigger] history::is_quiet(
        h,
        parent_effect(),
        replies,
        i,
    ) by {
        lemma_parent_added_does(replies, id, related_id, body, pair, at, i);
        lemma_aside_is_quiet(h, replies, i);
    }
    if n > at + 1 {
        lemma_parent_added_does(replies, id, related_id, body, pair, at, at + 1);
    }
    if n > at + 3 {
        lemma_parent_added_does(replies, id, related_id, body, pair, at, at + 3);
    }
    lemma_taken_and_given(
        h,
        parents,
        replies,
        at,
        pair.task_id,
        pair.related_task_id,
        timestamp,
    );
    if !is_ancestor(parents, pair.task_id, pair.related_task_id) {
        lemma_parent_moves(parents, pair.task_id, pair.related_task_id);
    }
}

proof fn lemma_no_replies_no_pair(
    replies: Seq<ReplyView>,
    id: Seq<char>,
    related_id: Seq<char>,
    body: JsonView,
)
    requires
        replies.len() == 0,
    ensures
        relations::pair_at(replies, id, related_id, body) is Err,
{
}

proof fn lemma_other_change(
    parents: Parents,
    replies: Seq<ReplyView>,
    id: Seq<char>,
    relation_type: Seq<char>,
    related_id: Seq<char>,
    body: JsonView,
    adding: bool,
    pair: PairView,
    at: int,
)
    requires
        is_forest(parents),
        relations::pair_at(replies, id, related_id, body) == Ok::<(PairView, int), StepView>(
            (pair, at),
        ),
        !(adding && relation_type == "parent"@),
    ensures
        is_forest(
            parents_become(parents, replies, id, relation_type, related_id, body, adding),
        ),
        adding ==> parents_become(parents, replies, id, relation_type, related_id, body, adding)
            == parents,
{
    let h = change(id, relation_type, related_id, body, adding);
    let e = parent_effect();
    let n = replies.len() as int;
    history::lemma_start(h, e, parents, replies);
    assert forall|i: int| 0 <= i < n && (adding || i != at) implies #[trigger] history::is_quiet(
        h,
        e,
        replies,
        i,
    ) by {
        lemma_other_change_does(
            replies,
            id,
            relation_type,
            related_id,
            body,
            adding,
            pair,
            at,
            i,
        );
        if is_aside(history::done_by(h, replies, i)) {
            lemma_aside_is_quiet(h, replies, i);
        }
    }
    if adding {
        history::lemma_quiet(h, e, parents, replies, 0, n);
    } else {
        if n > 0 {
            lemma_pair_of_first(replies, id, related_id, body, 0);
        }
        let early = if n < at {
            n
        } else {
            at
        };
        history::lemma_quiet(h, e, parents, replies, 0, early);
        if n > at {
            lemma_other_change_does(
                replies,
                id,
                relation_type,
                related_id,
                body,
                adding,
                pair,
                at,
                at,
            );
            history::lemma_step(h, e, parents, replies, at);
            let state = history::became(h, e, parents, replies.take(at + 1));
            assert(is_forest(state)) by {
                let done = history::done_by(h, replies, at);
                if done is Some && !is_aside(done) {
                    let p = (done->0)->Write_0.params;
                    if state != parents {
                        assert(state == parents.remove(p[2]->Text_0));
                        lemma_remove_keeps_forest(parents, p[2]->Text_0);
                    }
                } else {
                    lemma_aside_is_quiet(h, replies, at);
                    assert(history::is_quiet(h, e, replies, at));
                }
            }
            history::lemma_quiet(h, e, parents, replies, at + 1, n);
        }
    }
}

/// The parents stay a forest with the change of a relation, where the query for ancestors tells the
/// truth.
pub proof fn lemma_change_keeps_forest(
    parents: Parents,
    replies: Seq<ReplyView>,
    id: Seq<char>,
    relation_type: Seq<char>,
    related_id: Seq<char>,
    body: JsonView,
    adding: bool,
)
    requires
        is_forest(parents),
        adding && relation_type == "parent"@ ==> query_tells(
            parents,
            replies,
            id,
            related_id,
            body,
        ),
    ensures
        is_forest(
            parents_become(parents, replies, id, relation_type, related_id, body, adding),
        ),
{
    match relations::pair_at(replies, id, related_id, body) {
        Err(_) => {
            lemma_no_pair_is_quiet(
                replies,
                id,
                relation_type,
                related_id,
                body,
                adding,
                parents,
            );
        },
        Ok((pair, at)) => if adding && relation_type == "parent"@ {
            lemma_parent_added(parents, replies, id, related_id, body, pair, at);
        } else {
            lemma_other_change(
                parents,
                replies,
                id,
                relation_type,
                related_id,
                body,
                adding,
                pair,
                at,
            );
        },
    }
}

/// A change of a relation changes the store with statements of one, three or four parameters.
pub proof fn lemma_change_is_short(
    replies: Seq<ReplyView>,
    id: Seq<char>,
    relation_type: Seq<char>,
    related_id: Seq<char>,
    body: JsonView,
    adding: bool,
    i: int,
)
    requires
        0 <= i < replies.len(),
    ensures
        ({
            let done = history::done_by(
                change(id, relation_type, related_id, body, adding),
                replies,
                i,
            );
            match done {
                Some(ActionView::Write(w)) => w.params.len() != 2,
                _ => true,
            }
        }),
{
    lemma_pair_of_first(replies, id, related_id, body, i);
    match relations::pair_at(replies, id, related_id, body) {
        Err(_) => {},
        Ok((pair, at)) => if adding && relation_type == "parent"@ {
            lemma_parent_added_does(replies, id, related_id, body, pair, at, i);
        } else {
            lemma_other_change_does(
                replies,
                id,
                relation_type,
                related_id,
                body,
                adding,
                pair,
                at,
                i,
            );
        },
    }
}

/// The two tasks of a relation are known with no less than the replies from the start.
pub proof fn lemma_pair_comes_later(
    replies: Seq<ReplyView>,
    id: Seq<char>,
    related_id: Seq<char>,
    body: JsonView,
)
    requires
        relations::pair_at(replies, id, related_id, body) is Ok,
    ensures
        0 <= (relations::pair_at(replies, id, related_id, body)->Ok_0).1 <= replies.len(),
{
}

/// Before the two tasks of a relation are known nothing is changed; then the ancestors of a new
/// parent are asked for.
pub proof fn lemma_change_asks_first(
    replies: Seq<ReplyView>,
    id: Seq<char>,
    related_id: Seq<char>,
    body: JsonView,
    pair: PairView,
    at: int,
    i: int,
)
    requires
        relations::pair_at(replies, id, related_id, body) == Ok::<(PairView, int), StepView>(
            (pair, at),
        ),
        0 <= i <= at < replies.len(),
    ensures
        ({
            let h = change(id, "parent"@, related_id, body, true);
            &&& i < at ==> match history::done_by(h, replies, i) {
                Some(ActionView::Write(_)) => false,
                _ => true,
            }
            &&& i == at ==> h(replies.take(i)) == Err::<ResponseView, StepView>(
                StepView::Ask(
                    ActionView::Read(
                        seq![relations::cycle_query(pair.task_id, pair.related_task_id)],
                    ),
                ),
            )
        }),
{
    lemma_pair_of_first(replies, id, related_id, body, i);
}

/// The effect of an action on the versions of tasks, as far as relations change them: the task that
/// a statement counts up is one version up, where it is in the version that the statement names.
pub open spec fn version_effect() -> spec_fn(Map<Seq<char>, int>, ActionView) -> Map<
    Seq<char>,
    int,
> {
    |versions: Map<Seq<char>, int>, action: ActionView|
        match action {
            ActionView::Write(w) => if w.sql == task_edits::TOUCH_TASK@ && w.params.len() == 4
                && w.params[2] is Text && versions.contains_key(w.params[2]->Text_0)
                && w.params[3] == SqlView::Integer(versions[w.params[2]->Text_0]) {
                versions.insert(w.params[2]->Text_0, versions[w.params[2]->Text_0] + 1)
            } else {
                versions
            },
            _ => versions,
        }
}

/// The place of the reply to the statement that counts the task up, where the two tasks are known
/// with the reply at `at`.
pub open spec fn place_of_count(relation_type: Seq<char>, adding: bool, at: int) -> int {
    if !adding {
        at + 2
    } else if relation_type == "parent"@ {
        at + 5
    } else {
        at + 3
    }
}

/// Whether an action counts a task up from a version.
pub open spec fn counts_up(action: ActionView, pair: PairView) -> bool {
    match action {
        ActionView::Write(w) => w.sql == task_edits::TOUCH_TASK@ && w.params.len() == 4
            && w.params[2] == SqlView::Text(pair.task_id) && w.params[3] == SqlView::Integer(
            pair.version,
        ),
        _ => false,
    }
}

#[verifier::spinoff_prover]
#[verifier::rlimit(30)]
proof fn lemma_change_counts(
    replies: Seq<ReplyView>,
    id: Seq<char>,
    relation_type: Seq<char>,
    related_id: Seq<char>,
    body: JsonView,
    adding: bool,
    pair: PairView,
    at: int,
    i: int,
)
    requires
        relations::pair_at(replies, id, related_id, body) == Ok::<(PairView, int), StepView>(
            (pair, at),
        ),
        0 <= i < replies.len(),
    ensures
        ({
            let h = change(id, relation_type, related_id, body, adding);
            let done = history::done_by(h, replies, i);
            let place = place_of_count(relation_type, adding, at);
            &&& 0 <= at
            &&& i != place ==> done is None || match done->0 {
                ActionView::Write(w) => w.sql == relations::INSERT_RELATION@ || w.params.len() != 4,
                _ => false,
            }
            &&& i == place ==> done is None || counts_up(done->0, pair)
            &&& h(replies) is Ok ==> place < replies.len() && (i == place ==> done is Some)
        }),
{
    lemma_types();
    lemma_pair_of_first(replies, id, related_id, body, i);
}

/// A relation that is added or removed counts the task one version up from which it starts, and no
/// other task.
pub proof fn law_only_the_task_is_counted(
    versions: Map<Seq<char>, int>,
    replies: Seq<ReplyView>,
    id: Seq<char>,
    relation_type: Seq<char>,
    related_id: Seq<char>,
    body: JsonView,
    adding: bool,
    pair: PairView,
    at: int,
)
    requires
        relations::pair_at(replies, id, related_id, body) == Ok::<(PairView, int), StepView>(
            (pair, at),
        ),
        versions.contains_key(pair.task_id),
        versions[pair.task_id] == pair.version,
        relations::relation_changed(replies, id, relation_type, related_id, body, adding) is Ok,
    ensures
        history::became(
            change(id, relation_type, related_id, body, adding),
            version_effect(),
            versions,
            replies,
        ) == versions.insert(pair.task_id, pair.version + 1),
{
    let h = change(id, relation_type, related_id, body, adding);
    let e = version_effect();
    let n = replies.len() as int;
    let place = place_of_count(relation_type, adding, at);
    lemma_types();
    history::lemma_start(h, e, versions, replies);
    if n == 0 {
        lemma_no_replies_no_pair(replies, id, related_id, body);
    } else {
        lemma_change_counts(
            replies,
            id,
            relation_type,
            related_id,
            body,
            adding,
            pair,
            at,
            0,
        );
        lemma_change_counts(
            replies,
            id,
            relation_type,
            related_id,
            body,
            adding,
            pair,
            at,
            place,
        );
        assert forall|i: int| 0 <= i < n && i != place implies #[trigger] history::is_quiet(
            h,
            e,
            replies,
            i,
        ) by {
            lemma_change_counts(
                replies,
                id,
                relation_type,
                related_id,
                body,
                adding,
                pair,
                at,
                i,
            );
        }
        history::lemma_quiet(h, e, versions, replies, 0, place);
        history::lemma_step(h, e, versions, replies, place);
        history::lemma_quiet(h, e, versions, replies, place + 1, n);
    }
}

} // verus!
