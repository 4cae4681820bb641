//! Relations between tasks.
use crate::exchange;
use crate::exchange::{
    ActionView, Reply, ReplyView, Response, ResponseView, SqlValue, SqlView, StatementView, Step,
    StepView,
};
use crate::fields;
use crate::json;
use crate::json::{Json, JsonView};
use crate::request;
use crate::store;
use crate::task_edits;
use crate::tasks;
use crate::text;
use vstd::prelude::*;

verus! {

/// Looks for a task among the ancestors of another.
pub const PARENT_CYCLE: &'static str = "
            WITH RECURSIVE ancestors(id) AS (
              SELECT source_task_id
              FROM task_relations
              WHERE relation_type = 'parent' AND target_task_id = ?1
              UNION
              SELECT task_relations.source_task_id
              FROM task_relations
              JOIN ancestors ON task_relations.target_task_id = ancestors.id
              WHERE task_relations.relation_type = 'parent'
            )
            SELECT 1 FROM ancestors WHERE id = ?2
            ";

pub const DELETE_PARENT: &'static str = "DELETE FROM task_relations WHERE relation_type = 'parent' AND target_task_id = ?1";

pub const INSERT_RELATION: &'static str = "INSERT OR IGNORE INTO task_relations (relation_type, source_task_id, target_task_id, created_at) VALUES (?1, ?2, ?3, ?4)";

pub const DELETE_RELATION: &'static str = "DELETE FROM task_relations WHERE relation_type = ?1 AND source_task_id = ?2 AND target_task_id = ?3";

/// How a relation of a task to another is stored: its type, its source and its target.
pub open spec fn endpoints(
    relation_type: Seq<char>,
    task_id: Seq<char>,
    related_task_id: Seq<char>,
) -> Result<(Seq<char>, Seq<char>, Seq<char>), Seq<char>> {
    if relation_type == "parent"@ {
        Ok(("parent"@, related_task_id, task_id))
    } else if relation_type == "blocks"@ {
        Ok(("blocks"@, task_id, related_task_id))
    } else if relation_type == "blocked_by"@ {
        Ok(("blocks"@, related_task_id, task_id))
    } else if relation_type == "related"@ {
        if text::precedes(task_id, related_task_id) {
            Ok(("related"@, task_id, related_task_id))
        } else {
            Ok(("related"@, related_task_id, task_id))
        }
    } else {
        Err("invalid relation type"@)
    }
}

/// Finds under which type and between which ends a relation is stored.
pub fn relation_endpoints<'a>(relation_type: &str, task_id: &'a str, related_task_id: &'a str) -> (r:
    Result<(&'static str, &'a str, &'a str), String>)
    ensures
        exchange::says(r, endpoints(relation_type@, task_id@, related_task_id@)),
{
    if text::same(relation_type, "parent") {
        Ok(("parent", related_task_id, task_id))
    } else if text::same(relation_type, "blocks") {
        Ok(("blocks", task_id, related_task_id))
    } else if text::same(relation_type, "blocked_by") {
        Ok(("blocks", related_task_id, task_id))
    } else if text::same(relation_type, "related") {
        if text::before(task_id, related_task_id) {
            Ok(("related", task_id, related_task_id))
        } else {
            Ok(("related", related_task_id, task_id))
        }
    } else {
        Err("invalid relation type".to_owned())
    }
}

/// Two tasks are stored as related in one way only, whichever of them the relation starts from, and
/// with the first of the two identifiers as the source; that one blocks another is stored as that
/// the other is blocked by it.
pub proof fn law_one_way_to_store_a_relation(a: Seq<char>, b: Seq<char>)
    requires
        a != b,
    ensures
        endpoints("related"@, a, b) == endpoints("related"@, b, a),
        endpoints("related"@, a, b) is Ok,
        text::precedes((endpoints("related"@, a, b)->Ok_0).1, (endpoints("related"@, a, b)->Ok_0).2),
        endpoints("blocks"@, a, b) == endpoints("blocked_by"@, b, a),
{
    text::lemma_precedes_total(a, b);
    reveal_strlit("related");
    reveal_strlit("parent");
    reveal_strlit("blocks");
    reveal_strlit("blocked_by");
    assert("related"@[0] != "parent"@[0]);
    assert("related"@[0] != "blocks"@[0]);
    assert("related"@[0] != "blocked_by"@[0]);
    assert("blocks"@[0] != "parent"@[0]);
    assert("blocked_by"@[0] != "parent"@[0]);
    assert("blocks"@.len() != "blocked_by"@.len());
}

/// What stands in the path of a relation: a task, a type of relation and another task.
pub open spec fn relation_path(path: Seq<char>) -> Result<
    Option<(Seq<char>, Seq<char>, Seq<char>)>,
    Seq<char>,
> {
    if !text::has_prefix(path, "/api/tasks/"@) {
        Ok(None)
    } else {
        let parts = text::split_spec(path.skip("/api/tasks/"@.len() as int), '/');
        if parts.len() != 4 || parts[1] != "relations"@ {
            Ok(None)
        } else {
            match request::segment(parts[0], "task id"@) {
                Err(m) => Err(m),
                Ok(task_id) => match request::segment(parts[2], "relation type"@) {
                    Err(m) => Err(m),
                    Ok(relation_type) => match request::segment(parts[3], "related task id"@) {
                        Err(m) => Err(m),
                        Ok(related_task_id) => Ok(Some((task_id, relation_type, related_task_id))),
                    },
                },
            }
        }
    }
}

/// Reads the identifiers and the type that the path of a relation names.
pub fn task_relation_path(path: &str) -> (r: Result<Option<(String, String, String)>, String>)
    ensures
        exchange::says(r, relation_path(path@)),
{
    let rest = match text::strip_prefix(path, "/api/tasks/") {
        Some(rest) => rest,
        None => {
            return Ok(None);
        },
    };
    let parts = text::split(&rest, '/');
    proof {
        assert(parts.deep_view().len() == parts@.len());
    }
    if parts.len() != 4 || !text::same(&parts[1], "relations") {
        return Ok(None);
    }
    let task_id = request::decode_route_segment(&parts[0], "task id")?;
    let relation_type = request::decode_route_segment(&parts[2], "relation type")?;
    let related_task_id = request::decode_route_segment(&parts[3], "related task id")?;
    Ok(Some((task_id, relation_type, related_task_id)))
}

/// That there is no related task.
pub open spec fn related_not_found() -> ResponseView {
    exchange::refusal(404, "TASK_NOT_FOUND"@, "Related task not found"@)
}

/// The two tasks of a relation that a request changes.
pub struct Pair {
    pub task_id: String,
    pub related_task_id: String,
    pub version: i64,
}

pub struct PairView {
    pub task_id: Seq<char>,
    pub related_task_id: Seq<char>,
    pub version: int,
}

impl View for Pair {
    type V = PairView;

    open spec fn view(&self) -> PairView {
        PairView {
            task_id: self.task_id@,
            related_task_id: self.related_task_id@,
            version: self.version as int,
        }
    }
}

impl DeepView for Pair {
    type V = PairView;

    open spec fn deep_view(&self) -> PairView {
        self@
    }
}

/// The two tasks of a relation: the first in the version that the request expects, both in one
/// project, and not the same task; and the place of the next reply.
pub open spec fn pair_at(
    replies: Seq<ReplyView>,
    id: Seq<char>,
    related_id: Seq<char>,
    body: JsonView,
) -> Result<(PairView, int), StepView> {
    match tasks::task_at(replies, 0, id) {
        Err(s) => Err(s),
        Ok((None, _)) => Err(StepView::Answer(task_edits::task_not_found())),
        Ok((Some(task), next)) => match tasks::task_at(replies, next, related_id) {
            Err(s) => Err(s),
            Ok((None, _)) => Err(StepView::Answer(related_not_found())),
            Ok((Some(related), behind)) => match fields::expected_version(body) {
                Err(m) => Err(StepView::Fail(m)),
                Ok(version) => if json::integer_field(task, "version"@) != Some(version) {
                    Err(StepView::Answer(task_edits::task_conflict()))
                } else if json::text_field(task, "projectId"@) != json::text_field(
                    related,
                    "projectId"@,
                ) {
                    Err(
                        StepView::Answer(
                            exchange::refusal(
                                400,
                                "CROSS_PROJECT_RELATION"@,
                                "Issue relations must stay within one project"@,
                            ),
                        ),
                    )
                } else {
                    match fields::member_text(task, "id"@) {
                        Err(m) => Err(StepView::Fail(m)),
                        Ok(task_id) => match fields::member_text(related, "id"@) {
                            Err(m) => Err(StepView::Fail(m)),
                            Ok(related_task_id) => if task_id == related_task_id {
                                Err(
                                    StepView::Answer(
                                        exchange::refusal(
                                            400,
                                            "SELF_RELATION"@,
                                            "An issue cannot be related to itself"@,
                                        ),
                                    ),
                                )
                            } else {
                                Ok((PairView { task_id, related_task_id, version }, behind))
                            },
                        },
                    }
                },
            },
        },
    }
}

fn same_optional(a: Option<&String>, b: Option<&String>) -> (r: bool)
    ensures
        r == (a.deep_view() == b.deep_view()),
{
    match (a, b) {
        (Some(x), Some(y)) => text::same(x, y),
        (None, None) => true,
        _ => false,
    }
}

fn read_pair(replies: &Vec<Reply>, id: &str, related_id: &str, body: &Json) -> (r: Result<
    (Pair, usize),
    Step,
>)
    ensures
        exchange::reaches(r, pair_at(replies.deep_view(), id@, related_id@, body@)),
        r is Ok ==> (r->Ok_0).1 <= replies@.len(),
{
    let (found, next) = tasks::get_task(replies, 0, id)?;
    let task = match found {
        Some(task) => task,
        None => {
            return Err(Step::Answer(task_edits::no_task()));
        },
    };
    let (found_related, behind) = tasks::get_task(replies, next, related_id)?;
    let related = match found_related {
        Some(related) => related,
        None => {
            return Err(
                Step::Answer(
                    exchange::api_error(404, "TASK_NOT_FOUND", "Related task not found"),
                ),
            );
        },
    };
    let version: i64 = store::lift(fields::read_version(body))?;
    let matches = match task.integer("version") {
        Some(actual) => actual == version,
        None => false,
    };
    if !matches {
        return Err(Step::Answer(task_edits::conflicting_task()));
    }
    if !same_optional(task.text("projectId"), related.text("projectId")) {
        return Err(
            Step::Answer(
                exchange::api_error(
                    400,
                    "CROSS_PROJECT_RELATION",
                    "Issue relations must stay within one project",
                ),
            ),
        );
    }
    let task_id = store::lift(fields::value_string(&task, "id"))?;
    let related_task_id = store::lift(fields::value_string(&related, "id"))?;
    if text::same(&task_id, &related_task_id) {
        return Err(
            Step::Answer(
                exchange::api_error(400, "SELF_RELATION", "An issue cannot be related to itself"),
            ),
        );
    }
    Ok((Pair { task_id, related_task_id, version }, behind))
}

/// The query that looks whether a parent would be its own ancestor.
pub open spec fn cycle_query(child_id: Seq<char>, parent_id: Seq<char>) -> StatementView {
    store::stated(
        PARENT_CYCLE@,
        store::params().push(store::text_param(parent_id)).push(store::text_param(child_id)),
    )
}

/// That a parent would be its own ancestor.
pub open spec fn relation_cycle() -> ResponseView {
    exchange::refusal(409, "RELATION_CYCLE"@, "This parent would create a cycle"@)
}

/// How the way is cleared for a relation to be added: a parent must not be a descendant, and
/// takes the place of the parent before it. The replies start at `at`; the result is the place of
/// the next one.
pub open spec fn cleared(
    replies: Seq<ReplyView>,
    at: int,
    stored_type: Seq<char>,
    pair: PairView,
) -> Result<int, StepView> {
    if stored_type != "parent"@ {
        Ok(at)
    } else {
        match exchange::rows_at(replies, at, cycle_query(pair.task_id, pair.related_task_id)) {
            Err(s) => Err(s),
            Ok(found) => if found.len() > 0 {
                Err(StepView::Answer(relation_cycle()))
            } else {
                match exchange::changed_at(
                    replies,
                    at + 1,
                    store::stated(
                        DELETE_PARENT@,
                        store::params().push(store::text_param(pair.task_id)),
                    ),
                ) {
                    Err(s) => Err(s),
                    Ok(_) => Ok(at + 2),
                }
            },
        }
    }
}

/// Whether a task is among the ancestors of the one that is to be its parent, the reply at `at`.
fn parent_cycle(replies: &Vec<Reply>, at: usize, child_id: &str, parent_id: &str) -> (r: Result<
    bool,
    Step,
>)
    ensures
        match r {
            Ok(b) => exchange::rows_at(
                replies.deep_view(),
                at as int,
                cycle_query(child_id@, parent_id@),
            ) is Ok && b == ((exchange::rows_at(
                replies.deep_view(),
                at as int,
                cycle_query(child_id@, parent_id@),
            )->Ok_0).len() > 0),
            Err(s) => exchange::rows_at(
                replies.deep_view(),
                at as int,
                cycle_query(child_id@, parent_id@),
            ) == Err::<Seq<Seq<(Seq<char>, SqlView)>>, StepView>(s@),
        },
{
    let mut values: Vec<SqlValue> = json::none();
    store::bind_text(&mut values, parent_id);
    store::bind_text(&mut values, child_id);
    let found = exchange::rows(replies, at, store::statement(PARENT_CYCLE, values))?;
    proof {
        assert(found.deep_view().len() == found@.len());
    }
    Ok(found.len() > 0)
}

fn clear_way(replies: &Vec<Reply>, at: usize, stored_type: &str, pair: &Pair) -> (r: Result<
    usize,
    Step,
>)
    requires
        at <= replies@.len(),
    ensures
        match r {
            Ok(next) => cleared(replies.deep_view(), at as int, stored_type@, pair@) == Ok::<
                int,
                StepView,
            >(next as int) && next <= replies@.len(),
            Err(s) => cleared(replies.deep_view(), at as int, stored_type@, pair@) == Err::<
                int,
                StepView,
            >(s@),
        },
{
    let total: usize = replies.len();
    if !text::same(stored_type, "parent") {
        return Ok(at);
    }
    if parent_cycle(replies, at, &pair.task_id, &pair.related_task_id)? {
        return Err(
            Step::Answer(
                exchange::api_error(409, "RELATION_CYCLE", "This parent would create a cycle"),
            ),
        );
    }
    let _ = exchange::changed(replies, at + 1, store::keyed(DELETE_PARENT, &pair.task_id))?;
    Ok(at + 2)
}

/// The statement that adds a relation.
pub open spec fn relation_insert(
    stored: (Seq<char>, Seq<char>, Seq<char>),
    timestamp: Seq<char>,
) -> StatementView {
    store::stated(
        INSERT_RELATION@,
        store::params().push(store::text_param(stored.0)).push(store::text_param(stored.1)).push(
            store::text_param(stored.2),
        ).push(store::text_param(timestamp)),
    )
}

/// The statement that removes a relation.
pub open spec fn relation_delete(stored: (Seq<char>, Seq<char>, Seq<char>)) -> StatementView {
    store::stated(
        DELETE_RELATION@,
        store::params().push(store::text_param(stored.0)).push(store::text_param(stored.1)).push(
            store::text_param(stored.2),
        ),
    )
}

/// How a relation is added or removed. The replies start at `at`; the result is the place of the
/// next one.
pub open spec fn relation_written(
    replies: Seq<ReplyView>,
    at: int,
    stored: (Seq<char>, Seq<char>, Seq<char>),
    pair: PairView,
    adding: bool,
) -> Result<int, StepView> {
    if adding {
        match cleared(replies, at, stored.0, pair) {
            Err(s) => Err(s),
            Ok(next) => match store::now_at(replies, next) {
                Err(s) => Err(s),
                Ok(timestamp) => match exchange::changed_at(
                    replies,
                    next + 1,
                    relation_insert(stored, timestamp),
                ) {
                    Err(s) => Err(s),
                    Ok(inserted) => if inserted != 1 {
                        Err(
                            StepView::Answer(
                                exchange::refusal(
                                    409,
                                    "RELATION_EXISTS"@,
                                    "This issue relation already exists"@,
                                ),
                            ),
                        )
                    } else {
                        Ok(next + 2)
                    },
                },
            },
        }
    } else {
        match exchange::changed_at(replies, at, relation_delete(stored)) {
            Err(s) => Err(s),
            Ok(removed) => if removed != 1 {
                Err(
                    StepView::Answer(
                        exchange::refusal(
                            404,
                            "RELATION_NOT_FOUND"@,
                            "This issue relation does not exist"@,
                        ),
                    ),
                )
            } else {
                Ok(at + 1)
            },
        }
    }
}

fn write_relation(
    replies: &Vec<Reply>,
    at: usize,
    stored: (&str, &str, &str),
    pair: &Pair,
    adding: bool,
) -> (r: Result<usize, Step>)
    requires
        at <= replies@.len(),
    ensures
        match r {
            Ok(next) => relation_written(
                replies.deep_view(),
                at as int,
                (stored.0@, stored.1@, stored.2@),
                pair@,
                adding,
            ) == Ok::<int, StepView>(next as int) && next <= replies@.len(),
            Err(s) => relation_written(
                replies.deep_view(),
                at as int,
                (stored.0@, stored.1@, stored.2@),
                pair@,
                adding,
            ) == Err::<int, StepView>(s@),
        },
{
    let total: usize = replies.len();
    let mut values: Vec<SqlValue> = json::none();
    store::bind_text(&mut values, stored.0);
    store::bind_text(&mut values, stored.1);
    store::bind_text(&mut values, stored.2);
    if adding {
        let next: usize = clear_way(replies, at, stored.0, pair)?;
        let timestamp = store::db_now(replies, next)?;
        store::bind_text(&mut values, &timestamp);
        let inserted: u64 = exchange::changed(
            replies,
            next + 1,
            store::statement(INSERT_RELATION, values),
        )?;
        if inserted != 1 {
            return Err(
                Step::Answer(
                    exchange::api_error(
                        409,
                        "RELATION_EXISTS",
                        "This issue relation already exists",
                    ),
                ),
            );
        }
        Ok(next + 2)
    } else {
        let removed: u64 = exchange::changed(
            replies,
            at,
            store::statement(DELETE_RELATION, values),
        )?;
        if removed != 1 {
            return Err(
                Step::Answer(
                    exchange::api_error(
                        404,
                        "RELATION_NOT_FOUND",
                        "This issue relation does not exist",
                    ),
                ),
            );
        }
        Ok(at + 1)
    }
}

/// The statement that counts a task one version up.
pub open spec fn task_touch(
    thread_id: Option<Seq<char>>,
    timestamp: Seq<char>,
    task_id: Seq<char>,
    version: int,
) -> StatementView {
    store::stated(
        task_edits::TOUCH_TASK@,
        store::params().push(store::optional_param(thread_id)).push(
            store::text_param(timestamp),
        ).push(store::text_param(task_id)).push(SqlView::Integer(version)),
    )
}

/// How the change of a relation ends: the task is counted one version up, and both tasks are shown.
/// The replies start at `at`.
pub open spec fn relation_shown(
    replies: Seq<ReplyView>,
    at: int,
    pair: PairView,
    body: JsonView,
) -> Result<ResponseView, StepView> {
    match fields::text_of(body, "threadId"@, 256) {
        Err(m) => Err(StepView::Fail(m)),
        Ok(thread_id) => match store::now_at(replies, at) {
            Err(s) => Err(s),
            Ok(timestamp) => match exchange::changed_at(
                replies,
                at + 1,
                task_touch(thread_id, timestamp, pair.task_id, pair.version),
            ) {
                Err(s) => Err(s),
                Ok(_) => match tasks::task_at(replies, at + 2, pair.task_id) {
                    Err(s) => Err(s),
                    Ok((task, next)) => match tasks::task_at(replies, next, pair.related_task_id) {
                        Err(s) => Err(s),
                        Ok((related, _)) => Ok(
                            ResponseView::Json(
                                200,
                                JsonView::Object(
                                    json::members().push(("task"@, json::or_null(task))).push(
                                        ("relatedTask"@, json::or_null(related)),
                                    ),
                                ),
                            ),
                        ),
                    },
                },
            },
        },
    }
}

/// Counts a task one version up and shows both tasks of a relation.
fn touch_task(replies: &Vec<Reply>, at: usize, pair: &Pair, body: &Json) -> (r: Result<
    Response,
    Step,
>)
    ensures
        exchange::agrees(r, relation_shown(replies.deep_view(), at as int, pair@, body@)),
{
    let total: usize = replies.len();
    let thread_id = store::lift(fields::string_value(body, "threadId", 256))?;
    let timestamp = store::db_now(replies, at)?;
    let mut values: Vec<SqlValue> = json::none();
    json::put(&mut values, store::sql_optional(thread_id));
    store::bind_text(&mut values, &timestamp);
    store::bind_text(&mut values, &pair.task_id);
    json::put(&mut values, SqlValue::Integer(pair.version));
    let _ = exchange::changed(
        replies,
        at + 1,
        store::statement(task_edits::TOUCH_TASK, values),
    )?;
    let (task, next) = tasks::get_task(replies, at + 2, &pair.task_id)?;
    let (related, _) = tasks::get_task(replies, next, &pair.related_task_id)?;
    let mut members = json::no_members();
    json::member(&mut members, "task", json::null_if_none(task));
    json::member(&mut members, "relatedTask", json::null_if_none(related));
    Ok(Response::Json(200, json::object(members)))
}

/// How the change of a relation goes.
pub open spec fn relation_changed(
    replies: Seq<ReplyView>,
    id: Seq<char>,
    relation_type: Seq<char>,
    related_id: Seq<char>,
    body: JsonView,
    adding: bool,
) -> Result<ResponseView, StepView> {
    match pair_at(replies, id, related_id, body) {
        Err(s) => Err(s),
        Ok((pair, at)) => match endpoints(relation_type, pair.task_id, pair.related_task_id) {
            Err(m) => Err(StepView::Fail(m)),
            Ok(stored) => match relation_written(replies, at, stored, pair, adding) {
                Err(s) => Err(s),
                Ok(next) => relation_shown(replies, next, pair, body),
            },
        },
    }
}

/// Adds or removes a relation.
pub fn change_task_relation(
    replies: &Vec<Reply>,
    id: &str,
    relation_type: &str,
    related_id: &str,
    body: &Json,
    adding: bool,
) -> (r: Result<Response, Step>)
    ensures
        exchange::agrees(
            r,
            relation_changed(
                replies.deep_view(),
                id@,
                relation_type@,
                related_id@,
                body@,
                adding,
            ),
        ),
{
    let (pair, at) = read_pair(replies, id, related_id, body)?;
    let stored = store::lift(
        relation_endpoints(relation_type, &pair.task_id, &pair.related_task_id),
    )?;
    let next: usize = write_relation(replies, at, stored, &pair, adding)?;
    touch_task(replies, next, &pair, body)
}

/// Adds a relation.
pub fn add_task_relation(
    replies: &Vec<Reply>,
    id: &str,
    relation_type: &str,
    related_id: &str,
    body: &Json,
) -> (r: Result<Response, Step>)
    ensures
        exchange::agrees(
            r,
            relation_changed(replies.deep_view(), id@, relation_type@, related_id@, body@, true),
        ),
{
    change_task_relation(replies, id, relation_type, related_id, body, true)
}

/// Removes a relation.
pub fn remove_task_relation(
    replies: &Vec<Reply>,
    id: &str,
    relation_type: &str,
    related_id: &str,
    body: &Json,
) -> (r: Result<Response, Step>)
    ensures
        exchange::agrees(
            r,
            relation_changed(replies.deep_view(), id@, relation_type@, related_id@, body@, false),
        ),
{
    change_task_relation(replies, id, relation_type, related_id, body, false)
}

/// A relation is written only between two tasks that passed every test: they are two, in one
/// project, and the first is in the version that the request expects.
pub proof fn law_relation_write_needs_a_pair(
    replies: Seq<ReplyView>,
    id: Seq<char>,
    relation_type: Seq<char>,
    related_id: Seq<char>,
    body: JsonView,
    adding: bool,
    write: StatementView,
)
    requires
        relation_changed(replies, id, relation_type, related_id, body, adding) == Err::<
            ResponseView,
            StepView,
        >(StepView::Ask(ActionView::Write(write))),
    ensures
        ({
            let task = tasks::task_at(replies, 0, id);
            let related = tasks::task_at(replies, (task->Ok_0).1, related_id);
            &&& task is Ok && (task->Ok_0).0 is Some
            &&& related is Ok && (related->Ok_0).0 is Some
            &&& fields::expected_version(body) is Ok
            &&& json::integer_field((task->Ok_0).0->0, "version"@) == Some(
                fields::expected_version(body)->Ok_0,
            )
            &&& json::text_field((task->Ok_0).0->0, "projectId"@) == json::text_field(
                (related->Ok_0).0->0,
                "projectId"@,
            )
            &&& json::text_field((task->Ok_0).0->0, "id"@) != json::text_field(
                (related->Ok_0).0->0,
                "id"@,
            )
        }),
{
}

/// No parent is written that has the task among its ancestors: the query that looks for it has
/// found nothing before a parent is taken out or put in.
pub proof fn law_no_parent_cycle(
    replies: Seq<ReplyView>,
    id: Seq<char>,
    related_id: Seq<char>,
    body: JsonView,
    write: StatementView,
)
    requires
        relation_changed(replies, id, "parent"@, related_id, body, true) == Err::<
            ResponseView,
            StepView,
        >(StepView::Ask(ActionView::Write(write))),
    ensures
        ({
            let pair = pair_at(replies, id, related_id, body);
            let found = exchange::rows_at(
                replies,
                (pair->Ok_0).1,
                cycle_query((pair->Ok_0).0.task_id, (pair->Ok_0).0.related_task_id),
            );
            pair is Ok && found is Ok && (found->Ok_0).len() == 0
        }),
{
}

} // verus!
