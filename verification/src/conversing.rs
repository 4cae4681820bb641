//! That conversations are stored as they are said, and shown with what belongs to them.
use crate::ai_models;
use crate::ai_runs;
use crate::ai_threads;
use crate::exchange::{ActionView, ReplyView, ResponseView, SettingsView, SqlView, StatementView, StepView};
use crate::fields;
use crate::json;
use crate::json::JsonView;
use crate::rows;
use crate::sending;
use crate::store;
use crate::task_edits;
use crate::task_edits::ChangesView;
use crate::tasks;
use crate::text;
use vstd::prelude::*;

verus! {

/// Whether a text is what a body says, or another where it says nothing.
pub open spec fn is_said_or(
    body: JsonView,
    key: Seq<char>,
    limit: nat,
    other: Seq<char>,
    said: Seq<char>,
) -> bool {
    ||| sending::is_said(body, key, limit, Some(said))
    ||| sending::is_said(body, key, limit, None) && said == other
}

/// Whether a text names one of the three sandboxes.
pub open spec fn is_known_sandbox(s: Seq<char>) -> bool {
    s == "read-only"@ || s == "workspace-write"@ || s == "danger-full-access"@
}

/// A setting is what the configuration says, without the white space around it, where it says
/// anything; else what the environment says, where it says anything; else a default.
pub proof fn law_settings_have_their_order(
    environment: Option<Seq<char>>,
    configured: Option<Seq<char>>,
    default: Seq<char>,
)
    ensures
        forall|s: Seq<char>|
            configured == Some(s) && (#[trigger] text::trimmed(s)).len() > 0 ==> sending::is_inner(
                ai_models::setting(environment, configured, default),
                s,
            ),
        (configured is None || text::trimmed(configured->0).len() == 0) && environment is Some
            && text::trimmed(environment->0).len() > 0 ==> ai_models::setting(
            environment,
            configured,
            default,
        ) == environment->0,
        (configured is None || text::trimmed(configured->0).len() == 0) && (environment is None
            || text::trimmed(environment->0).len() == 0) ==> ai_models::setting(
            environment,
            configured,
            default,
        ) == default,
{
    if configured is Some {
        sending::law_trimmed_text_is_what_stands_inside(configured->0);
    }
}

/// The statement of a new thread: it starts from the project that the body names and from the task
/// that it names, where it names one. Its title is the one that is said, or else the identifier of
/// the task, or else a fixed one; its model and its effort are those that are said, or else the
/// configured ones; its sandbox is one of three, the middle one where none is said.
pub proof fn law_thread_is_written_as_said(replies: Seq<ReplyView>, body: JsonView, w: StatementView)
    requires
        ai_threads::thread_created(replies, body) == Err::<ResponseView, StepView>(
            StepView::Ask(ActionView::Write(w)),
        ),
    ensures
        ({
            let project_id = fields::required_text(body, "projectId"@, 64)->Ok_0;
            let workspace = ai_models::workspace_at(replies, project_id)->Ok_0;
            let issue = ai_threads::issue_at(replies, 2, project_id, body)->Ok_0;
            let defaults = ai_models::configured_at(replies, issue.1)->Ok_0;
            &&& w.sql == "
        INSERT INTO ai_chat_threads (
          id, title, status,
          origin_project_id, origin_project_name, origin_workspace_path,
          origin_issue_id, origin_issue_identifier,
          codex_thread_id, model, reasoning_effort, sandbox,
          created_at, updated_at
        ) VALUES (?1, ?2, 'idle', ?3, ?4, ?5, ?6, ?7, ?8, ?9, ?10, ?11, ?12, ?12)
        "@
            &&& w.params.len() == 12
            &&& sending::is_said(body, "projectId"@, 64, Some(project_id)) && project_id.len() > 0
            &&& w.params[0] is Text && replies[issue.1 + 1] == ReplyView::Text(w.params[0]->Text_0)
            &&& w.params[1] is Text && is_said_or(
                body,
                "title"@,
                160,
                match ai_threads::issue_text(issue.0, "identifier"@) {
                    Some(s) => s,
                    None => "New conversation"@,
                },
                w.params[1]->Text_0,
            )
            &&& w.params[2] == SqlView::Text(workspace.project_id)
            &&& w.params[3] == SqlView::Text(workspace.project_name)
            &&& w.params[4] == SqlView::Text(workspace.workspace_path)
            &&& sending::is_said(body, "issueId"@, 128, None) ==> w.params[5] is Null
                && w.params[6] is Null
            &&& !sending::is_said(body, "issueId"@, 128, None) ==> issue.0 is Some && w.params[5]
                == sending::cell(json::text_field(issue.0->0, "id"@)) && w.params[6]
                == sending::cell(json::text_field(issue.0->0, "identifier"@)) && json::text_field(
                issue.0->0,
                "projectId"@,
            ) == Some(project_id) && json::absent(issue.0->0, "archivedAt"@)
            &&& w.params[7] == sending::cell(sending::held(w.params[7])) && sending::is_said(
                body,
                "codexThreadId"@,
                256,
                sending::held(w.params[7]),
            )
            &&& w.params[8] is Text && is_said_or(
                body,
                "model"@,
                128,
                defaults.0,
                w.params[8]->Text_0,
            )
            &&& w.params[9] is Text && is_said_or(
                body,
                "reasoningEffort"@,
                64,
                defaults.1,
                w.params[9]->Text_0,
            )
            &&& w.params[10] is Text && is_said_or(
                body,
                "sandbox"@,
                64,
                "workspace-write"@,
                w.params[10]->Text_0,
            ) && is_known_sandbox(w.params[10]->Text_0)
            &&& w.params[11] is Text
        }),
{
    sending::law_text_is_read_as_said(body, "projectId"@, 64);
    sending::law_text_is_read_as_said(body, "title"@, 160);
    sending::law_text_is_read_as_said(body, "model"@, 128);
    sending::law_text_is_read_as_said(body, "reasoningEffort"@, 64);
    sending::law_text_is_read_as_said(body, "sandbox"@, 64);
    sending::law_text_is_read_as_said(body, "issueId"@, 128);
    sending::law_text_is_read_as_said(body, "codexThreadId"@, 256);
    let project_id = fields::required_text(body, "projectId"@, 64)->Ok_0;
    let issue = ai_threads::issue_at(replies, 2, project_id, body)->Ok_0;
    assert(ai_models::workspace_at(replies, project_id) is Ok);
    assert(ai_threads::issue_at(replies, 2, project_id, body) is Ok);
    assert(ai_models::configured_at(replies, issue.1) is Ok);
    assert(store::id_at(replies, issue.1 + 1) is Ok);
}

/// A conversation starts in the workspace of a project that is there and not archived, and whose
/// workspace is a directory: by the project's own name and path.
pub proof fn law_workspace_is_that_of_the_project(replies: Seq<ReplyView>, project_id: Seq<char>)
    requires
        ai_models::workspace_at(replies, project_id) is Ok,
    ensures
        ({
            let workspace = ai_models::workspace_at(replies, project_id)->Ok_0;
            let project = crate::projects::project_at(replies, 0, project_id, false);
            &&& project is Ok && project->Ok_0 is Some
            &&& json::text_field(project->Ok_0->0, "id"@) == Some(workspace.project_id)
            &&& json::text_field(project->Ok_0->0, "name"@) == Some(workspace.project_name)
            &&& workspace.workspace_path.len() > 0 ==> json::text_field(
                project->Ok_0->0,
                "workspacePath"@,
            ) == Some(workspace.workspace_path)
            &&& replies.len() >= 2
            &&& replies[1] == ReplyView::Flag(true)
        }),
{
}

/// A column of a thread that an update sets, the key under which it is said, and how long it may be.
pub open spec fn thread_settings() -> Seq<(Seq<char>, Seq<char>, nat)> {
    seq![
        ("title"@, "title"@, 160),
        ("model"@, "model"@, 128),
        ("reasoning_effort"@, "reasoningEffort"@, 64),
        ("sandbox"@, "sandbox"@, 64),
    ]
}

/// The settings of a thread that a body names, the first `n` looked at.
pub open spec fn settings_named(body: JsonView, n: int) -> Seq<(Seq<char>, Seq<char>, nat)>
    decreases n,
{
    if n <= 0 {
        Seq::empty()
    } else if json::field(body, thread_settings()[n - 1].1) is Some {
        settings_named(body, n - 1).push(thread_settings()[n - 1])
    } else {
        settings_named(body, n - 1)
    }
}

/// The assignments of an update that sets columns.
pub open spec fn sets(named: Seq<(Seq<char>, Seq<char>, nat)>) -> Seq<char>
    decreases named.len(),
{
    if named.len() == 0 {
        Seq::empty()
    } else {
        sets(named.drop_last()) + named.last().0 + " = ?, "@
    }
}

/// An update of a thread sets exactly the settings that the body names, each to what is said, and the
/// time of the update, in the thread that is named.
pub proof fn law_thread_change_is_written_as_said(
    replies: Seq<ReplyView>,
    id: Seq<char>,
    body: JsonView,
    w: StatementView,
)
    requires
        ai_threads::thread_updated(replies, id, body) == Err::<ResponseView, StepView>(
            StepView::Ask(ActionView::Write(w)),
        ),
    ensures
        ({
            let named = settings_named(body, 4);
            let n = named.len() as int;
            &&& n > 0
            &&& w.sql == "UPDATE ai_chat_threads SET "@ + sets(named) + "updated_at = ? WHERE id = ?"@
            &&& w.params.len() == n + 2
            &&& forall|i: int|
                0 <= i < n ==> (#[trigger] w.params[i]) is Text && sending::is_said(
                    body,
                    named[i].1,
                    named[i].2,
                    Some(w.params[i]->Text_0),
                ) && w.params[i]->Text_0.len() > 0
            &&& json::field(body, "sandbox"@) is Some ==> w.params[n - 1] is Text
                && is_known_sandbox(w.params[n - 1]->Text_0)
            &&& w.params[n] is Text
            &&& w.params[n + 1] == SqlView::Text(id)
        }),
{
    let changes = ai_threads::thread_changes(body)->Ok_0;
    lemma_thread_changes(body);
    lemma_assignments(changes, settings_named(body, 4));
    let named = settings_named(body, 4);
    reveal_strlit("updated_at = ? WHERE id = ?");
    reveal_strlit("updated_at = ?");
    reveal_strlit(" WHERE id = ?");
    assert("updated_at = ?"@ + " WHERE id = ?"@ =~= "updated_at = ? WHERE id = ?"@);
    assert(w.sql =~= "UPDATE ai_chat_threads SET "@ + sets(named) + "updated_at = ? WHERE id = ?"@);
}

/// Whether changes set the settings that are named to what is said.
pub open spec fn are_said(
    changes: ChangesView,
    body: JsonView,
    named: Seq<(Seq<char>, Seq<char>, nat)>,
) -> bool {
    &&& changes.assignments.len() == named.len()
    &&& changes.values.len() == named.len()
    &&& forall|i: int|
        0 <= i < named.len() ==> #[trigger] changes.assignments[i] == named[i].0 + " = ?"@
    &&& forall|i: int|
        0 <= i < named.len() ==> (#[trigger] changes.values[i]) is Text && sending::is_said(
            body,
            named[i].1,
            named[i].2,
            Some(changes.values[i]->Text_0),
        ) && changes.values[i]->Text_0.len() > 0
}

proof fn lemma_one_setting(
    changes: ChangesView,
    body: JsonView,
    n: int,
    assignment: Seq<char>,
    value: Seq<char>,
)
    requires
        0 < n <= 4,
        are_said(changes, body, settings_named(body, n - 1)),
        json::field(body, thread_settings()[n - 1].1) is Some,
        assignment == thread_settings()[n - 1].0 + " = ?"@,
        fields::required_text(body, thread_settings()[n - 1].1, thread_settings()[n - 1].2) == Ok::<
            Seq<char>,
            Seq<char>,
        >(value),
    ensures
        are_said(changes.with(assignment, SqlView::Text(value)), body, settings_named(body, n)),
{
    let one = thread_settings()[n - 1];
    sending::law_text_is_read_as_said(body, one.1, one.2);
    let before = settings_named(body, n - 1);
    let named = settings_named(body, n);
    assert(named == before.push(one));
    let after = changes.with(assignment, SqlView::Text(value));
    assert forall|i: int| 0 <= i < named.len() implies #[trigger] after.assignments[i] == named[i].0
        + " = ?"@ by {
        if i < before.len() {
            assert(after.assignments[i] == changes.assignments[i]);
        }
    }
    assert forall|i: int| 0 <= i < named.len() implies (#[trigger] after.values[i]) is Text
        && sending::is_said(body, named[i].1, named[i].2, Some(after.values[i]->Text_0))
        && after.values[i]->Text_0.len() > 0 by {
        if i < before.len() {
            assert(after.values[i] == changes.values[i]);
        }
    }
}

proof fn lemma_thread_changes(body: JsonView)
    requires
        ai_threads::thread_changes(body) is Ok,
    ensures
        are_said(ai_threads::thread_changes(body)->Ok_0, body, settings_named(body, 4)),
        json::field(body, "sandbox"@) is Some ==> {
            let values = ai_threads::thread_changes(body)->Ok_0.values;
            values.len() > 0 && values.last() is Text && is_known_sandbox(values.last()->Text_0)
        },
{
    reveal_strlit("title");
    reveal_strlit("title = ?");
    reveal_strlit("model");
    reveal_strlit("model = ?");
    reveal_strlit("reasoning_effort");
    reveal_strlit("reasoning_effort = ?");
    reveal_strlit("sandbox");
    reveal_strlit("sandbox = ?");
    reveal_strlit(" = ?");
    assert("title"@ + " = ?"@ =~= "title = ?"@);
    assert("model"@ + " = ?"@ =~= "model = ?"@);
    assert("reasoning_effort"@ + " = ?"@ =~= "reasoning_effort = ?"@);
    assert("sandbox"@ + " = ?"@ =~= "sandbox = ?"@);
    let none = ChangesView::none();
    assert(settings_named(body, 0) =~= Seq::empty());
    assert(are_said(none, body, settings_named(body, 0)));
    let titled = task_edits::with_required(none, body, "title"@, 160, "title = ?"@)->Ok_0;
    if json::field(body, "title"@) is Some {
        lemma_one_setting(
            none,
            body,
            1,
            "title = ?"@,
            fields::required_text(body, "title"@, 160)->Ok_0,
        );
    }
    assert(are_said(titled, body, settings_named(body, 1)));
    let modelled = task_edits::with_required(titled, body, "model"@, 128, "model = ?"@)->Ok_0;
    if json::field(body, "model"@) is Some {
        lemma_one_setting(
            titled,
            body,
            2,
            "model = ?"@,
            fields::required_text(body, "model"@, 128)->Ok_0,
        );
    }
    assert(are_said(modelled, body, settings_named(body, 2)));
    let weighed = task_edits::with_required(
        modelled,
        body,
        "reasoningEffort"@,
        64,
        "reasoning_effort = ?"@,
    )->Ok_0;
    if json::field(body, "reasoningEffort"@) is Some {
        lemma_one_setting(
            modelled,
            body,
            3,
            "reasoning_effort = ?"@,
            fields::required_text(body, "reasoningEffort"@, 64)->Ok_0,
        );
    }
    assert(are_said(weighed, body, settings_named(body, 3)));
    if json::field(body, "sandbox"@) is Some {
        lemma_one_setting(
            weighed,
            body,
            4,
            "sandbox = ?"@,
            fields::required_text(body, "sandbox"@, 64)->Ok_0,
        );
    }
}

proof fn lemma_assignments(changes: ChangesView, named: Seq<(Seq<char>, Seq<char>, nat)>)
    requires
        changes.assignments.len() == named.len(),
        forall|i: int|
            0 <= i < named.len() ==> #[trigger] changes.assignments[i] == named[i].0 + " = ?"@,
    ensures
        text::joined(changes.assignments.push("updated_at = ?"@), ", "@) == sets(named)
            + "updated_at = ?"@,
{
    lemma_joined(changes.assignments, named, "updated_at = ?"@);
}

proof fn lemma_joined(
    assignments: Seq<Seq<char>>,
    named: Seq<(Seq<char>, Seq<char>, nat)>,
    last: Seq<char>,
)
    requires
        assignments.len() == named.len(),
        forall|i: int| 0 <= i < named.len() ==> #[trigger] assignments[i] == named[i].0 + " = ?"@,
    ensures
        text::joined(assignments.push(last), ", "@) == sets(named) + last,
    decreases named.len(),
{
    let all = assignments.push(last);
    assert(all.drop_last() =~= assignments);
    if named.len() > 0 {
        let before = assignments.drop_last();
        assert forall|i: int| 0 <= i < named.drop_last().len() implies #[trigger] before[i]
            == named.drop_last()[i].0 + " = ?"@ by {
            assert(before[i] == assignments[i]);
        }
        lemma_joined(before, named.drop_last(), assignments.last());
        assert(before.push(assignments.last()) =~= assignments);
        assert(assignments.last() == named.last().0 + " = ?"@);
        reveal_strlit(" = ?, ");
        reveal_strlit(" = ?");
        reveal_strlit(", ");
        assert(" = ?"@ + ", "@ =~= " = ?, "@);
        assert(text::joined(all, ", "@) =~= sets(named) + last);
    } else {
        assert(text::joined(all, ", "@) =~= sets(named) + last);
    }
}

/// A thread is deleted by its identifier, and only where it has no running run.
pub proof fn law_thread_deletion_is_written(replies: Seq<ReplyView>, id: Seq<char>, w: StatementView)
    requires
        ai_threads::thread_deleted(replies, id) == Err::<ResponseView, StepView>(
            StepView::Ask(ActionView::Write(w)),
        ),
    ensures
        w.sql == "DELETE FROM ai_chat_threads WHERE id = ?1"@,
        w.params == seq![SqlView::Text(id)],
        ai_threads::thread_at(replies, 0, id) is Ok,
        (ai_threads::thread_at(replies, 0, id)->Ok_0).0 is Some,
{
    assert(store::params().push(store::text_param(id)) =~= seq![SqlView::Text(id)]);
}

/// A snapshot of a thread shows the thread, its events and its runs, each as they are found for this
/// thread.
pub proof fn law_snapshot_shows_what_belongs_to_the_thread(replies: Seq<ReplyView>, id: Seq<char>)
    requires
        ai_threads::snapshot_shown(replies, id) is Ok,
        ai_threads::thread_at(replies, 0, id) is Ok,
        (ai_threads::thread_at(replies, 0, id)->Ok_0).0 is Some,
    ensures
        ({
            let shown = ai_threads::snapshot_shown(replies, id)->Ok_0;
            let next = (ai_threads::thread_at(replies, 0, id)->Ok_0).1;
            let events = ai_runs::events_at(replies, next, id);
            let runs = ai_runs::runs_at(replies, next + 1, id);
            &&& events is Ok && runs is Ok
            &&& shown == ResponseView::Json(
                200,
                JsonView::Object(
                    seq![
                        ("thread"@, (ai_threads::thread_at(replies, 0, id)->Ok_0).0->0),
                        ("events"@, JsonView::Array(events->Ok_0)),
                        ("runs"@, JsonView::Array(runs->Ok_0)),
                    ],
                ),
            )
        }),
{
    let shown = ai_threads::snapshot_shown(replies, id)->Ok_0;
    let next = (ai_threads::thread_at(replies, 0, id)->Ok_0).1;
    assert(shown->Json_1->Object_0 =~= seq![
        ("thread"@, (ai_threads::thread_at(replies, 0, id)->Ok_0).0->0),
        ("events"@, JsonView::Array(ai_runs::events_at(replies, next, id)->Ok_0)),
        ("runs"@, JsonView::Array(ai_runs::runs_at(replies, next + 1, id)->Ok_0)),
    ]);
}

/// The events of a thread are asked for in the order in which they happened, by the thread alone.
pub proof fn law_events_are_asked_for_by_thread(replies: Seq<ReplyView>, at: int, thread_id: Seq<char>)
    requires
        0 <= at,
        replies.len() == at,
    ensures
        ai_runs::events_at(replies, at, thread_id) == Err::<Seq<JsonView>, StepView>(
            StepView::Ask(
                ActionView::Read(
                    seq![
                        StatementView {
                            sql: "SELECT * FROM ai_chat_events WHERE thread_id = ?1 ORDER BY created_at, rowid"@,
                            params: seq![SqlView::Text(thread_id)],
                        },
                    ],
                ),
            ),
        ),
{
    assert(store::params().push(store::text_param(thread_id)) =~= seq![SqlView::Text(thread_id)]);
}

proof fn lemma_with_runs(
    threads: Seq<JsonView>,
    tables: Seq<Seq<Seq<(Seq<char>, SqlView)>>>,
    n: int,
)
    requires
        0 <= n <= threads.len(),
        ai_threads::with_current_runs(threads.take(n), tables) is Ok,
    ensures
        ({
            let shown = ai_threads::with_current_runs(threads.take(n), tables)->Ok_0;
            &&& shown.len() == n
            &&& forall|i: int|
                0 <= i < n ==> #[trigger] shown[i] == tasks::extended(
                    threads[i],
                    "currentRun"@,
                    if tables[i].len() == 0 {
                        JsonView::Null
                    } else {
                        ai_runs::run_of_row(tables[i][0])->Ok_0
                    },
                )
        }),
    decreases n,
{
    if n > 0 {
        assert(threads.take(n).drop_last() =~= threads.take(n - 1));
        lemma_with_runs(threads, tables, n - 1);
        assert(threads.take(n).last() == threads[n - 1]);
        let before = ai_threads::with_current_runs(threads.take(n - 1), tables)->Ok_0;
        let shown = ai_threads::with_current_runs(threads.take(n), tables)->Ok_0;
        assert(shown == before.push(shown[n - 1]));
        assert forall|i: int| 0 <= i < n implies #[trigger] shown[i] == tasks::extended(
            threads[i],
            "currentRun"@,
            if tables[i].len() == 0 {
                JsonView::Null
            } else {
                ai_runs::run_of_row(tables[i][0])->Ok_0
            },
        ) by {
            if i < n - 1 {
                assert(shown[i] == before[i]);
            }
        }
    }
}

/// The list of threads shows every thread that is found, in the order in which it is found, each with
/// the run that is found running in it, or with none.
pub proof fn law_threads_are_listed_with_their_runs(replies: Seq<ReplyView>)
    requires
        ai_threads::threads_at(replies) is Ok,
    ensures
        replies.len() >= 2,
        replies[0] is Tables && replies[1] is Tables,
        ({
            let shown = ai_threads::threads_at(replies)->Ok_0;
            let found = replies[0]->Tables_0[0];
            let tables = replies[1]->Tables_0;
            let read = |row: Seq<(Seq<char>, SqlView)>| ai_threads::thread_of_row(row);
            let threads = rows::each_row(found, read)->Ok_0;
            &&& rows::each_row(found, read) is Ok
            &&& shown.len() == threads.len()
            &&& forall|i: int|
                0 <= i < shown.len() ==> #[trigger] shown[i] == tasks::extended(
                    threads[i],
                    "currentRun"@,
                    if tables[i].len() == 0 {
                        JsonView::Null
                    } else {
                        ai_runs::run_of_row(tables[i][0])->Ok_0
                    },
                )
        }),
{
    let found = replies[0]->Tables_0[0];
    let read = |row: Seq<(Seq<char>, SqlView)>| ai_threads::thread_of_row(row);
    let threads = rows::leading(found, read);
    assert(rows::each_row(found, read) is Ok);
    assert(threads == rows::each_row(found, read)->Ok_0);
    assert(threads.take(threads.len() as int) =~= threads);
    lemma_with_runs(threads, replies[1]->Tables_0, threads.len() as int);
}

/// The catalog offers the configured model with the configured effort as its default, then the
/// default model with its own, where it is another; every model supports its default effort.
pub proof fn law_catalog_offers_the_configured_model(model: Seq<char>, effort: Seq<char>)
    ensures
        ({
            let models = ai_models::catalog_models(model, effort);
            &&& models.len() == if model == "gpt-5"@ {
                1nat
            } else {
                2nat
            }
            &&& json::text_field(models[0], "slug"@) == Some(model)
            &&& json::text_field(models[0], "displayName"@) == Some(model)
            &&& json::text_field(models[0], "defaultReasoningEffort"@) == Some(effort)
            &&& model != "gpt-5"@ ==> json::text_field(models[1], "slug"@) == Some("gpt-5"@)
                && json::text_field(models[1], "defaultReasoningEffort"@) == Some("medium"@)
        }),
{
    reveal_strlit("slug");
    reveal_strlit("displayName");
    reveal_strlit("description");
    reveal_strlit("defaultReasoningEffort");
    assert("slug"@.len() == 4 && "displayName"@.len() == 11 && "description"@.len() == 11);
    assert("displayName"@[1] == 'i' && "description"@[1] == 'e');
    assert("defaultReasoningEffort"@.len() == 22);
    let own = ai_models::catalog_model(model, effort)->Object_0;
    json::lemma_lookup(own, "slug"@, 0);
    json::lemma_lookup(own, "displayName"@, 1);
    json::lemma_lookup(own, "defaultReasoningEffort"@, 3);
    let other = ai_models::catalog_model("gpt-5"@, "medium"@)->Object_0;
    json::lemma_lookup(other, "slug"@, 0);
    json::lemma_lookup(other, "defaultReasoningEffort"@, 3);
}

/// Without a configuration and an environment the model and the effort are the default ones; the
/// configuration names them under two keys, and the environment by two variables of its own.
pub proof fn law_configured_model_and_effort(settings: SettingsView)
    ensures
        settings.config is None && settings.model is None && settings.effort is None
            ==> ai_models::configured(settings) == ("gpt-5"@, "medium"@),
        settings.config is None && settings.model is Some && text::trimmed(
            settings.model->0,
        ).len() > 0 ==> ai_models::configured(settings).0 == settings.model->0,
        settings.config is None && settings.effort is Some && text::trimmed(
            settings.effort->0,
        ).len() > 0 ==> ai_models::configured(settings).1 == settings.effort->0,
        settings.config is Some ==> ({
            let model = ai_models::toml_text_entry(settings.config->0, "model"@);
            let effort = ai_models::toml_text_entry(
                settings.config->0,
                "model_reasoning_effort"@,
            );
            &&& model is Some && text::trimmed(model->0).len() > 0 ==> sending::is_inner(
                ai_models::configured(settings).0,
                model->0,
            )
            &&& effort is Some && text::trimmed(effort->0).len() > 0 ==> sending::is_inner(
                ai_models::configured(settings).1,
                effort->0,
            )
        }),
{
    if settings.config is Some {
        let model = ai_models::toml_text_entry(settings.config->0, "model"@);
        let effort = ai_models::toml_text_entry(settings.config->0, "model_reasoning_effort"@);
        if model is Some {
            sending::law_trimmed_text_is_what_stands_inside(model->0);
        }
        if effort is Some {
            sending::law_trimmed_text_is_what_stands_inside(effort->0);
        }
    }
}

/// Every model is offered with five efforts, and with its own where it is none of them; a conversation
/// runs in one of three sandboxes.
pub proof fn law_offered_efforts_and_sandboxes(own: Seq<char>)
    ensures
        ({
            let known = seq!["minimal"@, "low"@, "medium"@, "high"@, "xhigh"@];
            &&& known.contains(own) ==> ai_models::efforts(own) == known
            &&& !known.contains(own) ==> ai_models::efforts(own) == known.push(own)
        }),
        ai_models::sandboxes() == seq!["read-only"@, "workspace-write"@, "danger-full-access"@],
        forall|s: Seq<char>| #[trigger]
            ai_models::is_sandbox(s) <==> ai_models::sandboxes().contains(s),
{
    assert(ai_models::known_efforts() =~= seq!["minimal"@, "low"@, "medium"@, "high"@, "xhigh"@]);
    let three = seq!["read-only"@, "workspace-write"@, "danger-full-access"@];
    assert(ai_models::sandboxes() =~= three);
    assert forall|s: Seq<char>| #[trigger] ai_models::is_sandbox(s) <==> three.contains(s) by {
        assert(three[0] == "read-only"@ && three[1] == "workspace-write"@ && three[2]
            == "danger-full-access"@);
    }
}

} // verus!
