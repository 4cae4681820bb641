//! What a request says of a task, and that the task is stored and shown so.
use crate::board;
use crate::board::Board;
use crate::editing;
use crate::exchange::{ReplyView, SqlView};
use crate::fields;
use crate::fields::ActorView;
use crate::history;
use crate::json;
use crate::json::JsonView;
use crate::numbering;
use crate::rows;
use crate::showing;
use crate::task_edits;
use crate::tasks;
use crate::text;
use vstd::prelude::*;
use vstd::utf8::*;

verus! {

/// Whether a text is what stands in another from a place on, with nothing but white space around it
/// there and none at its own ends.
pub open spec fn stands_at(inner: Seq<char>, s: Seq<char>, at: int) -> bool {
    &&& 0 <= at && at + inner.len() <= s.len()
    &&& forall|i: int| 0 <= i < inner.len() ==> #[trigger] inner[i] == s[at + i]
    &&& forall|i: int|
        0 <= i < s.len() && !(at <= i < at + inner.len()) ==> text::is_white_space(#[trigger] s[i])
    &&& inner.len() > 0 ==> !text::is_white_space(inner[0]) && !text::is_white_space(inner.last())
}

/// Whether a text is another without the white space around it.
pub open spec fn is_inner(inner: Seq<char>, s: Seq<char>) -> bool {
    exists|at: int| stands_at(inner, s, at)
}

proof fn lemma_start_is_cut(s: Seq<char>) -> (k: int)
    ensures
        0 <= k <= s.len(),
        text::trimmed_start(s) == s.skip(k),
        forall|i: int| 0 <= i < k ==> text::is_white_space(#[trigger] s[i]),
        k < s.len() ==> !text::is_white_space(s[k]),
    decreases s.len(),
{
    if s.len() > 0 && text::is_white_space(s[0]) {
        let k = lemma_start_is_cut(s.drop_first()) + 1;
        assert(s.drop_first().skip(k - 1) =~= s.skip(k));
        assert forall|i: int| 0 <= i < k implies text::is_white_space(#[trigger] s[i]) by {
            if i > 0 {
                assert(s.drop_first()[i - 1] == s[i]);
            }
        }
        k
    } else {
        assert(s.skip(0) =~= s);
        0
    }
}

proof fn lemma_end_is_cut(s: Seq<char>) -> (k: int)
    ensures
        0 <= k <= s.len(),
        text::trimmed_end(s) == s.take(k),
        forall|i: int| k <= i < s.len() ==> text::is_white_space(#[trigger] s[i]),
        k > 0 ==> !text::is_white_space(s[k - 1]),
    decreases s.len(),
{
    if s.len() > 0 && text::is_white_space(s.last()) {
        let k = lemma_end_is_cut(s.drop_last());
        assert(s.drop_last().take(k) =~= s.take(k));
        assert forall|i: int| k <= i < s.len() implies text::is_white_space(#[trigger] s[i]) by {
            if i < s.len() - 1 {
                assert(s.drop_last()[i] == s[i]);
            }
        }
        k
    } else {
        assert(s.take(s.len() as int) =~= s);
        s.len() as int
    }
}

/// A text that is trimmed is left as it is but for the white space around it.
pub proof fn law_trimmed_text_is_what_stands_inside(s: Seq<char>)
    ensures
        is_inner(text::trimmed(s), s),
{
    let k = lemma_start_is_cut(s);
    let rest = s.skip(k);
    let m = lemma_end_is_cut(rest);
    let inner = text::trimmed(s);
    assert(inner == rest.take(m));
    assert forall|i: int| 0 <= i < s.len() && !(k <= i < k + inner.len()) implies
        text::is_white_space(#[trigger] s[i]) by {
        if i >= k {
            assert(rest[i - k] == s[i]);
        }
    }
    if inner.len() > 0 {
        assert(inner[0] == s[k]);
        assert(inner.last() == rest[m - 1]);
    }
    assert(stands_at(inner, s, k));
}

/// Among the plain characters the space, the tab and the line ends are white space, and no other.
pub proof fn law_plain_white_space(c: char)
    requires
        (c as u32) < 0x80,
    ensures
        text::is_white_space(c) <==> c == ' ' || 9 <= (c as u32) <= 13,
{
}

/// Whether a text is what a member of a body says: none where the member is missing or null, else
/// the text without the white space around it, of at most so many bytes.
pub open spec fn is_said(body: JsonView, key: Seq<char>, limit: nat, said: Option<Seq<char>>) -> bool {
    match said {
        None => json::field(body, key) is None || json::field(body, key) == Some(JsonView::Null),
        Some(t) => {
            &&& json::text_field(body, key) is Some
            &&& is_inner(t, json::text_field(body, key)->0)
            &&& encode_utf8(t).len() <= limit
        },
    }
}

/// What is read of a member is what it says. It is refused exactly where it is neither a text nor
/// null, or too long.
pub proof fn law_text_is_read_as_said(body: JsonView, key: Seq<char>, limit: nat)
    ensures
        fields::text_of(body, key, limit) is Ok ==> is_said(
            body,
            key,
            limit,
            fields::text_of(body, key, limit)->Ok_0,
        ),
        json::field(body, key) is None ==> fields::text_of(body, key, limit) is Ok,
        json::field(body, key) == Some(JsonView::Null) ==> fields::text_of(body, key, limit) is Ok,
        json::text_field(body, key) is Some && encode_utf8(
            text::trimmed(json::text_field(body, key)->0),
        ).len() <= limit ==> fields::text_of(body, key, limit) is Ok,
        fields::required_text(body, key, limit) is Ok ==> is_said(
            body,
            key,
            limit,
            Some(fields::required_text(body, key, limit)->Ok_0),
        ) && fields::required_text(body, key, limit)->Ok_0.len() > 0,
        json::text_field(body, key) is Some && encode_utf8(
            text::trimmed(json::text_field(body, key)->0),
        ).len() <= limit && text::trimmed(json::text_field(body, key)->0).len() > 0
            ==> fields::required_text(body, key, limit) is Ok,
{
    match json::field(body, key) {
        Some(JsonView::Text(s)) => {
            law_trimmed_text_is_what_stands_inside(s);
        },
        _ => {},
    }
}

/// Whether an actor is the agent.
pub open spec fn is_agent(actor: ActorView) -> bool {
    &&& actor.kind == "agent"@
    &&& actor.id == "codex-agent"@
    &&& actor.name == "Codex Agent"@
    &&& actor.avatar_url is None
}

/// Whether an actor is the user of the machine.
pub open spec fn is_user(actor: ActorView) -> bool {
    &&& actor.kind == "user"@
    &&& actor.id == "local-user"@
    &&& actor.name == "\u{672c}\u{5730}\u{7528}\u{6237}"@
    &&& actor.avatar_url is None
}

/// A request comes from the agent exactly where its client names itself `taskctl`, and else from the
/// user.
pub proof fn law_sender_is_told_by_the_client(headers: Map<Seq<char>, Seq<char>>)
    ensures
        headers.dom().contains("x-taskboard-client"@) && headers["x-taskboard-client"@]
            == "taskctl"@ ==> is_agent(fields::sender(headers)),
        !headers.dom().contains("x-taskboard-client"@) || headers["x-taskboard-client"@]
            != "taskctl"@ ==> is_user(fields::sender(headers)),
{
}

/// Whether an actor is the one to whom a body assigns a task: whoever sends the request, where no
/// target is named or it is `current-user`, and the agent, where it is `codex-agent`.
pub open spec fn is_assigned(body: JsonView, actor: ActorView, assignee: ActorView) -> bool {
    match json::text_field(body, "assigneeTarget"@) {
        None => assignee == actor,
        Some(target) => {
            ||| target == "current-user"@ && assignee == actor
            ||| target == "codex-agent"@ && is_agent(assignee)
        },
    }
}

/// A task is assigned as the body says it, and any other target is refused.
pub proof fn law_assignee_is_the_one_named(body: JsonView, actor: ActorView)
    ensures
        fields::assignee(body, actor) is Ok ==> is_assigned(
            body,
            actor,
            fields::assignee(body, actor)->Ok_0,
        ),
        fields::assignee(body, actor) is Ok <==> json::text_field(body, "assigneeTarget"@) is None
            || json::text_field(body, "assigneeTarget"@) == Some("current-user"@)
            || json::text_field(body, "assigneeTarget"@) == Some("codex-agent"@),
{
    reveal_strlit("current-user");
    reveal_strlit("codex-agent");
    assert("current-user"@.len() != "codex-agent"@.len());
}

/// Whether a branch, a path and its branch are where a body says that a task is worked on.
pub open spec fn is_located(
    value: Option<JsonView>,
    branch: Option<Seq<char>>,
    path: Option<Seq<char>>,
    worktree_branch: Option<Seq<char>>,
) -> bool {
    match value {
        None => branch is None && path is None && worktree_branch is None,
        Some(JsonView::Null) => branch is None && path is None && worktree_branch is None,
        Some(v) => {
            ||| {
                &&& json::text_field(v, "type"@) == Some("branch"@)
                &&& path is None && worktree_branch is None
                &&& is_said(v, "branch"@, 512, branch) || (branch is None && is_said(
                    v,
                    "branch"@,
                    512,
                    Some(Seq::empty()),
                ))
                &&& branch is Some ==> branch->0.len() > 0
            }
            ||| {
                &&& json::text_field(v, "type"@) == Some("worktree"@)
                &&& branch is None
                &&& is_said(v, "path"@, 4096, path) || (path is None && is_said(
                    v,
                    "path"@,
                    4096,
                    Some(Seq::empty()),
                ))
                &&& path is Some ==> path->0.len() > 0
                &&& is_said(v, "branch"@, 512, worktree_branch)
            }
        },
    }
}

/// Where a task is worked on is read as it is said.
pub proof fn law_development_is_read_as_said(value: Option<JsonView>)
    ensures
        fields::development(value) is Ok ==> is_located(
            value,
            (fields::development(value)->Ok_0).0,
            (fields::development(value)->Ok_0).1,
            (fields::development(value)->Ok_0).2,
        ),
{
    reveal_strlit("branch");
    reveal_strlit("worktree");
    assert("branch"@.len() != "worktree"@.len());
    if let Some(v) = value {
        law_text_is_read_as_said(v, "branch"@, 512);
        law_text_is_read_as_said(v, "path"@, 4096);
        if fields::text_of(v, "branch"@, 512) is Ok {
            match fields::text_of(v, "branch"@, 512)->Ok_0 {
                Some(s) => {
                    if s.len() == 0 {
                        assert(s =~= Seq::empty());
                    }
                },
                None => {},
            }
        }
        if fields::text_of(v, "path"@, 4096) is Ok {
            match fields::text_of(v, "path"@, 4096)->Ok_0 {
                Some(s) => {
                    if s.len() == 0 {
                        assert(s =~= Seq::empty());
                    }
                },
                None => {},
            }
        }
    }
}

/// Whether a text is a day: a year, a month and a day in digits, with hyphens between them.
pub open spec fn is_day(s: Seq<char>) -> bool {
    &&& s.len() == 10
    &&& s[4] == '-' && s[7] == '-'
    &&& '0' <= s[0] <= '9' && '0' <= s[1] <= '9' && '0' <= s[2] <= '9' && '0' <= s[3] <= '9'
    &&& '0' <= s[5] <= '9' && '0' <= s[6] <= '9'
    &&& '0' <= s[8] <= '9' && '0' <= s[9] <= '9'
}

/// Whether a day is the one on which a body says that a task is due.
pub open spec fn is_due(value: Option<JsonView>, due: Option<Seq<char>>) -> bool {
    match due {
        None => value is None || value == Some(JsonView::Null),
        Some(day) => value == Some(JsonView::Text(day)) && is_day(day),
    }
}

/// The day on which a task is due is read as it is said, and any day is accepted.
pub proof fn law_due_date_is_read_as_said(value: Option<JsonView>)
    ensures
        fields::due(value) is Ok ==> is_due(value, fields::due(value)->Ok_0),
        forall|day: Seq<char>|
            value == Some(JsonView::Text(day)) && #[trigger] is_day(day) ==> fields::due(value)
                == Ok::<Option<Seq<char>>, Seq<char>>(Some(day)),
{
    match value {
        Some(JsonView::Text(day)) => {
            if is_day(day) {
                assert forall|i: int| 0 <= i < 10 && i != 4 && i != 7 implies text::is_digit(
                    #[trigger] day[i],
                ) by {}
            }
            if fields::is_date(day) {
                assert(text::is_digit(day[0]) && text::is_digit(day[1]) && text::is_digit(day[2]));
                assert(text::is_digit(day[3]) && text::is_digit(day[5]) && text::is_digit(day[6]));
                assert(text::is_digit(day[8]) && text::is_digit(day[9]));
            }
        },
        _ => {},
    }
}

/// Whether an interval and a unit are how often a body says that a task recurs.
pub open spec fn is_recurring(value: Option<JsonView>, recurrence: Option<(int, Seq<char>)>) -> bool {
    match recurrence {
        None => value is None || value == Some(JsonView::Null),
        Some((interval, unit)) => {
            &&& value is Some
            &&& json::integer_field(value->0, "interval"@) == Some(interval)
            &&& json::text_field(value->0, "unit"@) == Some(unit)
            &&& 1 <= interval <= 365
            &&& unit == "day"@ || unit == "week"@ || unit == "month"@ || unit == "year"@
        },
    }
}

/// How often a task recurs is read as it is said, and what can be said is accepted.
pub proof fn law_recurrence_is_read_as_said(value: Option<JsonView>)
    ensures
        fields::recurring(value) is Ok ==> is_recurring(value, fields::recurring(value)->Ok_0),
        forall|recurrence: Option<(int, Seq<char>)>| #[trigger]
            is_recurring(value, recurrence) && recurrence is Some ==> fields::recurring(value)
                == Ok::<Option<(int, Seq<char>)>, Seq<char>>(recurrence),
{
}

/// Whether a label is what an item says: its text without the white space around it, with at least one
/// character and at most 64 bytes.
pub open spec fn is_label(item: JsonView, label: Seq<char>) -> bool {
    &&& item is Text
    &&& is_inner(label, item->Text_0)
    &&& label.len() > 0
    &&& encode_utf8(label).len() <= 64
}

/// Whether labels are those that a body says: one for each of its items, none of which stands
/// twice.
pub open spec fn are_labels(value: Option<JsonView>, labels: Seq<Seq<char>>) -> bool {
    match value {
        None => labels.len() == 0,
        Some(v) => {
            &&& v is Array
            &&& v->Array_0.len() == labels.len()
            &&& labels.len() <= 20
            &&& forall|i: int|
                0 <= i < labels.len() ==> #[trigger] is_label(v->Array_0[i], labels[i])
            &&& labels.no_duplicates()
        },
    }
}

proof fn lemma_labels(items: Seq<JsonView>)
    requires
        fields::label_list(items) is Ok,
    ensures
        ({
            let labels = fields::label_list(items)->Ok_0;
            &&& items.len() == labels.len()
            &&& forall|i: int|
                0 <= i < labels.len() ==> #[trigger] is_label(items[i], labels[i])
            &&& labels.no_duplicates()
        }),
    decreases items.len(),
{
    if items.len() > 0 {
        let before = items.drop_last();
        lemma_labels(before);
        let earlier = fields::label_list(before)->Ok_0;
        let labels = fields::label_list(items)->Ok_0;
        law_trimmed_text_is_what_stands_inside(items.last()->Text_0);
        assert(labels == earlier.push(text::trimmed(items.last()->Text_0)));
        assert forall|i: int| 0 <= i < labels.len() implies #[trigger] is_label(
            items[i],
            labels[i],
        ) by {
            if i < earlier.len() {
                assert(is_label(before[i], earlier[i]));
            }
        }
        let last = text::trimmed(items.last()->Text_0);
        assert forall|i: int, j: int| 0 <= i < j < labels.len() implies labels[i] != labels[j] by {
            if j == earlier.len() {
                assert(earlier[i] == labels[i]);
                assert(!earlier.contains(last));
            } else {
                assert(earlier[i] == labels[i] && earlier[j] == labels[j]);
            }
        }
    }
}

/// The labels of a task are read as they are said.
pub proof fn law_labels_are_read_as_said(value: Option<JsonView>)
    ensures
        fields::labels_of(value) is Ok ==> are_labels(value, fields::labels_of(value)->Ok_0),
{
    match value {
        Some(JsonView::Array(items)) => {
            if items.len() <= 20 && fields::label_list(items) is Ok {
                lemma_labels(items);
            }
        },
        _ => {},
    }
}

/// A parameter that holds a text or null.
pub open spec fn cell(said: Option<Seq<char>>) -> SqlView {
    match said {
        Some(s) => SqlView::Text(s),
        None => SqlView::Null,
    }
}

/// What a column holds that may be null.
pub open spec fn held(value: SqlView) -> Option<Seq<char>> {
    match value {
        SqlView::Text(s) => Some(s),
        _ => None,
    }
}

/// How often a task recurs by the two columns that hold it.
pub open spec fn held_recurrence(interval: SqlView, unit: SqlView) -> Option<(int, Seq<char>)> {
    match (interval, unit) {
        (SqlView::Integer(i), SqlView::Text(s)) => Some((i, s)),
        _ => None,
    }
}

/// Whether a text stands for labels: it is written of them.
pub open spec fn writes_labels(stored: Seq<char>, labels: Seq<Seq<char>>) -> bool {
    stored == json::json_text(JsonView::Array(Seq::new(labels.len(), |i: int| JsonView::Text(labels[i]))))
}

/// Whether a new task holds what a body says: its texts without the white space around them, with
/// `backlog`, `none` and the project `local` where nothing is said, whoever sends the request as its
/// creator, and whom the body names as its assignee.
#[verifier::opaque]
pub open spec fn is_stored_as_said(body: JsonView, actor: ActorView, values: Seq<SqlView>) -> bool {
    &&& values.len() == 29
    &&& values[2] is Text && (is_said(body, "projectId"@, 64, Some(values[2]->Text_0)) || (is_said(
        body,
        "projectId"@,
        64,
        None,
    ) && values[2] == SqlView::Text("local"@)))
    &&& values[3] is Text && is_said(body, "title"@, 240, Some(values[3]->Text_0))
        && values[3]->Text_0.len() > 0
    &&& values[4] is Text && (is_said(body, "description"@, 100_000, Some(values[4]->Text_0)) || (
    is_said(body, "description"@, 100_000, None) && values[4]->Text_0.len() == 0))
    &&& values[5] == SqlView::Text(
        match json::text_field(body, "status"@) {
            Some(s) => s,
            None => "backlog"@,
        },
    )
    &&& values[6] == SqlView::Text(
        match json::text_field(body, "priority"@) {
            Some(s) => s,
            None => "none"@,
        },
    )
    &&& values[7] is Text && exists|labels: Seq<Seq<char>>| #[trigger]
        are_labels(json::field(body, "labels"@), labels) && writes_labels(values[7]->Text_0, labels)
    &&& values[9] == cell(held(values[9])) && is_said(body, "threadId"@, 256, held(values[9]))
    &&& values[10] == SqlView::Text(actor.kind) && values[11] == SqlView::Text(actor.id)
        && values[12] == SqlView::Text(actor.name) && values[13] == cell(actor.avatar_url)
    &&& values[14] is Text && values[15] is Text && values[16] is Text && values[17] == cell(
        held(values[17]),
    )
    &&& is_assigned(
        body,
        actor,
        ActorView {
            kind: values[14]->Text_0,
            id: values[15]->Text_0,
            name: values[16]->Text_0,
            avatar_url: held(values[17]),
        },
    )
    &&& values[18] == cell(held(values[18])) && is_said(body, "workflowId"@, 128, held(values[18]))
    &&& values[19] == cell(held(values[19])) && values[20] == cell(held(values[20])) && values[21]
        == cell(held(values[21]))
    &&& is_located(
        json::field(body, "developmentContext"@),
        held(values[19]),
        held(values[20]),
        held(values[21]),
    )
    &&& values[22] == cell(held(values[22])) && is_due(
        json::field(body, "dueDate"@),
        held(values[22]),
    )
    &&& is_recurring(
        json::field(body, "recurrence"@),
        held_recurrence(values[23], values[24]),
    )
    &&& values[25] is Null
    &&& values[26] == SqlView::Integer(1)
}

proof fn lemma_sent_is_said(
    id: Seq<char>,
    number: int,
    sort_order: Seq<char>,
    body: JsonView,
    actor: ActorView,
    time: Seq<char>,
)
    requires
        task_edits::outline(body) is Ok,
        task_edits::details(body, actor) is Ok,
        fields::text_of(body, "projectId"@, 64) is Ok,
    ensures
        is_stored_as_said(
            body,
            actor,
            numbering::sent_values(
                id,
                numbering::asked_project(body),
                number,
                task_edits::outline(body)->Ok_0,
                sort_order,
                actor,
                task_edits::details(body, actor)->Ok_0,
                time,
            ),
        ),
{
    reveal(is_stored_as_said);
    let head = task_edits::outline(body)->Ok_0;
    let tail = task_edits::details(body, actor)->Ok_0;
    law_text_is_read_as_said(body, "projectId"@, 64);
    law_text_is_read_as_said(body, "title"@, 240);
    law_text_is_read_as_said(body, "description"@, 100_000);
    law_text_is_read_as_said(body, "threadId"@, 256);
    law_text_is_read_as_said(body, "workflowId"@, 128);
    law_assignee_is_the_one_named(body, actor);
    law_development_is_read_as_said(json::field(body, "developmentContext"@));
    law_due_date_is_read_as_said(json::field(body, "dueDate"@));
    law_recurrence_is_read_as_said(json::field(body, "recurrence"@));
    law_labels_are_read_as_said(json::field(body, "labels"@));
    let labels = fields::labels_of(json::field(body, "labels"@))->Ok_0;
    assert(are_labels(json::field(body, "labels"@), labels));
    assert(labels.map_values(|s: Seq<char>| JsonView::Text(s)) =~= Seq::new(
        labels.len(),
        |i: int| JsonView::Text(labels[i]),
    ));
    assert(writes_labels(head.labels, labels));
    let values = numbering::sent_values(
        id,
        numbering::asked_project(body),
        number,
        head,
        sort_order,
        actor,
        tail,
        time,
    );
    assert(held(values[17]) == tail.assignee.avatar_url);
    assert(held_recurrence(values[23], values[24]) == tail.recurrence);
}

/// Whether a task is shown as assigned to an actor.
pub open spec fn shows_assignee(task: JsonView, assignee: ActorView) -> bool {
    let shown = json::field(task, "assignee"@)->0;
    &&& json::field(task, "assignee"@) is Some
    &&& json::field(shown, "type"@) == Some(JsonView::Text(assignee.kind))
    &&& json::field(shown, "id"@) == Some(JsonView::Text(assignee.id))
    &&& json::field(shown, "name"@) == Some(JsonView::Text(assignee.name))
    &&& json::field(shown, "avatarUrl"@) == Some(
        match assignee.avatar_url {
            Some(url) => JsonView::Text(url),
            None => JsonView::Null,
        },
    )
}

/// The actor in four columns.
pub open spec fn actor_in(values: Seq<SqlView>, k: int) -> ActorView {
    ActorView {
        kind: values[k]->Text_0,
        id: values[k + 1]->Text_0,
        name: values[k + 2]->Text_0,
        avatar_url: held(values[k + 3]),
    }
}

/// A stored task shows the assignee in its columns.
pub proof fn law_assignee_is_shown_as_stored(values: Seq<SqlView>, added: Seq<char>, member: JsonView)
    requires
        showing::is_stored_task(values),
    ensures
        shows_assignee(showing::shown_task(values), actor_in(values, 14)),
        shows_assignee(
            tasks::extended(showing::shown_task(values), added, member),
            actor_in(values, 14),
        ),
{
    reveal(showing::shown_task);
    showing::lemma_shown_field(values, added, member, 14);
    assert(showing::task_keys()[14] == "assignee"@);
    reveal_strlit("type");
    reveal_strlit("id");
    reveal_strlit("name");
    reveal_strlit("avatarUrl");
    assert("type"@[0] != "name"@[0]);
    assert("type"@.len() == 4 && "id"@.len() == 2 && "name"@.len() == 4 && "avatarUrl"@.len() == 9);
    let shown = showing::shown_assignee(values)->Object_0;
    json::lemma_lookup(shown, "type"@, 0);
    json::lemma_lookup(shown, "id"@, 1);
    json::lemma_lookup(shown, "name"@, 2);
    json::lemma_lookup(shown, "avatarUrl"@, 3);
    assert(rows::of_kind(values[14], showing::task_kinds()[14]) is Some);
    assert(rows::of_kind(values[15], showing::task_kinds()[15]) is Some);
    assert(rows::of_kind(values[16], showing::task_kinds()[16]) is Some);
    assert(rows::of_kind(values[17], showing::task_kinds()[17]) is Some);
}

/// A task that is created holds what the body says, and is shown as it is stored. So it is assigned
/// to whoever sends the request, where the body names no target or `current-user`, and to the agent,
/// where it names `codex-agent`.
pub proof fn law_task_is_created_as_said(
    before: Board,
    body: JsonView,
    actor: ActorView,
    replies: Seq<ReplyView>,
)
    requires
        before.is_sound(),
        numbering::is_rising(before),
        history::is_course(
            numbering::creation(body, actor),
            board::board_effect(),
            board::board_tells(),
            before,
            replies,
        ),
        ({
            let result = task_edits::task_created(replies, body, actor);
            result is Ok && result->Ok_0 is Json && result->Ok_0->Json_0 == 201
        }),
    ensures
        ({
            let task = json::field(task_edits::task_created(replies, body, actor)->Ok_0->Json_1, "task"@);
            let after = history::became(
                numbering::creation(body, actor),
                board::board_effect(),
                before,
                replies,
            );
            let id = json::text_field(task->0, "id"@)->0;
            let values = after.tasks[id];
            &&& task is Some
            &&& json::text_field(task->0, "id"@) is Some
            &&& !before.tasks.contains_key(id)
            &&& after.tasks == before.tasks.insert(id, values)
            &&& showing::is_stored_task(values)
            &&& is_stored_as_said(body, actor, values)
            &&& task->0 == tasks::extended(
                showing::shown_task(values),
                "relations"@,
                json::field(task->0, "relations"@)->0,
            )
            &&& shows_assignee(task->0, actor_in(values, 14))
            &&& is_assigned(body, actor, actor_in(values, 14))
        }),
{
    numbering::law_task_is_created_as_sent(before, body, actor, replies);
    let at = numbering::place_of_id(body);
    let project_id = numbering::asked_project(body);
    let number = before.next[project_id];
    let order = numbering::order_of(body, replies);
    let id = replies[at]->Text_0;
    let time = board::time_at(replies, at + 1);
    let related = board::related_at(replies, at + 5);
    let head = task_edits::outline(body)->Ok_0;
    let tail = task_edits::details(body, actor)->Ok_0;
    assert(numbering::creation_fails(before, body, actor) is None);
    let values = numbering::sent_values(id, project_id, number, head, order, actor, tail, time);
    lemma_sent_is_said(id, number, order, body, actor, time);
    numbering::law_task_is_shown_as_sent(id, project_id, number, head, order, actor, tail, time);
    numbering::law_task_is_stored_as_sent(id, project_id, number, head, order, actor, tail, time);
    showing::lemma_shown_members(values, "relations"@, related);
    showing::lemma_added_field(values, "relations"@, related);
    law_assignee_is_shown_as_stored(values, "relations"@, related);
    let shown = tasks::extended(showing::shown_task(values), "relations"@, related);
    let members = json::members().push(("task"@, shown));
    json::lemma_lookup(members, "task"@, 0);
    assert(is_assigned(body, actor, actor_in(values, 14))) by {
        reveal(is_stored_as_said);
    }
}

/// Whether an updated task holds what a body says: each column whose member is there as it is said,
/// and every other as it was, but for the version, which is one more, and the time of the update.
pub open spec fn is_updated_as_said(
    body: JsonView,
    actor: ActorView,
    values: Seq<SqlView>,
    after: Seq<SqlView>,
) -> bool {
    &&& after.len() == 29
    &&& forall|k: int|
        0 <= k < 3 || k == 8 || 10 <= k < 14 || k == 25 || k == 27 ==> #[trigger] after[k]
            == values[k]
    &&& json::field(body, "title"@) is None ==> after[3] == values[3]
    &&& json::field(body, "title"@) is Some ==> after[3] is Text && is_said(
        body,
        "title"@,
        240,
        Some(after[3]->Text_0),
    ) && after[3]->Text_0.len() > 0
    &&& json::field(body, "description"@) is None ==> after[4] == values[4]
    &&& json::field(body, "description"@) is Some ==> after[4] is Text && (is_said(
        body,
        "description"@,
        100_000,
        Some(after[4]->Text_0),
    ) || (is_said(body, "description"@, 100_000, None) && after[4]->Text_0.len() == 0))
    &&& after[5] == match json::text_field(body, "status"@) {
        Some(s) => SqlView::Text(s),
        None => values[5],
    }
    &&& after[6] == match json::text_field(body, "priority"@) {
        Some(s) => SqlView::Text(s),
        None => values[6],
    }
    &&& json::field(body, "labels"@) is None ==> after[7] == values[7]
    &&& json::field(body, "labels"@) is Some ==> after[7] is Text && exists|labels: Seq<Seq<char>>|
        #[trigger] are_labels(json::field(body, "labels"@), labels) && writes_labels(
            after[7]->Text_0,
            labels,
        )
    &&& if is_said(body, "threadId"@, 256, None) {
        after[9] == values[9]
    } else {
        after[9] is Text && is_said(body, "threadId"@, 256, Some(after[9]->Text_0))
    }
    &&& json::field(body, "assigneeTarget"@) is None ==> after[14] == values[14] && after[15]
        == values[15] && after[16] == values[16] && after[17] == values[17]
    &&& json::field(body, "assigneeTarget"@) is Some ==> is_assigned(
        body,
        actor,
        actor_in(after, 14),
    )
    &&& json::field(body, "workflowId"@) is None ==> after[18] == values[18]
    &&& json::field(body, "workflowId"@) is Some ==> after[18] == cell(held(after[18])) && is_said(
        body,
        "workflowId"@,
        128,
        held(after[18]),
    )
    &&& json::field(body, "developmentContext"@) is None ==> after[19] == values[19] && after[20]
        == values[20] && after[21] == values[21]
    &&& json::field(body, "developmentContext"@) is Some ==> is_located(
        json::field(body, "developmentContext"@),
        held(after[19]),
        held(after[20]),
        held(after[21]),
    )
    &&& json::field(body, "dueDate"@) is None ==> after[22] == values[22]
    &&& json::field(body, "dueDate"@) is Some ==> is_due(
        json::field(body, "dueDate"@),
        held(after[22]),
    )
    &&& json::field(body, "recurrence"@) is None ==> after[23] == values[23] && after[24]
        == values[24]
    &&& json::field(body, "recurrence"@) is Some ==> is_recurring(
        json::field(body, "recurrence"@),
        held_recurrence(after[23], after[24]),
    )
    &&& values[26] is Integer ==> after[26] == SqlView::Integer(values[26]->Integer_0 + 1)
}

#[verifier::spinoff_prover]
#[verifier::rlimit(30)]
proof fn lemma_edited_is_said(
    values: Seq<SqlView>,
    body: JsonView,
    actor: ActorView,
    time: Seq<char>,
)
    requires
        showing::is_stored_task(values),
        task_edits::task_changes(body, actor) is Ok,
    ensures
        is_updated_as_said(body, actor, values, editing::edited(values, body, actor, time)),
{
    let after = editing::edited(values, body, actor, time);
    editing::lemma_edited_cells(values, body, actor, time);
    law_text_is_read_as_said(body, "title"@, 240);
    law_text_is_read_as_said(body, "description"@, 100_000);
    law_text_is_read_as_said(body, "threadId"@, 256);
    law_text_is_read_as_said(body, "workflowId"@, 128);
    law_assignee_is_the_one_named(body, actor);
    law_development_is_read_as_said(json::field(body, "developmentContext"@));
    law_due_date_is_read_as_said(json::field(body, "dueDate"@));
    law_recurrence_is_read_as_said(json::field(body, "recurrence"@));
    law_labels_are_read_as_said(json::field(body, "labels"@));
    lemma_changes_are_read(body, actor);
    if json::field(body, "labels"@) is Some {
        let labels = fields::labels_of(json::field(body, "labels"@))->Ok_0;
        assert(are_labels(json::field(body, "labels"@), labels));
        assert(labels.map_values(|s: Seq<char>| JsonView::Text(s)) =~= Seq::new(
            labels.len(),
            |i: int| JsonView::Text(labels[i]),
        ));
        assert(writes_labels(after[7]->Text_0, labels));
    }
    if json::field(body, "assigneeTarget"@) is None {
        assert forall|k: int| 14 <= k < 18 implies #[trigger] after[k] == values[k] by {
            assert(after.subrange(14, 18)[k - 14] == values.subrange(14, 18)[k - 14]);
        }
    }
    if json::field(body, "developmentContext"@) is None {
        assert forall|k: int| 19 <= k < 22 implies #[trigger] after[k] == values[k] by {
            assert(after.subrange(19, 22)[k - 19] == values.subrange(19, 22)[k - 19]);
        }
    }
    if json::field(body, "recurrence"@) is None {
        assert forall|k: int| 23 <= k < 25 implies #[trigger] after[k] == values[k] by {
            assert(after.subrange(23, 25)[k - 23] == values.subrange(23, 25)[k - 23]);
        }
    } else {
        assert(held_recurrence(after[23], after[24]) == fields::recurring(
            json::field(body, "recurrence"@),
        )->Ok_0);
    }
}

proof fn lemma_changes_are_read(body: JsonView, actor: ActorView)
    requires
        task_edits::task_changes(body, actor) is Ok,
    ensures
        json::field(body, "title"@) is Some ==> fields::required_text(body, "title"@, 240) is Ok,
        fields::text_of(body, "description"@, 100_000) is Ok,
        json::field(body, "labels"@) is Some ==> fields::labels_of(json::field(body, "labels"@)) is Ok,
        fields::text_of(body, "threadId"@, 256) is Ok,
        json::field(body, "assigneeTarget"@) is Some ==> fields::assignee(body, actor) is Ok,
        fields::text_of(body, "workflowId"@, 128) is Ok,
        fields::development(json::field(body, "developmentContext"@)) is Ok,
        fields::due(json::field(body, "dueDate"@)) is Ok,
        fields::recurring(json::field(body, "recurrence"@)) is Ok,
{
    reveal(task_edits::task_changes);
}

/// A task that is updated holds what the body says of it, each member that is there and no other.
pub proof fn law_task_is_updated_as_said(
    before: Board,
    key: Seq<char>,
    id: Seq<char>,
    body: JsonView,
    actor: ActorView,
    replies: Seq<ReplyView>,
)
    requires
        before.is_sound(),
        before.names(key, id),
        before.names(id, id),
        history::is_course(
            editing::editing(key, body, actor),
            board::board_effect(),
            board::board_tells(),
            before,
            replies,
        ),
        ({
            let result = task_edits::task_updated(replies, key, body, actor);
            result is Ok && result->Ok_0 is Json && result->Ok_0->Json_0 == 200
        }),
    ensures
        ({
            let task = json::field(
                task_edits::task_updated(replies, key, body, actor)->Ok_0->Json_1,
                "task"@,
            );
            let after = history::became(
                editing::editing(key, body, actor),
                board::board_effect(),
                before,
                replies,
            );
            &&& is_updated_as_said(body, actor, before.tasks[id], after.tasks[id])
            &&& after.tasks == before.tasks.insert(id, after.tasks[id])
            &&& task is Some
            &&& task->0 == tasks::extended(
                showing::shown_task(after.tasks[id]),
                "relations"@,
                json::field(task->0, "relations"@)->0,
            )
            &&& shows_assignee(task->0, actor_in(after.tasks[id], 14))
        }),
{
    editing::law_update_leaves_the_rest_alone(before, key, id, body, actor, replies);
    assert(before.is_named(key, id));
    let values = before.tasks[id];
    assert(editing::editing_fails(body, actor, values) is None) by {
        let failed = editing::editing_fails(body, actor, values);
        if failed is Some && failed->0 is Ok {
            assert(failed->0->Ok_0->Json_0 == 400);
        }
    }
    let time = board::time_at(replies, 2);
    lemma_edited_is_said(values, body, actor, time);
    let edited = editing::edited(values, body, actor, time);
    let after = before.with_task(id, edited);
    assert(after.tasks.contains_key(id));
    let related = board::related_at(replies, 5);
    showing::lemma_added_field(edited, "relations"@, related);
    law_assignee_is_shown_as_stored(edited, "relations"@, related);
    let members = json::members().push(("task"@, board::task_shown(after, id, replies, 5)));
    json::lemma_lookup(members, "task"@, 0);
}

/// A task is in one of seven states and has one of five priorities; every other is refused.
pub proof fn law_states_and_priorities(s: Seq<char>)
    ensures
        fields::status_spec(s) is Ok <==> s == "backlog"@ || s == "todo"@ || s == "in_progress"@
            || s == "in_review"@ || s == "blocked"@ || s == "done"@ || s == "canceled"@,
        fields::status_spec(s) is Ok ==> fields::status_spec(s)->Ok_0 == s,
        fields::priority_spec(s) is Ok <==> s == "none"@ || s == "urgent"@ || s == "high"@ || s
            == "medium"@ || s == "low"@,
        fields::priority_spec(s) is Ok ==> fields::priority_spec(s)->Ok_0 == s,
{
}

/// Labels are shown as they are stored, and as none where what is stored cannot be read.
pub proof fn law_labels_are_shown_as_stored(raw: Seq<char>)
    ensures
        json::json_document(encode_utf8(raw)) matches Some(labels) ==> tasks::shown_labels(
            JsonView::Text(raw),
        ) == labels,
        json::json_document(encode_utf8(raw)) is None ==> tasks::shown_labels(JsonView::Text(raw))
            == JsonView::Array(Seq::empty()),
{
}

} // verus!
