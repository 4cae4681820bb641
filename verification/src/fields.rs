//! The fields of request bodies: what is accepted in them and what they say.
use crate::exchange::says;
use crate::json;
use crate::json::{Json, JsonView};
use crate::request::HttpRequest;
use crate::text;
use vstd::prelude::*;
use vstd::utf8::*;

verus! {

/// The project that is always there.
pub const DEFAULT_PROJECT_ID: &'static str = "local";

/// A message that starts with the name of a field.
fn message(key: &str, rest: &str) -> (r: String)
    ensures
        r@ == key@ + rest@,
{
    let mut m = key.to_owned();
    m.append(rest);
    m
}

/// The text of a field without the white space around it, of at most `limit` bytes; `None` where
/// the field is missing or null.
pub open spec fn text_of(body: JsonView, key: Seq<char>, limit: nat) -> Result<
    Option<Seq<char>>,
    Seq<char>,
> {
    match json::field(body, key) {
        None => Ok(None),
        Some(JsonView::Null) => Ok(None),
        Some(JsonView::Text(s)) => if encode_utf8(text::trimmed(s)).len() > limit {
            Err(key + " is too long"@)
        } else {
            Ok(Some(text::trimmed(s)))
        },
        Some(_) => Err(key + " must be a string"@),
    }
}

/// Reads the text of a field.
pub fn string_value(body: &Json, key: &str, limit: usize) -> (r: Result<Option<String>, String>)
    ensures
        says(r, text_of(body@, key@, limit as nat)),
{
    match body.get(key) {
        None => Ok(None),
        Some(Json::Null) => Ok(None),
        Some(Json::Text(s)) => {
            let trimmed = text::trim(s);
            if text::byte_len(&trimmed) > limit {
                Err(message(key, " is too long"))
            } else {
                Ok(Some(trimmed))
            }
        },
        Some(_) => Err(message(key, " must be a string")),
    }
}

/// The text of a field that must be there and must not be empty.
pub open spec fn required_text(body: JsonView, key: Seq<char>, limit: nat) -> Result<
    Seq<char>,
    Seq<char>,
> {
    match text_of(body, key, limit) {
        Err(m) => Err(m),
        Ok(None) => Err(key + " is required"@),
        Ok(Some(s)) => if s.len() == 0 {
            Err(key + " cannot be empty"@)
        } else {
            Ok(s)
        },
    }
}

/// Reads the text of a field that must be there and must not be empty.
pub fn required_string(body: &Json, key: &str, limit: usize) -> (r: Result<String, String>)
    ensures
        says(r, required_text(body@, key@, limit as nat)),
{
    match string_value(body, key, limit)? {
        None => Err(message(key, " is required")),
        Some(s) => if s.as_str().is_empty() {
            Err(message(key, " cannot be empty"))
        } else {
            Ok(s)
        },
    }
}

/// The text of a field as it was sent, which must be there.
pub open spec fn plain_text(body: JsonView, key: Seq<char>) -> Result<Seq<char>, Seq<char>> {
    match json::text_field(body, key) {
        Some(s) => Ok(s),
        None => Err(key + " is required"@),
    }
}

/// Reads the text of a field as it was sent.
pub fn required_body_str<'a>(body: &'a Json, key: &str) -> (r: Result<&'a String, String>)
    ensures
        says(r, plain_text(body@, key@)),
{
    match body.text(key) {
        Some(s) => Ok(s),
        None => Err(message(key, " is required")),
    }
}

/// The text of a member of a stored value, which must be there.
pub open spec fn member_text(value: JsonView, key: Seq<char>) -> Result<Seq<char>, Seq<char>> {
    match json::text_field(value, key) {
        Some(s) => Ok(s),
        None => Err(key + " is missing"@),
    }
}

/// Reads the text of a member of a stored value.
pub fn value_string(value: &Json, key: &str) -> (r: Result<String, String>)
    ensures
        says(r, member_text(value@, key@)),
{
    match value.text(key) {
        Some(s) => Ok(s.clone()),
        None => Err(message(key, " is missing")),
    }
}

/// The positive integer of a field.
pub open spec fn positive(body: JsonView, key: Seq<char>, required: bool) -> Result<
    Option<int>,
    Seq<char>,
> {
    match json::integer_field(body, key) {
        Some(i) => if i > 0 {
            Ok(Some(i))
        } else {
            Err(key + " must be positive"@)
        },
        None => if required {
            Err(key + " is required"@)
        } else {
            Ok(None)
        },
    }
}

/// Reads the positive integer of a field.
pub fn positive_i64(body: &Json, key: &str, required: bool) -> (r: Result<Option<i64>, String>)
    ensures
        match r {
            Ok(Some(i)) => positive(body@, key@, required) == Ok::<Option<int>, Seq<char>>(
                Some(i as int),
            ),
            Ok(None) => positive(body@, key@, required) == Ok::<Option<int>, Seq<char>>(None),
            Err(m) => positive(body@, key@, required) == Err::<Option<int>, Seq<char>>(m@),
        },
{
    match body.integer(key) {
        Some(i) => if i > 0 {
            Ok(Some(i))
        } else {
            Err(message(key, " must be positive"))
        },
        None => if required {
            Err(message(key, " is required"))
        } else {
            Ok(None)
        },
    }
}

/// The version that a body expects of what it changes.
pub open spec fn expected_version(body: JsonView) -> Result<int, Seq<char>> {
    match positive(body, "version"@, true) {
        Err(m) => Err(m),
        Ok(Some(i)) => Ok(i),
        Ok(None) => Ok(0),
    }
}

/// Reads the version that a body expects.
pub fn read_version(body: &Json) -> (r: Result<i64, String>)
    ensures
        match r {
            Ok(i) => expected_version(body@) == Ok::<int, Seq<char>>(i as int),
            Err(m) => expected_version(body@) == Err::<int, Seq<char>>(m@),
        },
{
    match positive_i64(body, "version", true)? {
        Some(i) => Ok(i),
        None => Ok(0),
    }
}

/// The states of a task.
pub open spec fn is_status(s: Seq<char>) -> bool {
    s == "backlog"@ || s == "todo"@ || s == "in_progress"@ || s == "in_review"@ || s == "blocked"@
        || s == "done"@ || s == "canceled"@
}

/// A state of a task, or the message that it is none.
pub open spec fn status_spec(s: Seq<char>) -> Result<Seq<char>, Seq<char>> {
    if is_status(s) {
        Ok(s)
    } else {
        Err("invalid task status"@)
    }
}

/// Accepts a state of a task.
pub fn task_status<'a>(value: &'a str) -> (r: Result<&'a str, String>)
    ensures
        says(r, status_spec(value@)),
{
    if text::same(value, "backlog") || text::same(value, "todo") || text::same(value, "in_progress")
        || text::same(value, "in_review") || text::same(value, "blocked") || text::same(
        value,
        "done",
    ) || text::same(value, "canceled") {
        Ok(value)
    } else {
        Err("invalid task status".to_owned())
    }
}

/// The priorities of a task.
pub open spec fn is_priority(s: Seq<char>) -> bool {
    s == "none"@ || s == "urgent"@ || s == "high"@ || s == "medium"@ || s == "low"@
}

/// A priority of a task, or the message that it is none.
pub open spec fn priority_spec(s: Seq<char>) -> Result<Seq<char>, Seq<char>> {
    if is_priority(s) {
        Ok(s)
    } else {
        Err("invalid task priority"@)
    }
}

/// Accepts a priority of a task.
pub fn task_priority<'a>(value: &'a str) -> (r: Result<&'a str, String>)
    ensures
        says(r, priority_spec(value@)),
{
    if text::same(value, "none") || text::same(value, "urgent") || text::same(value, "high")
        || text::same(value, "medium") || text::same(value, "low") {
        Ok(value)
    } else {
        Err("invalid task priority".to_owned())
    }
}

/// The labels that items name, each once.
pub open spec fn label_list(items: Seq<JsonView>) -> Result<Seq<Seq<char>>, Seq<char>>
    decreases items.len(),
{
    if items.len() == 0 {
        Ok(Seq::empty())
    } else {
        match label_list(items.drop_last()) {
            Err(m) => Err(m),
            Ok(labels) => match items.last() {
                JsonView::Text(s) => {
                    let label = text::trimmed(s);
                    if label.len() == 0 || encode_utf8(label).len() > 64 {
                        Err("label is invalid"@)
                    } else if labels.contains(label) {
                        Err("labels must be unique"@)
                    } else {
                        Ok(labels.push(label))
                    }
                },
                _ => Err("label must be a string"@),
            },
        }
    }
}

/// The labels that a field names.
pub open spec fn labels_of(value: Option<JsonView>) -> Result<Seq<Seq<char>>, Seq<char>> {
    match value {
        None => Ok(Seq::empty()),
        Some(JsonView::Array(items)) => if items.len() > 20 {
            Err("too many labels"@)
        } else {
            label_list(items)
        },
        Some(_) => Err("labels must be an array"@),
    }
}

/// Labels as a value.
pub open spec fn labels_value(labels: Seq<Seq<char>>) -> JsonView {
    JsonView::Array(labels.map_values(|s: Seq<char>| JsonView::Text(s)))
}

/// The text under which the labels of a field are stored.
pub open spec fn labels_stored(value: Option<JsonView>) -> Result<Seq<char>, Seq<char>> {
    match labels_of(value) {
        Err(m) => Err(m),
        Ok(labels) => Ok(json::json_text(labels_value(labels))),
    }
}

proof fn lemma_label_error_stays(items: Seq<JsonView>, i: int)
    requires
        0 <= i <= items.len(),
        label_list(items.take(i)) is Err,
    ensures
        label_list(items) == label_list(items.take(i)),
    decreases items.len() - i,
{
    if i == items.len() {
        assert(items.take(i) =~= items);
    } else {
        assert(items.take(i + 1).drop_last() =~= items.take(i));
        lemma_label_error_stays(items, i + 1);
    }
}

/// Whether a text stands in a list.
pub fn has_text(list: &Vec<String>, s: &str) -> (r: bool)
    ensures
        r == list.deep_view().contains(s@),
{
    let mut i: usize = 0;
    while i < list.len()
        invariant
            i <= list@.len(),
            forall|k: int| 0 <= k < i ==> list.deep_view()[k] != s@,
        decreases list.len() - i,
    {
        if text::same(&list[i], s) {
            proof {
                assert(list.deep_view()[i as int] == s@);
            }
            return true;
        }
        i = i + 1;
    }
    false
}

fn read_labels(items: &Vec<Json>) -> (r: Result<Vec<String>, String>)
    ensures
        says(r, label_list(json::items_view(items@))),
{
    let ghost all = json::items_view(items@);
    let mut labels: Vec<String> = json::none();
    let mut i: usize = 0;
    proof {
        assert(all.take(0) =~= Seq::empty());
    }
    while i < items.len()
        invariant
            all == json::items_view(items@),
            i <= items@.len(),
            label_list(all.take(i as int)) == Ok::<Seq<Seq<char>>, Seq<char>>(labels.deep_view()),
        decreases items.len() - i,
    {
        proof {
            assert(all.take(i + 1).drop_last() =~= all.take(i as int));
            assert(all.take(i + 1).last() == items@[i as int]@);
            if label_list(all.take(i + 1)) is Err {
                lemma_label_error_stays(all, i + 1);
            }
        }
        match &items[i] {
            Json::Text(s) => {
                let label = text::trim(s);
                if label.as_str().is_empty() || text::byte_len(&label) > 64 {
                    return Err("label is invalid".to_owned());
                }
                if has_text(&labels, &label) {
                    return Err("labels must be unique".to_owned());
                }
                json::put(&mut labels, label);
            },
            _ => {
                return Err("label must be a string".to_owned());
            },
        }
        i = i + 1;
    }
    proof {
        assert(all.take(i as int) =~= all);
    }
    Ok(labels)
}

/// The text under which the labels of a field are stored. It reads back as the labels.
pub fn labels_json(value: Option<&Json>) -> (r: Result<String, String>)
    ensures
        says(r, labels_stored(value.deep_view())),
        r is Ok ==> labels_of(value.deep_view()) is Ok && json::json_document(
            encode_utf8((r->Ok_0)@),
        ) == Some(labels_value(labels_of(value.deep_view())->Ok_0)),
{
    let labels: Vec<String> = match value {
        None => json::none(),
        Some(Json::Array(items)) => {
            proof {
                json::lemma_array_view(*items);
            }
            if items.len() > 20 {
                return Err("too many labels".to_owned());
            }
            read_labels(items)?
        },
        Some(_) => {
            return Err("labels must be an array".to_owned());
        },
    };
    let mut items: Vec<Json> = json::none();
    let mut i: usize = 0;
    let ghost all = labels.deep_view().map_values(|s: Seq<char>| JsonView::Text(s));
    proof {
        assert(all.take(0) =~= Seq::empty());
    }
    while i < labels.len()
        invariant
            all == labels.deep_view().map_values(|s: Seq<char>| JsonView::Text(s)),
            i <= labels@.len(),
            items.deep_view() == all.take(i as int),
        decreases labels.len() - i,
    {
        json::put(&mut items, Json::Text(labels[i].clone()));
        proof {
            assert(all.take(i + 1) =~= all.take(i as int).push(all[i as int]));
        }
        i = i + 1;
    }
    proof {
        assert(all.take(i as int) =~= all);
    }
    let value = json::array(items);
    proof {
        reveal_with_fuel(json::document_shape, 2);
        reveal_with_fuel(json::real_free, 2);
        assert(json::document_shape(value@, json::DEEPEST as nat));
        assert(json::real_free(value@));
    }
    Ok(json::written(&value))
}

/// Who does something: a user or an agent.
pub struct Actor {
    pub kind: &'static str,
    pub id: &'static str,
    pub name: &'static str,
    pub avatar_url: Option<String>,
}

pub struct ActorView {
    pub kind: Seq<char>,
    pub id: Seq<char>,
    pub name: Seq<char>,
    pub avatar_url: Option<Seq<char>>,
}

impl View for Actor {
    type V = ActorView;

    open spec fn view(&self) -> ActorView {
        ActorView {
            kind: self.kind@,
            id: self.id@,
            name: self.name@,
            avatar_url: self.avatar_url.deep_view(),
        }
    }
}

impl DeepView for Actor {
    type V = ActorView;

    open spec fn deep_view(&self) -> ActorView {
        self@
    }
}

impl Actor {
    /// The same actor.
    pub fn copy(&self) -> (r: Actor)
        ensures
            r@ == self@,
    {
        let avatar_url = match &self.avatar_url {
            Some(s) => Some(s.clone()),
            None => None,
        };
        Actor { kind: self.kind, id: self.id, name: self.name, avatar_url }
    }
}

/// The agent.
pub open spec fn agent() -> ActorView {
    ActorView {
        kind: "agent"@,
        id: "codex-agent"@,
        name: "Codex Agent"@,
        avatar_url: None,
    }
}

/// The user of this machine.
pub open spec fn local_user() -> ActorView {
    ActorView {
        kind: "user"@,
        id: "local-user"@,
        name: "\u{672c}\u{5730}\u{7528}\u{6237}"@,
        avatar_url: None,
    }
}

/// The agent.
pub fn codex_actor() -> (r: Actor)
    ensures
        r@ == agent(),
{
    Actor { kind: "agent", id: "codex-agent", name: "Codex Agent", avatar_url: None }
}

/// Who sends a request: the agent, where its client says so, else the user.
pub open spec fn sender(headers: Map<Seq<char>, Seq<char>>) -> ActorView {
    if crate::request::named(headers, "x-taskboard-client"@) == Some("taskctl"@) {
        agent()
    } else {
        local_user()
    }
}

/// Tells who sends a request.
pub fn actor_from_request(request: &HttpRequest) -> (r: Actor)
    ensures
        r@ == sender(request@.headers),
{
    match request.headers.get("x-taskboard-client") {
        Some(client) => if text::same(client, "taskctl") {
            return codex_actor();
        },
        None => {},
    }
    Actor {
        kind: "user",
        id: "local-user",
        name: "\u{672c}\u{5730}\u{7528}\u{6237}",
        avatar_url: None,
    }
}

/// Who a task is assigned to: the agent or whoever asks.
pub open spec fn assignee(body: JsonView, actor: ActorView) -> Result<ActorView, Seq<char>> {
    match json::text_field(body, "assigneeTarget"@) {
        None => Ok(actor),
        Some(target) => if target == "codex-agent"@ {
            Ok(agent())
        } else if target == "current-user"@ {
            Ok(actor)
        } else {
            Err("invalid assignee target"@)
        },
    }
}

/// Reads who a task is assigned to.
pub fn assignee_from_body(body: &Json, actor: &Actor) -> (r: Result<Actor, String>)
    ensures
        says(r, assignee(body@, actor@)),
{
    match body.text("assigneeTarget") {
        None => Ok(actor.copy()),
        Some(target) => if text::same(target, "codex-agent") {
            Ok(codex_actor())
        } else if text::same(target, "current-user") {
            Ok(actor.copy())
        } else {
            Err("invalid assignee target".to_owned())
        },
    }
}

/// A text that is not empty.
pub open spec fn nonempty(s: Option<Seq<char>>) -> Option<Seq<char>> {
    match s {
        Some(s) => if s.len() == 0 {
            None
        } else {
            Some(s)
        },
        None => None,
    }
}

fn drop_empty(s: Option<String>) -> (r: Option<String>)
    ensures
        r.deep_view() == nonempty(s.deep_view()),
{
    match s {
        Some(s) => if s.as_str().is_empty() {
            None
        } else {
            Some(s)
        },
        None => None,
    }
}

/// Where a task is worked on: a branch, or a worktree and its branch.
pub open spec fn development(value: Option<JsonView>) -> Result<
    (Option<Seq<char>>, Option<Seq<char>>, Option<Seq<char>>),
    Seq<char>,
> {
    match value {
        None => Ok((None, None, None)),
        Some(JsonView::Null) => Ok((None, None, None)),
        Some(v) => if json::text_field(v, "type"@) == Some("branch"@) {
            match text_of(v, "branch"@, 512) {
                Err(m) => Err(m),
                Ok(branch) => Ok((nonempty(branch), None, None)),
            }
        } else if json::text_field(v, "type"@) == Some("worktree"@) {
            match text_of(v, "path"@, 4096) {
                Err(m) => Err(m),
                Ok(path) => match text_of(v, "branch"@, 512) {
                    Err(m) => Err(m),
                    Ok(branch) => Ok((None, nonempty(path), branch)),
                },
            }
        } else {
            Err("invalid development context"@)
        },
    }
}

/// Reads where a task is worked on.
pub fn development_context(value: Option<&Json>) -> (r: Result<
    (Option<String>, Option<String>, Option<String>),
    String,
>)
    ensures
        says(r, development(value.deep_view())),
{
    let v = match value {
        None => {
            return Ok((None, None, None));
        },
        Some(Json::Null) => {
            return Ok((None, None, None));
        },
        Some(v) => v,
    };
    match v.text("type") {
        Some(kind) => if text::same(kind, "branch") {
            let branch = string_value(v, "branch", 512)?;
            Ok((drop_empty(branch), None, None))
        } else if text::same(kind, "worktree") {
            let path = string_value(v, "path", 4096)?;
            let branch = string_value(v, "branch", 512)?;
            Ok((None, drop_empty(path), branch))
        } else {
            Err("invalid development context".to_owned())
        },
        None => Err("invalid development context".to_owned()),
    }
}

/// Whether a text has the form of a date: four digits, two and two, with hyphens between them.
pub open spec fn is_date(s: Seq<char>) -> bool {
    &&& s.len() == 10
    &&& s[4] == '-'
    &&& s[7] == '-'
    &&& forall|i: int| 0 <= i < 10 && i != 4 && i != 7 ==> text::is_digit(#[trigger] s[i])
}

/// The day on which a task is due.
pub open spec fn due(value: Option<JsonView>) -> Result<Option<Seq<char>>, Seq<char>> {
    match value {
        None => Ok(None),
        Some(JsonView::Null) => Ok(None),
        Some(JsonView::Text(s)) => if is_date(s) {
            Ok(Some(s))
        } else {
            Err("invalid dueDate"@)
        },
        Some(_) => Err("dueDate must be a string"@),
    }
}

fn date(s: &str) -> (r: bool)
    ensures
        r == is_date(s@),
{
    let chars = text::chars_of(s);
    if chars.len() != 10 || chars[4] != '-' || chars[7] != '-' {
        return false;
    }
    let mut i: usize = 0;
    while i < 10
        invariant
            chars@ == s@,
            chars@.len() == 10,
            i <= 10,
            forall|k: int| 0 <= k < i && k != 4 && k != 7 ==> text::is_digit(#[trigger] s@[k]),
        decreases 10 - i,
    {
        if i != 4 && i != 7 && !('0' <= chars[i] && chars[i] <= '9') {
            proof {
                assert(!text::is_digit(s@[i as int]));
            }
            return false;
        }
        i = i + 1;
    }
    true
}

/// Reads the day on which a task is due.
pub fn due_date(value: Option<&Json>) -> (r: Result<Option<String>, String>)
    ensures
        says(r, due(value.deep_view())),
{
    match value {
        None => Ok(None),
        Some(Json::Null) => Ok(None),
        Some(Json::Text(s)) => if date(s) {
            Ok(Some(s.clone()))
        } else {
            Err("invalid dueDate".to_owned())
        },
        Some(_) => Err("dueDate must be a string".to_owned()),
    }
}

/// The units of a recurrence.
pub open spec fn is_unit(s: Seq<char>) -> bool {
    s == "day"@ || s == "week"@ || s == "month"@ || s == "year"@
}

/// How often a task recurs: every so many units.
pub open spec fn recurring(value: Option<JsonView>) -> Result<Option<(int, Seq<char>)>, Seq<char>> {
    match value {
        None => Ok(None),
        Some(JsonView::Null) => Ok(None),
        Some(v) => match json::integer_field(v, "interval"@) {
            None => Err("recurrence interval is required"@),
            Some(i) => if !(1 <= i <= 365) {
                Err("invalid recurrence interval"@)
            } else {
                match json::text_field(v, "unit"@) {
                    Some(unit) => if is_unit(unit) {
                        Ok(Some((i, unit)))
                    } else {
                        Err("invalid recurrence unit"@)
                    },
                    None => Err("invalid recurrence unit"@),
                }
            },
        },
    }
}

/// Reads how often a task recurs.
pub fn recurrence(value: Option<&Json>) -> (r: Result<Option<(i64, String)>, String>)
    ensures
        match r {
            Ok(Some((i, unit))) => recurring(value.deep_view()) == Ok::<
                Option<(int, Seq<char>)>,
                Seq<char>,
            >(Some((i as int, unit@))),
            Ok(None) => recurring(value.deep_view()) == Ok::<Option<(int, Seq<char>)>, Seq<char>>(
                None,
            ),
            Err(m) => recurring(value.deep_view()) == Err::<Option<(int, Seq<char>)>, Seq<char>>(
                m@,
            ),
        },
{
    let v = match value {
        None => {
            return Ok(None);
        },
        Some(Json::Null) => {
            return Ok(None);
        },
        Some(v) => v,
    };
    let interval: i64 = match v.integer("interval") {
        None => {
            return Err("recurrence interval is required".to_owned());
        },
        Some(i) => i,
    };
    if !(1 <= interval && interval <= 365) {
        return Err("invalid recurrence interval".to_owned());
    }
    match v.text("unit") {
        Some(unit) => if text::same(unit, "day") || text::same(unit, "week") || text::same(
            unit,
            "month",
        ) || text::same(unit, "year") {
            Ok(Some((interval, unit.clone())))
        } else {
            Err("invalid recurrence unit".to_owned())
        },
        None => Err("invalid recurrence unit".to_owned()),
    }
}

/// The number of a field as a value for the store, where the field is a number.
pub open spec fn real_of(value: Option<JsonView>) -> Option<Seq<char>> {
    match value {
        Some(JsonView::Integer(i)) => Some(text::signed_decimal(i)),
        Some(JsonView::Unsigned(u)) => Some(text::signed_decimal(u)),
        Some(JsonView::Real(s)) => Some(s),
        _ => None,
    }
}

/// Reads the number of a field.
pub fn real_value(value: Option<&Json>) -> (r: Option<String>)
    ensures
        r.deep_view() == real_of(value.deep_view()),
{
    match value {
        Some(Json::Integer(i)) => Some(text::integer_text(*i)),
        Some(Json::Unsigned(u)) => Some(text::decimal_text(*u)),
        Some(Json::Real(s)) => Some(s.clone()),
        _ => None,
    }
}

} // verus!
