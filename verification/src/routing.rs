//! Where each request leads.
use crate::exchange;
use crate::exchange::ResponseView;
use crate::json;
use crate::json::JsonView;
use crate::relations;
use crate::request;
use crate::request::RequestView;
use crate::routes;
use crate::routes::{CallView, RouteView};
use crate::text;
use vstd::prelude::*;
use vstd::utf8::*;

verus! {

/// Whether a text stands for itself as the segment of a path: it is not empty and not too long, and
/// holds neither a slash nor a percent sign.
pub open spec fn is_plain(s: Seq<char>) -> bool {
    &&& s.len() > 0
    &&& encode_utf8(s).len() <= 128
    &&& !s.contains('/')
    &&& !s.contains('%')
}

/// Whether a request leads to a call.
pub open spec fn leads(request: RequestView, skill_path: Seq<char>, call: CallView) -> bool {
    routes::route_of(request, skill_path) == Ok::<RouteView, Seq<char>>(RouteView::Store(call))
}

/// Whether a request is answered without the store.
pub open spec fn is_answered(
    request: RequestView,
    skill_path: Seq<char>,
    response: ResponseView,
) -> bool {
    routes::route_of(request, skill_path) == Ok::<RouteView, Seq<char>>(RouteView::Answer(response))
}

proof fn lemma_methods()
    ensures
        "GET"@.len() == 3 && "GET"@[0] == 'G',
        "PUT"@.len() == 3 && "PUT"@[0] == 'P',
        "POST"@.len() == 4 && "POST"@[0] == 'P',
        "HEAD"@.len() == 4 && "HEAD"@[0] == 'H',
        "PATCH"@.len() == 5,
        "DELETE"@.len() == 6,
{
    reveal_strlit("GET");
    reveal_strlit("PUT");
    reveal_strlit("POST");
    reveal_strlit("HEAD");
    reveal_strlit("PATCH");
    reveal_strlit("DELETE");
}

/// Whether a text starts with a slash and holds no other.
pub open spec fn is_step(s: Seq<char>) -> bool {
    s.len() > 0 && s[0] == '/' && forall|i: int| 0 < i < s.len() ==> #[trigger] s[i] != '/'
}

/// A path ends with a step only where this step is all behind its last slash.
proof fn lemma_last_step(path: Seq<char>, k: int, step: Seq<char>)
    requires
        0 <= k < path.len(),
        path[k] == '/',
        forall|i: int| k < i < path.len() ==> #[trigger] path[i] != '/',
        is_step(step),
        text::has_suffix(path, step),
    ensures
        path.skip(k) == step,
{
    let n = path.len() - step.len();
    let end = path.skip(n);
    assert(end == step);
    assert(end[0] == path[n]);
    if k > n {
        assert(step[k - n] == end[k - n]);
        assert(end[k - n] == path[k]);
    }
}

/// The last slash of a path that ends with a plain segment stands before it.
proof fn lemma_path_of_one(prefix: Seq<char>, id: Seq<char>, step: Seq<char>)
    requires
        prefix.len() > 0,
        prefix.last() == '/',
        !id.contains('/'),
        is_step(step),
        step.skip(1) != id,
    ensures
        text::has_prefix(prefix + id, prefix),
        !text::has_suffix(prefix + id, step),
        (prefix + id).skip(prefix.len() as int) == id,
{
    let path = prefix + id;
    let k = prefix.len() - 1;
    assert(path.take(prefix.len() as int) =~= prefix);
    assert(path.skip(prefix.len() as int) =~= id);
    assert(path[k] == '/');
    assert forall|i: int| k < i < path.len() implies #[trigger] path[i] != '/' by {
        assert(path[i] == id[i - prefix.len()]);
        assert(id.contains(id[i - prefix.len()]));
    }
    if text::has_suffix(path, step) {
        lemma_last_step(path, k, step);
        assert(path.skip(k).skip(1) =~= id);
    }
}

proof fn lemma_path_of_two(prefix: Seq<char>, id: Seq<char>, own: Seq<char>, step: Seq<char>)
    requires
        prefix.len() > 0,
        !id.contains('/'),
        is_step(own),
        is_step(step),
    ensures
        text::has_prefix(prefix + id + own, prefix),
        text::has_suffix(prefix + id + own, step) <==> step == own,
        (prefix + id + own).subrange(
            prefix.len() as int,
            (prefix + id + own).len() - own.len(),
        ) == id,
        (prefix + id + own).skip(prefix.len() as int) == id + own,
        (id + own).take((id + own).len() - own.len()) == id,
        text::has_suffix(id + own, step) <==> step == own,
{
    let path = prefix + id + own;
    let k = prefix.len() + id.len();
    assert(path.take(prefix.len() as int) =~= prefix);
    assert(path.subrange(prefix.len() as int, path.len() - own.len()) =~= id);
    assert(path.skip(prefix.len() as int) =~= id + own);
    assert((id + own).take((id + own).len() - own.len()) =~= id);
    assert(path.skip(k as int) =~= own);
    assert((id + own).skip(id.len() as int) =~= own);
    assert forall|i: int| k < i < path.len() implies #[trigger] path[i] != '/' by {
        assert(path[i] == own[i - k]);
    }
    assert forall|i: int| id.len() < i < (id + own).len() implies #[trigger] (id + own)[i] != '/' by {
        assert((id + own)[i] == own[i - id.len()]);
    }
    if text::has_suffix(path, step) {
        lemma_last_step(path, k as int, step);
    }
    if text::has_suffix(id + own, step) {
        lemma_last_step(id + own, id.len() as int, step);
    }
}

proof fn lemma_segment(id: Seq<char>, label: Seq<char>)
    requires
        is_plain(id),
    ensures
        request::segment(id, label) == Ok::<Seq<char>, Seq<char>>(id),
{
    request::law_plain_text_stands_for_itself(id, false);
}

proof fn lemma_last_segment(prefix: Seq<char>, rest: Seq<char>)
    requires
        prefix.len() > 0,
        prefix[0] == '/',
        rest.len() > 0,
        rest[0] != '/',
    ensures
        text::without_prefixes(prefix + rest, prefix) == rest,
{
    let path = prefix + rest;
    assert(path.take(prefix.len() as int) =~= prefix);
    assert(path.skip(prefix.len() as int) =~= rest);
    if text::has_prefix(rest, prefix) {
        assert(rest.take(prefix.len() as int)[0] == rest[0]);
    }
    assert(text::without_prefixes(rest, prefix) == rest);
}

/// What stands at the places by which paths are told apart.
proof fn lemma_heads()
    ensures
        routes::TASKS@.len() == 11 && routes::TASKS@[5] == 't' && routes::TASKS@.last() == '/'
            && routes::TASKS@[0] == '/' && routes::TASKS@[1] == 'a',
        routes::PROJECTS@.len() == 14 && routes::PROJECTS@[5] == 'p' && routes::PROJECTS@.last()
            == '/' && routes::PROJECTS@[0] == '/',
        routes::COMMENTS@.len() == 14 && routes::COMMENTS@[5] == 'c' && routes::COMMENTS@.last()
            == '/' && routes::COMMENTS@[0] == '/',
        routes::ATTACHMENTS@.len() == 17 && routes::ATTACHMENTS@[5] == 'a'
            && routes::ATTACHMENTS@.last() == '/' && routes::ATTACHMENTS@[0] == '/',
        routes::THREADS@.len() == 22 && routes::THREADS@[5] == 'l' && routes::THREADS@[11] == 'a'
            && routes::THREADS@[14] == 't' && routes::THREADS@.last() == '/' && routes::THREADS@[0]
            == '/',
        routes::RUNS@.len() == 19 && routes::RUNS@[5] == 'l' && routes::RUNS@[11] == 'a'
            && routes::RUNS@[14] == 'r' && routes::RUNS@.last() == '/' && routes::RUNS@[0] == '/',
        routes::CODEX_THREADS@.len() == 25 && routes::CODEX_THREADS@[5] == 'l'
            && routes::CODEX_THREADS@[11] == 'c',
        "/health"@.len() == 7 && "/health"@[1] == 'h',
        "/api/meta"@.len() == 9 && "/api/meta"@[5] == 'm',
        "/api/device-workspaces"@.len() == 22 && "/api/device-workspaces"@[5] == 'd',
        "/api/workflow-capabilities"@.len() == 26 && "/api/workflow-capabilities"@[5] == 'w',
        "/api/projects"@.len() == 13 && "/api/projects"@[5] == 'p',
        "/api/revisions"@.len() == 14 && "/api/revisions"@[5] == 'r',
        "/api/local/codex/threads/sync"@.len() == 29 && "/api/local/codex/threads/sync"@[5] == 'l'
            && "/api/local/codex/threads/sync"@[11] == 'c',
        "/api/tasks"@.len() == 10 && "/api/tasks"@[5] == 't',
        "/api/events"@.len() == 11 && "/api/events"@[5] == 'e',
        "/api/local/ai/catalog"@.len() == 21 && "/api/local/ai/catalog"@[5] == 'l'
            && "/api/local/ai/catalog"@[11] == 'a' && "/api/local/ai/catalog"@[14] == 'c',
        "/api/local/ai/threads"@.len() == 21 && "/api/local/ai/threads"@[5] == 'l'
            && "/api/local/ai/threads"@[11] == 'a' && "/api/local/ai/threads"@[14] == 't',
{
    reveal_strlit("/api/tasks/");
    reveal_strlit("/api/projects/");
    reveal_strlit("/api/comments/");
    reveal_strlit("/api/attachments/");
    reveal_strlit("/api/local/ai/threads/");
    reveal_strlit("/api/local/ai/runs/");
    reveal_strlit("/api/local/codex/threads/");
    reveal_strlit("/health");
    reveal_strlit("/api/meta");
    reveal_strlit("/api/device-workspaces");
    reveal_strlit("/api/workflow-capabilities");
    reveal_strlit("/api/projects");
    reveal_strlit("/api/revisions");
    reveal_strlit("/api/local/codex/threads/sync");
    reveal_strlit("/api/tasks");
    reveal_strlit("/api/events");
    reveal_strlit("/api/local/ai/catalog");
    reveal_strlit("/api/local/ai/threads");
}

proof fn lemma_steps()
    ensures
        is_step("/events"@) && "/events"@.len() == 7,
        is_step("/turns"@) && "/turns"@.len() == 6,
        is_step("/interrupt"@) && "/interrupt"@.len() == 10,
        is_step("/archive"@) && "/archive"@.len() == 8 && "/archive"@[1] == 'a',
        is_step("/development-contexts"@) && "/development-contexts"@.len() == 21,
        is_step("/workflow-workspace"@) && "/workflow-workspace"@.len() == 19,
        is_step("/comments"@) && "/comments"@.len() == 9,
        is_step("/attachments"@) && "/attachments"@.len() == 12,
        is_step("/content"@) && "/content"@.len() == 8 && "/content"@[1] == 'c',
        is_step("/move"@) && "/move"@.len() == 5,
        is_step("/restore"@) && "/restore"@.len() == 8 && "/restore"@[1] == 'r',
{
    reveal_strlit("/events");
    reveal_strlit("/turns");
    reveal_strlit("/interrupt");
    reveal_strlit("/archive");
    reveal_strlit("/development-contexts");
    reveal_strlit("/workflow-workspace");
    reveal_strlit("/comments");
    reveal_strlit("/attachments");
    reveal_strlit("/content");
    reveal_strlit("/move");
    reveal_strlit("/restore");
}

/// A path with another letter at a place has another start.
proof fn lemma_other_start(path: Seq<char>, prefix: Seq<char>, k: int)
    requires
        0 <= k < prefix.len(),
        k < path.len(),
        path[k] != prefix[k],
    ensures
        !text::has_prefix(path, prefix),
        path != prefix,
{
    if text::has_prefix(path, prefix) {
        assert(path.take(prefix.len() as int)[k] == path[k]);
    }
}

proof fn lemma_not_general(request: RequestView, skill_path: Seq<char>)
    requires
        request.path.len() > 11,
        request.path[5] == 'p' ==> request.path.len() > 14,
        request.path[5] == 't' || request.path[5] == 'p' || request.path[5] == 'c'
            || request.path[5] == 'a' || (request.path[5] == 'l' && request.path[11] == 'a'),
        request.path[1] == 'a',
    ensures
        routes::general_route(request, skill_path) is None,
{
    lemma_heads();
    let path = request.path;
    if text::has_prefix(path, routes::CODEX_THREADS@) {
        assert(path.take(25)[5] == path[5]);
        assert(path.take(25)[11] == path[11]);
    }
}

proof fn lemma_not_ai(request: RequestView)
    requires
        request.path.len() > 11,
        request.path[5] != 'l',
    ensures
        routes::ai_route(request) is None,
{
    lemma_heads();
    lemma_other_start(request.path, routes::THREADS@, 5);
    lemma_other_start(request.path, routes::RUNS@, 5);
}

/// A task is shown, changed and deleted by its path, and no other method is allowed there.
#[verifier::rlimit(40)]
pub proof fn law_task_paths(request: RequestView, skill_path: Seq<char>, id: Seq<char>)
    requires
        is_plain(id),
        "/comments"@.skip(1) != id,
        "/attachments"@.skip(1) != id,
        request.path == "/api/tasks/"@ + id,
    ensures
        request.method == "GET"@ ==> leads(request, skill_path, CallView::ShowTask(id)),
        request.method == "PATCH"@ ==> leads(request, skill_path, CallView::UpdateTask(id)),
        request.method == "DELETE"@ ==> leads(request, skill_path, CallView::DeleteTask(id)),
        request.method != "GET"@ && request.method != "PATCH"@ && request.method != "DELETE"@
            ==> leads(request, skill_path, CallView::Fail("method not allowed"@)),
{
    lemma_methods();
    lemma_heads();
    lemma_steps();
    let path = request.path;
    let prefix = routes::TASKS@;
    assert(path[5] == prefix[5] && path[1] == prefix[1]);
    lemma_not_general(request, skill_path);
    lemma_not_ai(request);
    lemma_other_start(path, routes::PROJECTS@, 5);
    lemma_other_start(path, routes::COMMENTS@, 5);
    lemma_other_start(path, routes::ATTACHMENTS@, 5);
    lemma_path_of_one(prefix, id, "/comments"@);
    lemma_path_of_one(prefix, id, "/attachments"@);
    assert(path != "/api/tasks"@ && path != "/api/events"@);
    assert(routes::attached_route(path, request.method) is None);
    text::lemma_split_plain(id, '/');
    assert(relations::relation_path(path) == Ok::<
        Option<(Seq<char>, Seq<char>, Seq<char>)>,
        Seq<char>,
    >(None));
    assert(!text::holds(path, "/relations/"@)) by {
        lemma_no_relations(id);
    }
    assert(id[0] != '/') by {
        assert(id.contains(id[0]));
    }
    lemma_last_segment(prefix, id);
    lemma_segment(id, "task id"@);
    lemma_no_deed(id, "/move"@);
    lemma_no_deed(id, "/archive"@);
    lemma_no_deed(id, "/restore"@);
}

proof fn lemma_no_deed(id: Seq<char>, step: Seq<char>)
    requires
        !id.contains('/'),
        is_step(step),
    ensures
        !text::has_suffix(id, step),
{
    if text::has_suffix(id, step) {
        let n = id.len() - step.len();
        assert(id.skip(n)[0] == id[n]);
        assert(id.contains(id[n]));
    }
}

proof fn lemma_no_relations(id: Seq<char>)
    requires
        !id.contains('/'),
    ensures
        !text::holds("/api/tasks/"@ + id, "/relations/"@),
{
    reveal_strlit("/api/tasks/");
    reveal_strlit("/relations/");
    let path = "/api/tasks/"@ + id;
    let block = "/relations/"@;
    if text::holds(path, block) {
        let at = choose|at: int|
            0 <= at <= path.len() - block.len() && #[trigger] path.subrange(
                at,
                at + block.len(),
            ) == block;
        let part = path.subrange(at, at + block.len());
        assert(part[10] == path[at + 10]);
        assert(part[1] == path[at + 1]);
        assert(block[10] == '/' && block[1] == 'r');
        if at + 10 >= 11 {
            assert(path[at + 10] == id[at - 1]);
            assert(id.contains(id[at - 1]));
        }
    }
}

/// The comments and the files of a task are listed and added by its path.
#[verifier::rlimit(40)]
pub proof fn law_paths_below_a_task(
    request: RequestView,
    skill_path: Seq<char>,
    id: Seq<char>,
)
    requires
        is_plain(id),
    ensures
        request.path == "/api/tasks/"@ + id + "/comments"@ ==> {
            &&& request.method == "GET"@ ==> leads(request, skill_path, CallView::ListComments(id))
            &&& request.method == "POST"@ ==> leads(
                request,
                skill_path,
                CallView::CreateComment(id),
            )
        },
        request.path == "/api/tasks/"@ + id + "/attachments"@ ==> {
            &&& request.method == "GET"@ ==> leads(
                request,
                skill_path,
                CallView::ListTaskAttachments(id),
            )
            &&& request.method == "POST"@ ==> leads(
                request,
                skill_path,
                CallView::AttachToTask(id),
            )
        },
{
    lemma_methods();
    lemma_heads();
    lemma_steps();
    let path = request.path;
    let prefix = routes::TASKS@;
    if path == "/api/tasks/"@ + id + "/comments"@ || path == "/api/tasks/"@ + id
        + "/attachments"@ {
        assert(path[5] == prefix[5] && path[1] == prefix[1]);
        lemma_not_general(request, skill_path);
        lemma_not_ai(request);
        lemma_other_start(path, routes::PROJECTS@, 5);
        lemma_path_of_two(prefix, id, "/comments"@, "/comments"@);
        lemma_path_of_two(prefix, id, "/attachments"@, "/comments"@);
        lemma_path_of_two(prefix, id, "/attachments"@, "/attachments"@);
        lemma_segment(id, "route segment"@);
    }
}

/// A path with a step behind the identifier of a task leads past the lists and the relations.
#[verifier::rlimit(40)]
proof fn lemma_beside_the_lists(
    request: RequestView,
    skill_path: Seq<char>,
    id: Seq<char>,
    step: Seq<char>,
)
    requires
        is_plain(id),
        is_step(step),
        step != "/comments"@,
        step != "/attachments"@,
        request.path == "/api/tasks/"@ + id + step,
    ensures
        routes::route_of(request, skill_path) == routes::last_route(request.path, request.method),
{
    lemma_heads();
    lemma_steps();
    let path = request.path;
    let prefix = routes::TASKS@;
    assert(path[5] == prefix[5] && path[1] == prefix[1]);
    lemma_not_general(request, skill_path);
    lemma_not_ai(request);
    lemma_other_start(path, routes::PROJECTS@, 5);
    lemma_other_start(path, routes::COMMENTS@, 5);
    lemma_other_start(path, routes::ATTACHMENTS@, 5);
    lemma_path_of_two(prefix, id, step, "/comments"@);
    lemma_path_of_two(prefix, id, step, "/attachments"@);
    assert(routes::project_route(path, request.method) is None);
    assert(routes::attached_route(path, request.method) is None);
    lemma_two_parts(id, step);
    assert(relations::relation_path(path) == Ok::<
        Option<(Seq<char>, Seq<char>, Seq<char>)>,
        Seq<char>,
    >(None));
}

/// What is behind the prefix of tasks is read as an identifier too, which must not be too long.
proof fn lemma_whole_rest(id: Seq<char>, step: Seq<char>)
    requires
        is_plain(id),
        step.len() > 0,
        !step.contains('%'),
        encode_utf8(id + step).len() <= 128,
    ensures
        routes::last_segment("/api/tasks/"@ + id + step, routes::TASKS@, "task id"@) is Ok,
{
    lemma_heads();
    let prefix = routes::TASKS@;
    let rest = id + step;
    assert(id[0] != '/') by {
        assert(id.contains(id[0]));
    }
    assert(prefix + id + step =~= prefix + rest);
    assert(rest[0] == id[0]);
    lemma_last_segment(prefix, rest);
    assert(!rest.contains('%')) by {
        if rest.contains('%') {
            let i = choose|i: int| 0 <= i < rest.len() && rest[i] == '%';
            if i < id.len() {
                assert(id.contains(id[i]));
            } else {
                assert(step.contains(step[i - id.len()]));
            }
        }
    }
    request::law_plain_text_stands_for_itself(rest, false);
}

/// A task is moved, archived and restored by its path.
#[verifier::rlimit(40)]
pub proof fn law_deeds_on_a_task(
    request: RequestView,
    skill_path: Seq<char>,
    id: Seq<char>,
    step: Seq<char>,
)
    requires
        is_plain(id),
        id != "relations"@,
        step == "/move"@ || step == "/archive"@ || step == "/restore"@,
        encode_utf8(id + step).len() <= 128,
        request.path == "/api/tasks/"@ + id + step,
        request.method == "POST"@,
    ensures
        step == "/move"@ ==> leads(request, skill_path, CallView::MoveTask(id)),
        step == "/archive"@ ==> leads(request, skill_path, CallView::ArchiveTask(id)),
        step == "/restore"@ ==> leads(request, skill_path, CallView::RestoreTask(id)),
{
    lemma_steps();
    assert(step.len() <= 8 && is_step(step));
    assert(!step.contains('%')) by {
        reveal_strlit("/move");
        reveal_strlit("/archive");
        reveal_strlit("/restore");
        if step.contains('%') {
            let i = choose|i: int| 0 <= i < step.len() && step[i] == '%';
            assert(step[i] != '%');
        }
    }
    let path = request.path;
    let prefix = routes::TASKS@;
    lemma_beside_the_lists(request, skill_path, id, step);
    lemma_no_relations_in_deed(id, step);
    lemma_whole_rest(id, step);
    lemma_segment(id, "task id"@);
    lemma_heads();
    lemma_path_of_two(prefix, id, step, "/move"@);
    lemma_path_of_two(prefix, id, step, "/archive"@);
    lemma_path_of_two(prefix, id, step, "/restore"@);
}

proof fn lemma_two_parts(id: Seq<char>, step: Seq<char>)
    requires
        !id.contains('/'),
        is_step(step),
    ensures
        text::split_spec(id + step, '/').len() == 2,
{
    let x = id.push('/');
    let y = step.skip(1);
    assert(id + step =~= x + y);
    assert(!y.contains('/')) by {
        if y.contains('/') {
            let i = choose|i: int| 0 <= i < y.len() && y[i] == '/';
            assert(step[i + 1] == '/');
        }
    }
    text::lemma_split_plain(id, '/');
    text::lemma_split_plain(y, '/');
    text::lemma_split_joins(x, y, '/');
    assert(x.drop_last() =~= id);
    assert(text::split_spec(x, '/') == text::split_spec(id, '/').push(Seq::empty()));
}

proof fn lemma_no_relations_in_deed(id: Seq<char>, step: Seq<char>)
    requires
        !id.contains('/'),
        id != "relations"@,
        is_step(step),
        step.len() <= 10,
    ensures
        !text::holds("/api/tasks/"@ + id + step, "/relations/"@),
{
    reveal_strlit("/api/tasks/");
    reveal_strlit("/relations/");
    reveal_strlit("relations");
    let path = "/api/tasks/"@ + id + step;
    let block = "/relations/"@;
    if text::holds(path, block) {
        let at = choose|at: int|
            0 <= at <= path.len() - block.len() && #[trigger] path.subrange(
                at,
                at + block.len(),
            ) == block;
        let part = path.subrange(at, at + block.len());
        assert(part[0] == path[at]);
        assert(part[1] == path[at + 1]);
        assert(part[10] == path[at + 10]);
        assert(block[0] == '/' && block[10] == '/' && block[1] == 'r');
        let k = 11 + id.len();
        if at + 10 > 10 && at + 10 < k {
            assert(path[at + 10] == id[at - 1]);
            assert(id.contains(id[at - 1]));
        }
        if at + 10 > k {
            assert(path[at + 10] == step[at + 10 - k]);
        }
        if at + 10 == k {
            if at > 10 {
                assert(path[at] == id[at - 11]);
                assert(id.contains(id[at - 11]));
            }
            assert(at == 10 || at == 4 || at == 0);
            if at == 10 {
                assert(id.len() == 9);
                assert forall|i: int| 0 <= i < 9 implies #[trigger] id[i] == "relations"@[i] by {
                    assert(part[i + 1] == path[11 + i]);
                    assert(block[i + 1] == "relations"@[i]);
                }
                assert(id =~= "relations"@);
            }
        }
    }
}

/// A path with a relation behind the identifier of a task leads past the lists.
#[verifier::rlimit(40)]
proof fn lemma_to_relations(
    request: RequestView,
    skill_path: Seq<char>,
    id: Seq<char>,
    behind: Seq<char>,
)
    requires
        behind.len() > 1,
        request.path == "/api/tasks/"@ + id + "/relations/"@ + behind,
    ensures
        routes::general_route(request, skill_path) is None,
        routes::ai_route(request) is None,
        routes::project_route(request.path, request.method) is None,
        routes::attached_route(request.path, request.method) is None,
        text::has_prefix(request.path, routes::TASKS@),
        request.path.skip(11) == id + "/relations/"@ + behind,
{
    lemma_heads();
    lemma_steps();
    reveal_strlit("/relations/");
    let path = request.path;
    let prefix = routes::TASKS@;
    let rest = id + "/relations/"@ + behind;
    assert(path =~= prefix + rest);
    assert(path.skip(11) =~= rest);
    assert(path.take(11) =~= prefix);
    assert(path[5] == prefix[5] && path[1] == prefix[1]);
    lemma_not_general(request, skill_path);
    lemma_not_ai(request);
    lemma_other_start(path, routes::PROJECTS@, 5);
    lemma_other_start(path, routes::COMMENTS@, 5);
    lemma_other_start(path, routes::ATTACHMENTS@, 5);
    lemma_deep_path(path, "/comments"@, id.len() as int);
    lemma_deep_path(path, "/attachments"@, id.len() as int);
}

/// A relation of a task is added and removed by a path that names its type and the other task.
#[verifier::rlimit(40)]
pub proof fn law_relation_paths(
    request: RequestView,
    skill_path: Seq<char>,
    id: Seq<char>,
    relation_type: Seq<char>,
    other: Seq<char>,
)
    requires
        is_plain(id),
        is_plain(relation_type),
        is_plain(other),
        request.path == "/api/tasks/"@ + id + "/relations/"@ + relation_type + "/"@ + other,
    ensures
        request.method == "POST"@ ==> leads(
            request,
            skill_path,
            CallView::AddRelation(id, relation_type, other),
        ),
        request.method == "DELETE"@ ==> leads(
            request,
            skill_path,
            CallView::RemoveRelation(id, relation_type, other),
        ),
{
    lemma_methods();
    lemma_heads();
    reveal_strlit("/");
    let path = request.path;
    let behind = relation_type + "/"@ + other;
    assert(path =~= "/api/tasks/"@ + id + "/relations/"@ + behind);
    lemma_to_relations(request, skill_path, id, behind);
    assert(id + "/relations/"@ + behind =~= id + "/relations/"@ + relation_type + "/"@ + other);
    lemma_four_parts(id, relation_type, other);
    lemma_segment(id, "task id"@);
    lemma_segment(relation_type, "relation type"@);
    lemma_segment(other, "related task id"@);
}

proof fn lemma_deep_path(path: Seq<char>, step: Seq<char>, n: int)
    requires
        n >= 0,
        path.len() > n + 22,
        text::has_prefix(path, routes::TASKS@),
        path[11 + n] == '/',
        path[11 + n + 10] == '/',
        is_step(step),
    ensures
        routes::tail(path, routes::TASKS@, step) == Ok::<Option<Seq<char>>, Seq<char>>(None),
{
    lemma_heads();
    if text::has_suffix(path, step) {
        let m = path.len() - step.len();
        assert(path.skip(m)[0] == path[m]);
        if m <= 11 + n + 10 && m != 11 + n + 10 {
            assert(path.skip(m)[11 + n + 10 - m] == path[11 + n + 10]);
        }
        assert(m >= 11 + n + 10);
        let encoded = path.subrange(11, path.len() - step.len());
        assert(encoded[n] == '/');
        assert(encoded.contains('/'));
    }
}

proof fn lemma_four_parts(a: Seq<char>, b: Seq<char>, c: Seq<char>)
    requires
        !a.contains('/'),
        !b.contains('/'),
        !c.contains('/'),
    ensures
        text::split_spec(a + "/relations/"@ + b + "/"@ + c, '/') == seq![a, "relations"@, b, c],
{
    reveal_strlit("/relations/");
    reveal_strlit("relations");
    reveal_strlit("/");
    let r = "relations"@;
    let whole = a + "/relations/"@ + b + "/"@ + c;
    text::lemma_split_plain(a, '/');
    text::lemma_split_plain(b, '/');
    text::lemma_split_plain(c, '/');
    assert(!r.contains('/')) by {
        if r.contains('/') {
            let i = choose|i: int| 0 <= i < r.len() && r[i] == '/';
            assert(r[i] != '/');
        }
    }
    text::lemma_split_plain(r, '/');
    let last = b.push('/') + c;
    text::lemma_split_joins(b.push('/'), c, '/');
    assert(b.push('/').drop_last() =~= b);
    assert(text::split_spec(b.push('/'), '/') == text::split_spec(b, '/').push(Seq::empty()));
    assert(text::split_spec(last, '/') =~= seq![b, c]);
    let middle = r.push('/') + last;
    text::lemma_split_joins(r.push('/'), last, '/');
    assert(r.push('/').drop_last() =~= r);
    assert(text::split_spec(r.push('/'), '/') == text::split_spec(r, '/').push(Seq::empty()));
    assert(text::split_spec(middle, '/') =~= seq![r, b, c]);
    text::lemma_split_joins(a.push('/'), middle, '/');
    assert(a.push('/').drop_last() =~= a);
    assert(text::split_spec(a.push('/'), '/') == text::split_spec(a, '/').push(Seq::empty()));
    assert(a.push('/') + middle =~= whole);
    assert(text::split_spec(whole, '/') =~= seq![a, r, b, c]);
}

/// A comment is changed and deleted by its path, and its files are listed and added below it.
#[verifier::rlimit(40)]
pub proof fn law_comment_paths(request: RequestView, skill_path: Seq<char>, id: Seq<char>)
    requires
        is_plain(id),
        "/attachments"@.skip(1) != id,
    ensures
        request.path == "/api/comments/"@ + id ==> {
            &&& request.method == "PATCH"@ ==> leads(
                request,
                skill_path,
                CallView::UpdateComment(id),
            )
            &&& request.method == "DELETE"@ ==> leads(
                request,
                skill_path,
                CallView::DeleteComment(id),
            )
        },
        request.path == "/api/comments/"@ + id + "/attachments"@ ==> {
            &&& request.method == "GET"@ ==> leads(
                request,
                skill_path,
                CallView::ListCommentAttachments(id),
            )
            &&& request.method == "POST"@ ==> leads(
                request,
                skill_path,
                CallView::AttachToComment(id),
            )
        },
{
    lemma_methods();
    lemma_heads();
    lemma_steps();
    let path = request.path;
    let prefix = routes::COMMENTS@;
    assert(id[0] != '/') by {
        assert(id.contains(id[0]));
    }
    if path == "/api/comments/"@ + id || path == "/api/comments/"@ + id + "/attachments"@ {
        assert(path[5] == prefix[5]);
        assert(path[1] == prefix[1]);
        assert(prefix[1] == 'a') by {
            reveal_strlit("/api/comments/");
        }
        lemma_not_general(request, skill_path);
        lemma_not_ai(request);
        lemma_other_start(path, routes::PROJECTS@, 5);
        lemma_other_start(path, routes::TASKS@, 5);
        lemma_other_start(path, routes::ATTACHMENTS@, 5);
        lemma_path_of_one(prefix, id, "/attachments"@);
        lemma_path_of_two(prefix, id, "/attachments"@, "/attachments"@);
        lemma_segment(id, "route segment"@);
        lemma_segment(id, "comment id"@);
        lemma_last_segment(prefix, id);
    }
}

/// An attachment is deleted by its path, and its content is sent from below it.
#[verifier::rlimit(40)]
pub proof fn law_attachment_paths(request: RequestView, skill_path: Seq<char>, id: Seq<char>)
    requires
        is_plain(id),
        "/content"@.skip(1) != id,
    ensures
        request.path == "/api/attachments/"@ + id && request.method == "DELETE"@ ==> leads(
            request,
            skill_path,
            CallView::DeleteAttachment(id),
        ),
        request.path == "/api/attachments/"@ + id + "/content"@ && (request.method == "GET"@
            || request.method == "HEAD"@) ==> leads(
            request,
            skill_path,
            CallView::SendAttachment(id),
        ),
{
    lemma_methods();
    lemma_heads();
    lemma_steps();
    let path = request.path;
    let prefix = routes::ATTACHMENTS@;
    assert(id[0] != '/') by {
        assert(id.contains(id[0]));
    }
    if path == "/api/attachments/"@ + id || path == "/api/attachments/"@ + id + "/content"@ {
        assert(path[5] == prefix[5]);
        assert(path[1] == prefix[1]);
        assert(prefix[1] == 'a') by {
            reveal_strlit("/api/attachments/");
        }
        lemma_not_general(request, skill_path);
        lemma_not_ai(request);
        lemma_other_start(path, routes::PROJECTS@, 5);
        lemma_other_start(path, routes::TASKS@, 5);
        lemma_other_start(path, routes::COMMENTS@, 5);
        lemma_path_of_one(prefix, id, "/content"@);
        lemma_path_of_two(prefix, id, "/content"@, "/content"@);
        lemma_segment(id, "route segment"@);
        lemma_segment(id, "attachment id"@);
        lemma_last_segment(prefix, id);
    }
}

/// The projects are listed and added by one path, and the tasks by another.
#[verifier::rlimit(40)]
pub proof fn law_paths_of_all(request: RequestView, skill_path: Seq<char>)
    ensures
        request.path == "/api/projects"@ ==> {
            &&& request.method == "GET"@ ==> leads(request, skill_path, CallView::ListProjects)
            &&& request.method == "POST"@ ==> leads(request, skill_path, CallView::CreateProject)
        },
        request.path == "/api/tasks"@ ==> {
            &&& request.method == "GET"@ ==> leads(request, skill_path, CallView::ListTasks)
            &&& request.method == "POST"@ ==> leads(request, skill_path, CallView::CreateTask)
        },
        request.path == "/api/local/ai/threads"@ ==> {
            &&& request.method == "GET"@ ==> leads(request, skill_path, CallView::ListThreads)
            &&& request.method == "POST"@ ==> leads(request, skill_path, CallView::CreateThread)
        },
        request.path == "/api/events"@ && request.method == "GET"@ ==> is_answered(
            request,
            skill_path,
            ResponseView::EventStream,
        ),
{
    lemma_methods();
    lemma_heads();
    let path = request.path;
    if path == "/api/tasks"@ || path == "/api/events"@ {
        if text::has_prefix(path, routes::CODEX_THREADS@) {
            assert(path.take(25)[5] == path[5]);
        }
        assert(routes::general_route(request, skill_path) is None) by {
            reveal_strlit("/api/tasks");
            reveal_strlit("/api/events");
        }
        lemma_other_start(path, routes::THREADS@, 5);
        lemma_other_start(path, routes::RUNS@, 5);
        lemma_other_start(path, routes::PROJECTS@, 5);
        assert(routes::ai_route(request) is None);
    }
    if path == "/api/local/ai/threads"@ {
        lemma_other_start(path, routes::CODEX_THREADS@, 11);
        assert(routes::general_route(request, skill_path) is None) by {
            reveal_strlit("/api/local/ai/threads");
        }
    }
}

/// The models of a project are shown by one path, with the project in the query; without it the
/// request is refused.
#[verifier::rlimit(40)]
pub proof fn law_path_of_the_catalog(request: RequestView, skill_path: Seq<char>)
    requires
        request.path == "/api/local/ai/catalog"@,
        request.method == "GET"@,
    ensures
        match request::named(request.query, "projectId"@) {
            Some(id) => leads(request, skill_path, CallView::ShowCatalog(id)),
            None => is_answered(
                request,
                skill_path,
                exchange::refusal(400, "INVALID_FIELD"@, "'projectId' is required"@),
            ),
        },
{
    lemma_methods();
    lemma_heads();
    let path = request.path;
    assert(routes::general_route(request, skill_path) is None) by {
        lemma_other_start(path, routes::CODEX_THREADS@, 11);
        reveal_strlit("/api/local/ai/catalog");
    }
}

/// A thread is shown, changed and deleted by its path.
#[verifier::rlimit(40)]
pub proof fn law_thread_paths(request: RequestView, skill_path: Seq<char>, id: Seq<char>)
    requires
        is_plain(id),
        "/events"@.skip(1) != id,
        "/turns"@.skip(1) != id,
        request.path == "/api/local/ai/threads/"@ + id,
    ensures
        request.method == "GET"@ ==> leads(request, skill_path, CallView::ShowThread(id)),
        request.method == "PATCH"@ ==> leads(request, skill_path, CallView::UpdateThread(id)),
        request.method == "DELETE"@ ==> leads(request, skill_path, CallView::DeleteThread(id)),
{
    lemma_methods();
    lemma_heads();
    lemma_steps();
    let path = request.path;
    let prefix = routes::THREADS@;
    assert(id[0] != '/') by {
        assert(id.contains(id[0]));
    }
    assert(prefix[1] == 'a') by {
        reveal_strlit("/api/local/ai/threads/");
    }
    assert(path[5] == prefix[5] && path[1] == prefix[1] && path[11] == prefix[11]);
    lemma_not_general(request, skill_path);
    lemma_path_of_one(prefix, id, "/events"@);
    lemma_path_of_one(prefix, id, "/turns"@);
    lemma_segment(id, "thread id"@);
    lemma_last_segment(prefix, id);
}

/// What happens in a thread is told below its path, and turns are started there with a body that is
/// JSON; a turn is interrupted below the path of its run.
#[verifier::rlimit(40)]
pub proof fn law_paths_below_a_thread(request: RequestView, skill_path: Seq<char>, id: Seq<char>)
    requires
        is_plain(id),
    ensures
        request.path == "/api/local/ai/threads/"@ + id + "/events"@ && request.method == "GET"@
            ==> leads(request, skill_path, CallView::OpenStream(id)),
        request.path == "/api/local/ai/threads/"@ + id + "/turns"@ && request.method == "POST"@
            && routes::body_value(request.body) is Ok ==> leads(
            request,
            skill_path,
            CallView::StartTurn(id),
        ),
        request.path == "/api/local/ai/runs/"@ + id + "/interrupt"@ && request.method == "POST"@
            ==> leads(request, skill_path, CallView::InterruptRun(id)),
{
    lemma_methods();
    lemma_heads();
    lemma_steps();
    let path = request.path;
    lemma_segment(id, "route segment"@);
    if path == "/api/local/ai/threads/"@ + id + "/events"@ || path == "/api/local/ai/threads/"@ + id
        + "/turns"@ {
        let prefix = routes::THREADS@;
        assert(prefix[1] == 'a') by {
            reveal_strlit("/api/local/ai/threads/");
        }
        assert(path[5] == prefix[5] && path[1] == prefix[1] && path[11] == prefix[11]);
        lemma_not_general(request, skill_path);
        lemma_path_of_two(prefix, id, "/events"@, "/events"@);
        lemma_path_of_two(prefix, id, "/turns"@, "/events"@);
        lemma_path_of_two(prefix, id, "/turns"@, "/turns"@);
    }
    if path == "/api/local/ai/runs/"@ + id + "/interrupt"@ {
        let prefix = routes::RUNS@;
        assert(prefix[1] == 'a') by {
            reveal_strlit("/api/local/ai/runs/");
        }
        assert(path[5] == prefix[5] && path[1] == prefix[1] && path[11] == prefix[11] && path[14]
            == prefix[14]);
        lemma_not_general(request, skill_path);
        lemma_other_start(path, routes::THREADS@, 14);
        lemma_path_of_two(prefix, id, "/interrupt"@, "/interrupt"@);
    }
}

/// A project is deleted by its path, archived below it, and its workflow is stored and shown below
/// it.
#[verifier::rlimit(40)]
pub proof fn law_project_paths(request: RequestView, skill_path: Seq<char>, id: Seq<char>)
    requires
        is_plain(id),
        "/archive"@.skip(1) != id,
        "/development-contexts"@.skip(1) != id,
        "/workflow-workspace"@.skip(1) != id,
    ensures
        request.path == "/api/projects/"@ + id && request.method == "DELETE"@ ==> leads(
            request,
            skill_path,
            CallView::DeleteProject(id),
        ),
        request.path == "/api/projects/"@ + id + "/archive"@ && request.method == "POST"@ ==> leads(
            request,
            skill_path,
            CallView::ArchiveProject(id),
        ),
        request.path == "/api/projects/"@ + id + "/workflow-workspace"@ ==> {
            &&& request.method == "PUT"@ ==> leads(request, skill_path, CallView::SaveWorkflow(id))
            &&& request.method == "GET"@ ==> leads(request, skill_path, CallView::ShowWorkflow(id))
        },
        request.path == "/api/projects/"@ + id + "/development-contexts"@ && request.method
            == "GET"@ ==> is_answered(
            request,
            skill_path,
            ResponseView::Json(
                200,
                JsonView::Object(
                    seq![
                        ("workspacePath"@, JsonView::Null),
                        ("contexts"@, JsonView::Array(Seq::empty())),
                    ],
                ),
            ),
        ),
{
    lemma_methods();
    lemma_heads();
    lemma_steps();
    let path = request.path;
    let prefix = routes::PROJECTS@;
    assert(prefix[1] == 'a') by {
        reveal_strlit("/api/projects/");
    }
    assert(id[0] != '/') by {
        assert(id.contains(id[0]));
    }
    lemma_segment(id, "route segment"@);
    lemma_segment(id, "project id"@);
    if path == prefix + id {
        assert(path[5] == prefix[5] && path[1] == prefix[1]);
        lemma_not_general(request, skill_path);
        lemma_not_ai(request);
        lemma_path_of_one(prefix, id, "/archive"@);
        lemma_path_of_one(prefix, id, "/development-contexts"@);
        lemma_path_of_one(prefix, id, "/workflow-workspace"@);
        lemma_other_start(path, routes::TASKS@, 5);
        lemma_other_start(path, routes::COMMENTS@, 5);
        lemma_other_start(path, routes::ATTACHMENTS@, 5);
        assert(routes::project_route(path, request.method) is None);
        assert(routes::attached_route(path, request.method) is None);
        assert(routes::comment_route(path, request.method) is None);
        lemma_last_segment(prefix, id);
    }
    lemma_project_step(request, skill_path, id, "/archive"@);
    lemma_project_step(request, skill_path, id, "/development-contexts"@);
    lemma_project_step(request, skill_path, id, "/workflow-workspace"@);
    assert(routes::no_contexts() == ResponseView::Json(
        200,
        JsonView::Object(
            seq![
                ("workspacePath"@, JsonView::Null),
                ("contexts"@, JsonView::Array(Seq::empty())),
            ],
        ),
    )) by {
        assert(json::members().push(("workspacePath"@, JsonView::Null)).push(
            ("contexts"@, JsonView::Array(Seq::empty())),
        ) =~= seq![
            ("workspacePath"@, JsonView::Null),
            ("contexts"@, JsonView::Array(Seq::empty())),
        ]);
    }
}

proof fn lemma_project_step(
    request: RequestView,
    skill_path: Seq<char>,
    id: Seq<char>,
    step: Seq<char>,
)
    requires
        is_plain(id),
        is_step(step),
    ensures
        request.path == "/api/projects/"@ + id + step ==> {
            &&& routes::general_route(request, skill_path) is None
            &&& routes::ai_route(request) is None
            &&& forall|other: Seq<char>|
                is_step(other) ==> #[trigger] routes::tail(request.path, routes::PROJECTS@, other)
                    == Ok::<Option<Seq<char>>, Seq<char>>(
                    if other == step {
                        Some(id)
                    } else {
                        None
                    },
                )
            &&& request.path != "/api/tasks"@
            &&& request.path != "/api/events"@
        },
{
    lemma_heads();
    let path = request.path;
    let prefix = routes::PROJECTS@;
    if path == prefix + id + step {
        assert(prefix[1] == 'a') by {
            reveal_strlit("/api/projects/");
        }
        assert(path[5] == prefix[5] && path[1] == prefix[1]);
        lemma_not_general(request, skill_path);
        lemma_not_ai(request);
        lemma_segment(id, "route segment"@);
        assert forall|other: Seq<char>| is_step(other) implies #[trigger] routes::tail(
            path,
            prefix,
            other,
        ) == Ok::<Option<Seq<char>>, Seq<char>>(
            if other == step {
                Some(id)
            } else {
                None
            },
        ) by {
            lemma_path_of_two(prefix, id, step, other);
        }
    }
}

/// What is asked for without the store is answered at once, and always alike.
#[verifier::rlimit(40)]
pub proof fn law_fixed_answers(request: RequestView, skill_path: Seq<char>)
    ensures
        request.method == "GET"@ ==> {
            &&& request.path == "/health"@ ==> is_answered(
                request,
                skill_path,
                ResponseView::JsonWithHeaders(
                    200,
                    Seq::empty().push(("x-taskboard-bind-host"@, "127.0.0.1"@)),
                    alone("status"@, JsonView::Text("ok"@)),
                ),
            )
            &&& request.path == "/api/meta"@ ==> is_answered(
                request,
                skill_path,
                ResponseView::Json(
                    200,
                    JsonView::Object(
                        json::members().push(
                            ("manageTaskboardSkillPath"@, JsonView::Text(skill_path)),
                        ).push(
                            ("capabilities"@, alone("localAiChat"@, JsonView::Bool(true))),
                        ).push(
                            ("localCapabilities"@, alone("available"@, JsonView::Bool(true))),
                        ),
                    ),
                ),
            )
            &&& request.path == "/api/device-workspaces"@ ==> is_answered(
                request,
                skill_path,
                ResponseView::Json(200, alone("workspaces"@, JsonView::Object(json::members()))),
            )
            &&& request.path == "/api/workflow-capabilities"@ ==> is_answered(
                request,
                skill_path,
                ResponseView::Json(
                    200,
                    JsonView::Object(
                        json::members().push(("skills"@, JsonView::Array(Seq::empty()))).push(
                            ("mcpServers"@, JsonView::Array(Seq::empty())),
                        ),
                    ),
                ),
            )
            &&& request.path == "/api/revisions"@ ==> is_answered(
                request,
                skill_path,
                ResponseView::Json(
                    200,
                    JsonView::Object(
                        json::members().push(("changed"@, JsonView::Bool(false))).push(
                            ("revision"@, JsonView::Integer(1)),
                        ),
                    ),
                ),
            )
        },
        request.method == "POST"@ && request.path == "/api/local/codex/threads/sync"@
            ==> is_answered(request, skill_path, ResponseView::Empty(204)),
{
    lemma_fixed_routes(request, skill_path);
}

/// An object with one member.
pub open spec fn alone(name: Seq<char>, value: JsonView) -> JsonView {
    JsonView::Object(json::members().push((name, value)))
}

#[verifier::rlimit(40)]
proof fn lemma_fixed_routes(request: RequestView, skill_path: Seq<char>)
    ensures
        request.method == "GET"@ ==> {
            &&& request.path == "/health"@ ==> is_answered(request, skill_path, routes::health())
            &&& request.path == "/api/meta"@ ==> is_answered(
                request,
                skill_path,
                routes::meta(skill_path),
            )
            &&& request.path == "/api/device-workspaces"@ ==> is_answered(
                request,
                skill_path,
                routes::no_workspaces(),
            )
            &&& request.path == "/api/workflow-capabilities"@ ==> is_answered(
                request,
                skill_path,
                routes::no_workflow_capabilities(),
            )
            &&& request.path == "/api/revisions"@ ==> is_answered(
                request,
                skill_path,
                routes::no_revision(),
            )
        },
        request.method == "POST"@ && request.path == "/api/local/codex/threads/sync"@
            ==> is_answered(request, skill_path, ResponseView::Empty(204)),
{
    lemma_heads();
    lemma_methods();
    let path = request.path;
    if path == "/health"@ {
        assert(routes::general_route(request, skill_path) is Some);
    } else if path == "/api/meta"@ {
        assert(routes::general_route(request, skill_path) is Some);
    } else if path == "/api/device-workspaces"@ {
        assert(routes::general_route(request, skill_path) is Some);
    } else if path == "/api/workflow-capabilities"@ {
        assert(routes::general_route(request, skill_path) is Some);
    } else if path == "/api/revisions"@ {
        assert(routes::general_route(request, skill_path) is Some);
    } else if path == "/api/local/codex/threads/sync"@ {
        assert(routes::general_route(request, skill_path) is Some);
    }
}

/// A conversation of Codex is shown by its path, with its identifier and without a title.
#[verifier::rlimit(40)]
pub proof fn law_codex_thread_paths(request: RequestView, skill_path: Seq<char>, id: Seq<char>)
    requires
        is_plain(id),
        id != "sync"@,
        request.path == "/api/local/codex/threads/"@ + id,
        request.method == "GET"@,
    ensures
        is_answered(
            request,
            skill_path,
            ResponseView::Json(
                200,
                alone(
                    "thread"@,
                    JsonView::Object(
                        json::members().push(("id"@, JsonView::Text(id))).push(
                            ("title"@, JsonView::Null),
                        ),
                    ),
                ),
            ),
        ),
{
    lemma_heads();
    lemma_methods();
    let path = request.path;
    let prefix = routes::CODEX_THREADS@;
    reveal_strlit("/api/local/codex/threads/");
    assert(id[0] != '/') by {
        assert(id.contains(id[0]));
    }
    assert(path.take(25) =~= prefix);
    assert(path[1] == 'a' && path[5] == 'l' && path[11] == 'c');
    assert(path != "/api/local/codex/threads/sync"@) by {
        reveal_strlit("/api/local/codex/threads/sync");
        reveal_strlit("sync");
        if path == "/api/local/codex/threads/sync"@ {
            assert(path.skip(25) =~= id);
            assert("/api/local/codex/threads/sync"@.skip(25) =~= "sync"@);
        }
    }
    lemma_segment(id, "thread id"@);
    lemma_last_segment(prefix, id);
}

/// A request that only answers is refused with any other method than its own.
pub proof fn law_other_methods_are_refused(request: RequestView, skill_path: Seq<char>)
    ensures
        request.method != "GET"@ && (request.path == "/health"@ || request.path == "/api/meta"@
            || request.path == "/api/device-workspaces"@ || request.path
            == "/api/workflow-capabilities"@ || request.path == "/api/revisions"@) ==> is_refused(
            request,
            skill_path,
        ),
        request.method != "POST"@ && request.path == "/api/local/codex/threads/sync"@ ==> is_refused(
            request,
            skill_path,
        ),
        request.method != "GET"@ && request.path == "/api/local/ai/catalog"@ ==> is_refused(
            request,
            skill_path,
        ),
        request.method != "GET"@ && request.method != "POST"@ && request.path
            == "/api/local/ai/threads"@ ==> leads(
            request,
            skill_path,
            CallView::Fail("method not allowed"@),
        ),
{
    lemma_heads();
    let path = request.path;
    if path == "/api/local/ai/catalog"@ || path == "/api/local/ai/threads"@ {
        lemma_other_start(path, routes::CODEX_THREADS@, 11);
        assert(routes::general_route(request, skill_path) is None) by {
            reveal_strlit("/api/local/ai/catalog");
            reveal_strlit("/api/local/ai/threads");
        }
    }
}

/// Whether a request is refused for its method.
pub open spec fn is_refused(request: RequestView, skill_path: Seq<char>) -> bool {
    routes::route_of(request, skill_path) == Err::<RouteView, Seq<char>>("method not allowed"@)
}

/// Whether the interface has something at a path or below it.
pub open spec fn is_known(path: Seq<char>) -> bool {
    ||| path == "/health"@
    ||| path == "/api/meta"@
    ||| path == "/api/device-workspaces"@
    ||| path == "/api/workflow-capabilities"@
    ||| path == "/api/projects"@
    ||| path == "/api/revisions"@
    ||| path == "/api/tasks"@
    ||| path == "/api/events"@
    ||| path == "/api/local/ai/catalog"@
    ||| path == "/api/local/ai/threads"@
    ||| path == "/api/local/codex/threads/sync"@
    ||| text::has_prefix(path, "/api/local/codex/threads/"@)
    ||| text::has_prefix(path, "/api/local/ai/threads/"@)
    ||| text::has_prefix(path, "/api/local/ai/runs/"@)
    ||| text::has_prefix(path, "/api/projects/"@)
    ||| text::has_prefix(path, "/api/tasks/"@)
    ||| text::has_prefix(path, "/api/comments/"@)
    ||| text::has_prefix(path, "/api/attachments/"@)
}

/// A path that is not known is answered, inside the interface, with that it is not there yet, and
/// outside it with a file of the page; with any method.
#[verifier::rlimit(40)]
pub proof fn law_other_paths(request: RequestView, skill_path: Seq<char>)
    requires
        !is_known(request.path),
    ensures
        text::has_prefix(request.path, "/api/"@) ==> is_answered(
            request,
            skill_path,
            exchange::refusal(
                501,
                "NOT_IMPLEMENTED"@,
                "This Taskboard route is not migrated to the embedded Rust service yet."@,
            ),
        ),
        !text::has_prefix(request.path, "/api/"@) ==> routes::route_of(request, skill_path) == Ok::<
            RouteView,
            Seq<char>,
        >(RouteView::Page),
{
    assert(routes::general_route(request, skill_path) is None);
    assert(routes::ai_route(request) is None);
    assert(routes::project_route(request.path, request.method) is None);
    assert(routes::attached_route(request.path, request.method) is None);
    assert(routes::comment_route(request.path, request.method) is None);
}

} // verus!
