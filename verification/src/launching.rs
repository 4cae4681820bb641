//! What the launcher does to bring up the service, from what it finds.
use crate::encoding;
use crate::runtime;
use crate::runtime::{
    Base, EmbeddedStateView, EmbeddedStepView, EmbeddedTaskboardPaths, HealthStepView, NodePlace,
    NodeStepView, PlaceStepView, RootStepView, RuntimeStepView, ServiceProgram, SpawnStateView,
    SpawnStepView, WaitStep,
};
use crate::sending;
use crate::text;
use vstd::prelude::*;
use vstd::utf8::*;

verus! {

/// Whether a text is white space alone.
pub open spec fn is_blank(s: Seq<char>) -> bool {
    forall|i: int| 0 <= i < s.len() ==> text::is_white_space(#[trigger] s[i])
}

/// What a variable of the environment says is its text without the white space around it, and
/// nothing where the variable is not set or is white space alone.
pub proof fn law_variable_says_its_text(variable: Option<Seq<char>>)
    ensures
        match runtime::said(variable) {
            None => variable is None || is_blank(variable->0),
            Some(t) => variable is Some && t.len() > 0 && sending::is_inner(t, variable->0),
        },
{
    if variable is Some {
        let s = variable->0;
        sending::law_trimmed_text_is_what_stands_inside(s);
        let inner = text::trimmed(s);
        if inner.len() == 0 {
            let at = choose|at: int| sending::stands_at(inner, s, at);
            assert forall|i: int| 0 <= i < s.len() implies text::is_white_space(
                #[trigger] s[i],
            ) by {}
        }
    }
}

/// The service is bound to all addresses only where the host that was asked for says so, and to the
/// loopback address in all other cases; a warning is given only in the first.
pub proof fn law_host_is_the_one_asked_for(host: Option<Seq<char>>)
    ensures
        runtime::said(host) == Some("0.0.0.0"@) ==> runtime::is_shared(host) && runtime::bound_host(
            host,
        ) == "0.0.0.0"@,
        runtime::said(host) != Some("0.0.0.0"@) ==> !runtime::is_shared(host)
            && runtime::bound_host(host) == "127.0.0.1"@,
        runtime::launch_warning(host) == (if runtime::said(host) == Some("0.0.0.0"@) {
            Some(
                "LAN sharing is enabled; requests require Basic auth and same-origin protection."@,
            )
        } else {
            None
        }),
{
}

/// The questions of the launcher: one for the health, then one for the page, each for the port of
/// the service and with the secret, where there is one, as the password of `codex`.
pub proof fn law_questions_are_written(
    responses: Seq<Option<Seq<char>>>,
    host: Option<Seq<char>>,
    secret: Option<Seq<char>>,
    question: Seq<char>,
)
    requires
        runtime::health_step(responses, host, secret) == HealthStepView::Send(question),
    ensures
        responses.len() <= 1,
        ({
            let carried = match runtime::said(secret) {
                Some(s) => "Authorization: Basic "@ + encoding::base64_text(
                    encode_utf8("codex:"@ + s),
                ) + "\r\n"@,
                None => Seq::empty(),
            };
            question == (if responses.len() == 0 {
                "GET /health"@
            } else {
                "GET /?host=codex"@
            }) + " HTTP/1.1\r\nHost: 127.0.0.1:47823\r\n"@ + carried + "Connection: close\r\n\r\n"@
        }),
{
}

/// Whether an answer tells that the service is well, on a host: a line of it names the host, in the
/// header for it, whose name may be written in capitals.
pub open spec fn tells_health(response: Seq<char>, host: Seq<char>) -> bool {
    &&& text::holds(response, " 200 "@)
    &&& text::holds(response, "\"status\":\"ok\""@)
    &&& exists|i: int| names_host(#[trigger] text::lines_spec(response)[i], host) && 0 <= i
        < text::lines_spec(response).len()
}

/// Whether a line is the header that names a host.
pub open spec fn names_host(line: Seq<char>, host: Seq<char>) -> bool {
    exists|k: int|
        0 <= k < line.len() && #[trigger] line[k] == ':' && !line.take(k).contains(':')
            && text::lowered(line.take(k)) == text::lowered("x-taskboard-bind-host"@)
            && text::trimmed(line.skip(k + 1)) == host
}

/// Whether an answer is the page of the service.
pub open spec fn is_page(response: Seq<char>) -> bool {
    &&& text::holds(response, " 200 "@)
    &&& text::holds(response, "<div id=\"root\""@)
    &&& exists|i: int|
        0 <= i < text::lines_spec(response).len() && text::has_prefix(
            text::lowered(#[trigger] text::lines_spec(response)[i]),
            "content-type: text/html"@,
        )
}

proof fn lemma_binding_line(line: Seq<char>, host: Seq<char>)
    ensures
        runtime::binds(line, host) <==> names_host(line, host),
{
    if line.contains(':') {
        let p = text::position(line, ':');
        text::lemma_position(line, ':');
        assert(line[p] == ':');
        assert(!line.take(p).contains(':'));
        if names_host(line, host) {
            let k = choose|k: int|
                0 <= k < line.len() && #[trigger] line[k] == ':' && !line.take(k).contains(':')
                    && text::lowered(line.take(k)) == text::lowered("x-taskboard-bind-host"@)
                    && text::trimmed(line.skip(k + 1)) == host;
            if k < p {
                assert(line.take(p)[k] == ':');
                assert(line.take(p).contains(':'));
            }
            if p < k {
                assert(line.take(k)[p] == ':');
                assert(line.take(k).contains(':'));
            }
        }
    }
}

/// The verdict on the health: the service is up where its answer tells so, on the host that was
/// asked for, and where its page is sent; it is not where one of both fails, and the page is not
/// asked for where the answer already failed.
pub proof fn law_verdict_on_the_health(
    responses: Seq<Option<Seq<char>>>,
    host: Option<Seq<char>>,
    secret: Option<Seq<char>>,
)
    ensures
        ({
            let well = responses.len() > 0 && responses[0] is Some && tells_health(
                responses[0]->0,
                runtime::bound_host(host),
            );
            let shown = responses.len() > 1 && responses[1] is Some && is_page(responses[1]->0);
            let step = runtime::health_step(responses, host, secret);
            &&& step == HealthStepView::Verdict(true) <==> well && shown
            &&& step == HealthStepView::Verdict(false) <==> responses.len() > 0 && !well
                || responses.len() > 1 && !shown
        }),
{
    if responses.len() > 0 && responses[0] is Some {
        let lines = text::lines_spec(responses[0]->0);
        let bound = runtime::bound_host(host);
        assert forall|i: int| 0 <= i < lines.len() implies runtime::binds(#[trigger] lines[i], bound)
            == names_host(lines[i], bound) by {
            lemma_binding_line(lines[i], bound);
        }
    }
    if responses.len() > 1 && responses[1] is Some {
        let lines = text::lines_spec(responses[1]->0);
        assert forall|i: int| 0 <= i < lines.len() implies runtime::is_html_line(
            #[trigger] lines[i],
        ) == text::has_prefix(text::lowered(lines[i]), "content-type: text/html"@) by {}
    }
}

/// The launcher waits as long as it has time: it looks, sleeps where that did not help, and gives
/// up only once the time is over.
pub proof fn law_waiting(elapsed: int, timeout: int)
    ensures
        runtime::wait_step(elapsed, timeout, Some(true)) == WaitStep::Verdict(true),
        runtime::wait_step(elapsed, timeout, Some(false)) == WaitStep::Sleep,
        elapsed < timeout ==> runtime::wait_step(elapsed, timeout, None) == WaitStep::Look,
        elapsed >= timeout ==> runtime::wait_step(elapsed, timeout, None) == WaitStep::Verdict(
            false,
        ),
{
}

/// The names that lead to the script that starts the service from its root.
pub open spec fn script() -> Seq<Seq<char>> {
    Seq::empty().push("scripts"@).push("codex-injector.mjs"@)
}

/// The names that lead to the page of the service.
pub open spec fn start_page() -> Seq<Seq<char>> {
    Seq::empty().push("dist"@).push("web"@).push("index.html"@)
}

/// The names that lead to the server.
pub open spec fn server_script() -> Seq<Seq<char>> {
    Seq::empty().push("server"@).push("index.mjs"@)
}

/// Whether answers tell which files are there: each is that to the question that was put when the
/// answers before it were known.
pub open spec fn are_answers(found: Seq<bool>, is_file: spec_fn(Seq<Seq<char>>) -> bool) -> bool {
    forall|k: int|
        0 <= k < found.len() ==> (runtime::runtime_step(#[trigger] found.take(k)) matches
            RuntimeStepView::Probe(names) ==> found[k] == is_file(names))
}

/// A directory is a root of the service where it holds the script and, with it, the page or the
/// server: the look at it comes to this verdict with at most three answers, and to no other.
pub proof fn law_root_holds_its_files(
    found: Seq<bool>,
    is_file: spec_fn(Seq<Seq<char>>) -> bool,
    verdict: bool,
)
    requires
        are_answers(found, is_file),
    ensures
        runtime::runtime_step(found) == RuntimeStepView::Verdict(verdict) ==> verdict == (is_file(
            script(),
        ) && (is_file(start_page()) || is_file(server_script()))),
        found.len() >= 3 ==> runtime::runtime_step(found) is Verdict,
        runtime::runtime_step(found) matches RuntimeStepView::Probe(names) ==> names == script()
            || names == start_page() || names == server_script(),
{
    if found.len() > 0 {
        assert(found.take(0) =~= Seq::empty());
        assert(runtime::runtime_step(found.take(0)) == RuntimeStepView::Probe(script()));
    }
    if found.len() > 1 && found[0] {
        assert(found.take(1)[0]);
        assert(runtime::runtime_step(found.take(1)) == RuntimeStepView::Probe(start_page()));
    }
    if found.len() > 2 && found[0] && !found[1] {
        assert(found.take(2)[0] && !found.take(2)[1]);
        assert(runtime::runtime_step(found.take(2)) == RuntimeStepView::Probe(server_script()));
    }
}

/// The root that a variable names is taken where it is one, as the look at it tells; else one is
/// searched for.
pub proof fn law_root_of_the_variable_comes_first(found: Seq<bool>)
    ensures
        runtime::place_step(false, found) == PlaceStepView::Search,
        runtime::place_step(true, found) == PlaceStepView::Variable <==> runtime::runtime_step(found)
            == RuntimeStepView::Verdict(true),
        runtime::place_step(true, found) == PlaceStepView::Search <==> runtime::runtime_step(found)
            == RuntimeStepView::Verdict(false),
        runtime::runtime_step(found) matches RuntimeStepView::Probe(names)
            ==> runtime::place_step(true, found) == PlaceStepView::Probe(names),
{
}

/// The search for a root starts with the package in the nearest directory, and what it comes to is
/// a package or a tree of sources.
pub proof fn law_search_looks_for_packages_and_sources(
    level: int,
    sources: bool,
    levels: int,
    found: Seq<bool>,
)
    ensures
        level < levels ==> runtime::search(level, false, levels, Seq::empty())
            == RootStepView::Probe(level, seq!["codex-taskboard"@] + script()),
        level < levels ==> runtime::search(level, false, levels, seq![false])
            == RootStepView::Probe(level, seq!["apps"@, "codex-taskboard"@] + script()),
        runtime::search(level, sources, levels, found) matches RootStepView::Found(l, names) ==> {
            &&& level <= l < levels
            &&& names == seq!["codex-taskboard"@] || names == seq!["apps"@, "codex-taskboard"@]
        },
        level >= levels ==> runtime::search(level, sources, levels, found) is Missing,
    decreases levels - level, (if sources { 0int } else { 1int }),
{
    assert(runtime::root_names(false) =~= seq!["codex-taskboard"@]);
    assert(runtime::root_names(true) =~= seq!["apps"@, "codex-taskboard"@]);
    if level < levels {
        assert(seq![false].skip(1) =~= Seq::empty());
        assert(runtime::search(level, true, levels, Seq::empty()) == RootStepView::Probe(
            level,
            runtime::root_names(true) + script(),
        ));
        if runtime::runtime_step(found) == RuntimeStepView::Verdict(false) {
            let rest = found.skip(runtime::answers_taken(found));
            if sources {
                law_search_looks_for_packages_and_sources(level + 1, false, levels, rest);
            } else {
                law_search_looks_for_packages_and_sources(level, true, levels, rest);
            }
        }
    }
}

/// The service on its own is the server of the root, run there, where the root holds it, and else
/// the command; it is told the host either way.
pub proof fn law_service_is_run_as_it_is_found(has_server: bool, host: Option<Seq<char>>)
    ensures
        ({
            let plan = runtime::service_plan(has_server, host);
            &&& plan.host == runtime::bound_host(host)
            &&& plan.in_root == has_server
            &&& has_server ==> plan.program == ServiceProgram::Server && plan.script
                == server_script()
            &&& !has_server ==> plan.program == ServiceProgram::Command && plan.script.len() == 0
        }),
{
}

/// The way to a running service: it ends at once where one is healthy; without one its root is
/// looked for, and the embedded service is started where the root is known and nothing is shared;
/// any other is run on its own, also where the embedded one could not be.
pub proof fn law_way_to_a_running_service(
    host: Option<Seq<char>>,
    secret: Option<Seq<char>>,
    state: SpawnStateView,
)
    ensures
        ({
            let shared = runtime::said(host) == Some("0.0.0.0"@);
            let step = runtime::spawn_step(host, secret, state);
            let refused = shared && runtime::said(secret) is None;
            &&& refused ==> step == SpawnStepView::Fail(
                "CODEX_TASKBOARD_HOST=0.0.0.0 requires TASKBOARD_SHARED_SECRET for LAN sharing"@,
            )
            &&& !refused && state.healthy is None ==> step == SpawnStepView::CheckHealth
            &&& !refused && state.healthy == Some(true) ==> step == SpawnStepView::Done
            &&& !refused && state.healthy == Some(false) ==> {
                &&& state.rooted is None ==> step == SpawnStepView::FindRoot
                &&& state.rooted == Some(false) ==> step == SpawnStepView::RunService
                &&& state.rooted == Some(true) && shared ==> step == SpawnStepView::RunService
                &&& state.rooted == Some(true) && !shared ==> {
                    &&& state.embedded is None ==> step == SpawnStepView::StartEmbedded
                    &&& state.embedded == Some(Ok::<bool, Seq<char>>(true)) ==> step
                        == SpawnStepView::Done
                    &&& state.embedded == Some(Ok::<bool, Seq<char>>(false)) ==> step
                        == SpawnStepView::RunService
                    &&& state.embedded matches Some(Err(m)) ==> step == SpawnStepView::Fail(m)
                }
            }
        }),
{
}

/// Node is the one that a variable names, where that is a file; else the one of Codex in the home of
/// the user, where that is a file; else the program of its name.
pub proof fn law_node_is_found_in_its_places(
    has_variable: bool,
    has_home: bool,
    windows: bool,
    variable: bool,
    bundled: bool,
)
    ensures
        ({
            let program = if windows {
                "node.exe"@
            } else {
                "node"@
            };
            let found = runtime::node_step(
                has_variable,
                has_home,
                windows,
                Some(variable),
                Some(bundled),
            );
            &&& has_variable && variable ==> found == NodeStepView::Use(NodePlace::Variable)
            &&& !(has_variable && variable) && has_home && bundled ==> found == NodeStepView::Use(
                NodePlace::Bundled,
            )
            &&& !(has_variable && variable) && !(has_home && bundled) ==> found
                == NodeStepView::Program(program)
            &&& has_variable ==> runtime::node_step(has_variable, has_home, windows, None, None)
                == NodeStepView::Probe(NodePlace::Variable)
            &&& !(has_variable && variable) && has_home ==> runtime::node_step(
                has_variable,
                has_home,
                windows,
                Some(variable),
                None,
            ) == NodeStepView::Probe(NodePlace::Bundled)
            &&& runtime::bundled_names(windows) == seq![
                ".cache"@,
                "codex-runtimes"@,
                "codex-primary-runtime"@,
                "dependencies"@,
                "node"@,
                "bin"@,
                program,
            ]
        }),
{
}

/// The paths of the embedded service: its page and its skill are below the root, and its store and
/// its files are in the data directory, which is below the root unless it is set.
pub proof fn law_paths_of_the_embedded_service(paths: EmbeddedTaskboardPaths, data_dir_set: bool)
    requires
        paths.are_from_root(data_dir_set),
    ensures
        paths.static_dir@ == (Base::Root, Seq::empty().push("dist"@).push("web"@)),
        paths.skill_path@ == (
            Base::Root,
            Seq::empty().push("skills"@).push("manage-taskboard"@).push("SKILL.md"@),
        ),
        data_dir_set ==> {
            &&& paths.database_path@ == (Base::Data, Seq::empty().push("taskboard.sqlite"@))
            &&& paths.attachments_dir@ == (Base::Data, Seq::empty().push("attachments"@))
        },
        !data_dir_set ==> {
            &&& paths.database_path@ == (
                Base::Root,
                Seq::empty().push(".data"@).push("taskboard.sqlite"@),
            )
            &&& paths.attachments_dir@ == (
                Base::Root,
                Seq::empty().push(".data"@).push("attachments"@),
            )
        },
{
}

/// The way to the embedded service: its page is looked for, it is marked as started, its store is
/// opened and then its port; where its page is missing it does not run, where it was started before
/// it does, and where its store or its port cannot be opened the mark is taken away.
pub proof fn law_way_to_the_embedded_service(state: EmbeddedStateView)
    ensures
        ({
            let step = runtime::embedded_step(state);
            let fresh = state.ready == Some(true) && state.started_before == Some(false);
            &&& state.ready is None <==> step == EmbeddedStepView::CheckReady
            &&& state.ready == Some(false) <==> step == EmbeddedStepView::Answer(false)
            &&& state.ready == Some(true) && state.started_before is None <==> step
                == EmbeddedStepView::MarkStarted
            &&& state.ready == Some(true) && state.started_before == Some(true) <==> step
                == EmbeddedStepView::Answer(true)
            &&& fresh && state.database is None <==> step == EmbeddedStepView::InitDatabase
            &&& fresh ==> (state.database matches Some(Err(m)) ==> step
                == EmbeddedStepView::Withdraw(m))
            &&& fresh && state.database is Some && state.database->0 is Ok && state.listener is None
                <==> step == EmbeddedStepView::Bind
            &&& fresh && state.database is Some && state.database->0 is Ok ==> (state.listener
                matches Some(Err(m)) ==> step == EmbeddedStepView::Withdraw(m))
            &&& fresh && state.database is Some && state.database->0 is Ok && state.listener is Some
                && state.listener->0 is Ok <==> step == EmbeddedStepView::Serve
        }),
{
}

/// The search for a root starts at a directory itself, and above any other program.
pub proof fn law_search_starts_at_a_directory(levels: int)
    ensures
        levels > 0 ==> runtime::search(runtime::first_level(true), false, levels, Seq::empty())
            == RootStepView::Probe(0, seq!["codex-taskboard"@] + script()),
        levels > 1 ==> runtime::search(runtime::first_level(false), false, levels, Seq::empty())
            == RootStepView::Probe(1, seq!["codex-taskboard"@] + script()),
        runtime::search(runtime::first_level(false), false, 1, Seq::empty()) is Missing,
{
    assert(runtime::root_names(false) =~= seq!["codex-taskboard"@]);
}

/// The embedded service is ready exactly where its start page is there, which is looked for in the
/// directory of its page.
pub proof fn law_service_is_ready_with_its_page(
    paths: EmbeddedTaskboardPaths,
    data_dir_set: bool,
    found: bool,
)
    requires
        paths.are_from_root(data_dir_set),
    ensures
        runtime::ready_step(paths.static_dir@, None) == runtime::ReadyStepView::Probe(
            (Base::Root, start_page()),
        ),
        runtime::ready_step(paths.static_dir@, Some(found)) == runtime::ReadyStepView::Verdict(
            found,
        ),
{
}

} // verus!
