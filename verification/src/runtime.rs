//! The service as it is found, started and watched: its host, its health, its files.
use crate::encoding;
use crate::json;
use crate::text;
use vstd::prelude::*;
use vstd::utf8::*;

verus! {

pub const TASKBOARD_PORT: u16 = 47823;

pub const TASKBOARD_URL: &'static str = "http://127.0.0.1:47823/?host=codex";

pub const TASKBOARD_HOST_ENV: &'static str = "CODEX_TASKBOARD_HOST";

pub const TASKBOARD_SHARED_SECRET_ENV: &'static str = "TASKBOARD_SHARED_SECRET";

pub const LOOPBACK_TASKBOARD_HOST: &'static str = "127.0.0.1";

pub const LAN_TASKBOARD_HOST: &'static str = "0.0.0.0";

pub const TASKBOARD_BIND_HOST_HEADER: &'static str = "x-taskboard-bind-host";

pub const LAN_SHARING_WARNING: &'static str = "LAN sharing is enabled; requests require Basic auth and same-origin protection.";

/// What a variable of the environment says: its text without the white space around it, unless that
/// is empty.
pub open spec fn said(variable: Option<Seq<char>>) -> Option<Seq<char>> {
    match variable {
        Some(s) => if text::trimmed(s).len() == 0 {
            None
        } else {
            Some(text::trimmed(s))
        },
        None => None,
    }
}

fn read_variable(variable: Option<&str>) -> (r: Option<String>)
    ensures
        r.deep_view() == said(variable.deep_view()),
{
    match variable {
        Some(s) => {
            let trimmed = text::trim(s);
            if trimmed.as_str().is_empty() {
                None
            } else {
                Some(trimmed)
            }
        },
        None => None,
    }
}

/// The host that the environment asks for.
pub fn taskboard_requested_host(variable: Option<&str>) -> (r: Option<String>)
    ensures
        r.deep_view() == said(variable.deep_view()),
{
    read_variable(variable)
}

/// The secret that is shared with the clients.
pub fn taskboard_shared_secret(variable: Option<&str>) -> (r: Option<String>)
    ensures
        r.deep_view() == said(variable.deep_view()),
{
    read_variable(variable)
}

/// Whether the environment asks for the service to be shared in the local network.
pub open spec fn is_shared(host: Option<Seq<char>>) -> bool {
    said(host) == Some(LAN_TASKBOARD_HOST@)
}

/// Tells whether the service is to be shared.
pub fn taskboard_lan_sharing_enabled(host: Option<&str>) -> (r: bool)
    ensures
        r == is_shared(host.deep_view()),
{
    match taskboard_requested_host(host) {
        Some(s) => text::same(&s, LAN_TASKBOARD_HOST),
        None => false,
    }
}

/// The host that the service is bound to.
pub open spec fn bound_host(host: Option<Seq<char>>) -> Seq<char> {
    if is_shared(host) {
        LAN_TASKBOARD_HOST@
    } else {
        LOOPBACK_TASKBOARD_HOST@
    }
}

/// Tells to which host the service is to be bound.
pub fn taskboard_expected_host(host: Option<&str>) -> (r: &'static str)
    ensures
        r@ == bound_host(host.deep_view()),
{
    if taskboard_lan_sharing_enabled(host) {
        LAN_TASKBOARD_HOST
    } else {
        LOOPBACK_TASKBOARD_HOST
    }
}

/// The warning that is given when the service is launched.
pub open spec fn launch_warning(host: Option<Seq<char>>) -> Option<Seq<char>> {
    if is_shared(host) {
        Some(LAN_SHARING_WARNING@)
    } else {
        None
    }
}

/// What the user is warned of at the start: only that the service is shared, where it is.
pub fn taskboard_launch_warning(host: Option<&str>) -> (r: Option<&'static str>)
    ensures
        r.deep_view() == launch_warning(host.deep_view()),
{
    if taskboard_lan_sharing_enabled(host) {
        Some(LAN_SHARING_WARNING)
    } else {
        None
    }
}

/// Unless sharing is asked for, the service is bound to this machine alone, and nothing is warned of.
pub proof fn law_loopback_by_default(host: Option<Seq<char>>)
    ensures
        host is None ==> bound_host(host) == LOOPBACK_TASKBOARD_HOST@,
        !is_shared(host) ==> bound_host(host) == LOOPBACK_TASKBOARD_HOST@,
        bound_host(host) == LAN_TASKBOARD_HOST@ ==> is_shared(host),
{
    reveal_strlit("127.0.0.1");
    reveal_strlit("0.0.0.0");
    assert("127.0.0.1"@.len() != "0.0.0.0"@.len());
}

/// The header that carries a token.
pub open spec fn authorization(token: Option<Seq<char>>) -> Seq<char> {
    match token {
        Some(token) => "Authorization: Basic "@ + token + "\r\n"@,
        None => Seq::empty(),
    }
}

/// A request to the service that starts with a line and carries a token.
pub open spec fn probe_request(start: Seq<char>, token: Option<Seq<char>>) -> Seq<char> {
    start + " HTTP/1.1\r\nHost: 127.0.0.1:47823\r\n"@ + authorization(token)
        + "Connection: close\r\n\r\n"@
}

/// Writes a request to the service that starts with a line and carries a token.
pub fn write_probe_request(start: &str, token: Option<String>) -> (r: String)
    ensures
        r@ == probe_request(start@, token.deep_view()),
{
    let mut out = start.to_owned();
    out.append(" HTTP/1.1\r\nHost: 127.0.0.1:47823\r\n");
    match token {
        Some(token) => {
            out.append("Authorization: Basic ");
            out.append(&token);
            out.append("\r\n");
        },
        None => {},
    }
    out.append("Connection: close\r\n\r\n");
    proof {
        assert(out@ =~= probe_request(start@, token.deep_view()));
    }
    out
}

/// The name and the secret with which the service is asked.
pub open spec fn credentials(secret: Seq<char>) -> Seq<u8> {
    encode_utf8("codex:"@ + secret)
}

/// Whether a secret is short enough to be sent.
pub open spec fn is_sendable(secret: Option<Seq<char>>) -> bool {
    secret is Some ==> encoding::encodable(credentials(secret->0).len())
}

/// The token that a secret makes.
pub open spec fn token_of(secret: Option<Seq<char>>) -> Option<Seq<char>> {
    match secret {
        Some(secret) => Some(encoding::base64_text(credentials(secret))),
        None => None,
    }
}

/// Whether a token stands for a secret: what it encodes are the name and the secret.
pub open spec fn carries(token: Option<Seq<char>>, secret: Option<Seq<char>>) -> bool {
    match secret {
        Some(secret) => token is Some && encoding::base64_bytes(token->0) == Ok::<
            Seq<u8>,
            Seq<char>,
        >(credentials(secret)),
        None => token is None,
    }
}

fn make_token(secret: Option<&str>) -> (r: Option<String>)
    requires
        is_sendable(secret.deep_view()),
    ensures
        r.deep_view() == token_of(secret.deep_view()),
        carries(r.deep_view(), secret.deep_view()),
{
    match secret {
        Some(secret) => {
            let mut plain = "codex:".to_owned();
            plain.append(secret);
            Some(encoding::encode(plain.as_str().as_bytes()))
        },
        None => None,
    }
}

/// The request for the health of the service. Where there is a secret, it is carried along.
pub fn taskboard_health_request(secret: Option<&str>) -> (r: String)
    requires
        is_sendable(secret.deep_view()),
    ensures
        r@ == probe_request("GET /health"@, token_of(secret.deep_view())),
        carries(token_of(secret.deep_view()), secret.deep_view()),
{
    write_probe_request("GET /health", make_token(secret))
}

/// The request for the page of the service. Where there is a secret, it is carried along.
pub fn taskboard_page_entry_request(secret: Option<&str>) -> (r: String)
    requires
        is_sendable(secret.deep_view()),
    ensures
        r@ == probe_request("GET /?host=codex"@, token_of(secret.deep_view())),
        carries(token_of(secret.deep_view()), secret.deep_view()),
{
    write_probe_request("GET /?host=codex", make_token(secret))
}

/// Whether a line says that the service is bound to a host.
pub open spec fn binds(line: Seq<char>, host: Seq<char>) -> bool {
    match text::split_once_spec(line, ':') {
        Some((name, value)) => text::lowered(name) == text::lowered(TASKBOARD_BIND_HOST_HEADER@)
            && text::trimmed(value) == host,
        None => false,
    }
}

/// Whether a response says that the service is healthy and bound to a host.
pub open spec fn health_matches(response: Seq<char>, host: Seq<char>) -> bool {
    &&& text::holds(response, " 200 "@)
    &&& text::holds(response, "\"status\":\"ok\""@)
    &&& exists|i: int|
        0 <= i < text::lines_spec(response).len() && binds(
            #[trigger] text::lines_spec(response)[i],
            host,
        )
}

fn line_binds(line: &str, host: &str) -> (r: bool)
    ensures
        r == binds(line@, host@),
{
    match text::split_once(line, ':') {
        Some((name, value)) => text::same(
            &text::to_lowercase(&name),
            &text::to_lowercase(TASKBOARD_BIND_HOST_HEADER),
        ) && text::same(&text::trim(&value), host),
        None => false,
    }
}

fn has_binding_line(response: &str, host: &str) -> (r: bool)
    ensures
        r == (exists|i: int|
            0 <= i < text::lines_spec(response@).len() && binds(
                #[trigger] text::lines_spec(response@)[i],
                host@,
            )),
{
    let lines = text::lines(response);
    let ghost all = text::lines_spec(response@);
    let mut i: usize = 0;
    while i < lines.len()
        invariant
            all == lines.deep_view(),
            all == text::lines_spec(response@),
            i <= lines@.len(),
            forall|k: int| 0 <= k < i ==> !binds(#[trigger] all[k], host@),
        decreases lines.len() - i,
    {
        proof {
            assert(all[i as int] == lines@[i as int]@);
        }
        if line_binds(&lines[i], host) {
            proof {
                assert(binds(text::lines_spec(response@)[i as int], host@));
            }
            return true;
        }
        i = i + 1;
    }
    false
}

/// Tells whether a response says that the service is healthy and bound to a host.
pub fn taskboard_health_response_matches(response: &str, host: &str) -> (r: bool)
    ensures
        r == health_matches(response@, host@),
{
    text::contains(response, " 200 ") && text::contains(response, "\"status\":\"ok\"")
        && has_binding_line(response, host)
}

/// Whether a line says that a page is HTML.
pub open spec fn is_html_line(line: Seq<char>) -> bool {
    text::has_prefix(text::lowered(line), "content-type: text/html"@)
}

/// Whether a response is the page of the service.
pub open spec fn page_matches(response: Seq<char>) -> bool {
    &&& text::holds(response, " 200 "@)
    &&& exists|i: int|
        0 <= i < text::lines_spec(response).len() && is_html_line(
            #[trigger] text::lines_spec(response)[i],
        )
    &&& text::holds(response, "<div id=\"root\""@)
}

fn has_html_line(response: &str) -> (r: bool)
    ensures
        r == (exists|i: int|
            0 <= i < text::lines_spec(response@).len() && is_html_line(
                #[trigger] text::lines_spec(response@)[i],
            )),
{
    let lines = text::lines(response);
    let ghost all = text::lines_spec(response@);
    let mut i: usize = 0;
    while i < lines.len()
        invariant
            all == lines.deep_view(),
            all == text::lines_spec(response@),
            i <= lines@.len(),
            forall|k: int| 0 <= k < i ==> !is_html_line(#[trigger] all[k]),
        decreases lines.len() - i,
    {
        proof {
            assert(all[i as int] == lines@[i as int]@);
        }
        if text::starts_with(&text::to_lowercase(&lines[i]), "content-type: text/html") {
            proof {
                assert(is_html_line(text::lines_spec(response@)[i as int]));
            }
            return true;
        }
        i = i + 1;
    }
    false
}

/// Tells whether a response is the page of the service.
pub fn taskboard_page_entry_response_matches(response: &str) -> (r: bool)
    ensures
        r == page_matches(response@),
{
    text::contains(response, " 200 ") && has_html_line(response) && text::contains(
        response,
        "<div id=\"root\"",
    )
}

/// How the look at the health of the service goes on: it sends a request, or is done.
pub enum HealthStep {
    Send(String),
    Verdict(bool),
}

pub enum HealthStepView {
    Send(Seq<char>),
    Verdict(bool),
}

impl View for HealthStep {
    type V = HealthStepView;

    open spec fn view(&self) -> HealthStepView {
        match self {
            HealthStep::Send(s) => HealthStepView::Send(s@),
            HealthStep::Verdict(b) => HealthStepView::Verdict(*b),
        }
    }
}

/// How the look at the health of the service goes on, out of the responses so far, where one that
/// did not come is `None`: the health is asked for first, then the page.
pub open spec fn health_step(
    responses: Seq<Option<Seq<char>>>,
    host: Option<Seq<char>>,
    secret: Option<Seq<char>>,
) -> HealthStepView {
    if responses.len() == 0 {
        HealthStepView::Send(probe_request("GET /health"@, token_of(said(secret))))
    } else if !(responses[0] is Some && health_matches(responses[0]->0, bound_host(host))) {
        HealthStepView::Verdict(false)
    } else if responses.len() == 1 {
        HealthStepView::Send(probe_request("GET /?host=codex"@, token_of(said(secret))))
    } else {
        HealthStepView::Verdict(responses[1] is Some && page_matches(responses[1]->0))
    }
}

/// Looks at the health of the service.
pub fn taskboard_health_ok(responses: &Vec<Option<String>>, host: Option<&str>, secret: Option<&str>)
    -> (r: HealthStep)
    requires
        is_sendable(said(secret.deep_view())),
    ensures
        r@ == health_step(responses.deep_view(), host.deep_view(), secret.deep_view()),
{
    let shared = taskboard_shared_secret(secret);
    let carried = match &shared {
        Some(s) => Some(s.as_str()),
        None => None,
    };
    if responses.len() == 0 {
        return HealthStep::Send(taskboard_health_request(carried));
    }
    let healthy = match &responses[0] {
        Some(response) => taskboard_health_response_matches(
            response,
            taskboard_expected_host(host),
        ),
        None => false,
    };
    if !healthy {
        return HealthStep::Verdict(false);
    }
    if responses.len() == 1 {
        return HealthStep::Send(taskboard_page_entry_request(carried));
    }
    match &responses[1] {
        Some(response) => HealthStep::Verdict(taskboard_page_entry_response_matches(response)),
        None => HealthStep::Verdict(false),
    }
}

/// A service is taken for healthy only where it said to which host it is bound, and that is the one
/// which is expected, and where it sent the page.
pub proof fn law_health_needs_host_and_page(
    responses: Seq<Option<Seq<char>>>,
    host: Option<Seq<char>>,
    secret: Option<Seq<char>>,
)
    requires
        health_step(responses, host, secret) == HealthStepView::Verdict(true),
    ensures
        responses.len() >= 2,
        responses[0] is Some,
        exists|i: int|
            0 <= i < text::lines_spec(responses[0]->0).len() && binds(
                #[trigger] text::lines_spec(responses[0]->0)[i],
                bound_host(host),
            ),
        responses[1] is Some && page_matches(responses[1]->0),
{
}

/// How the wait for the service goes on: it looks at its health, sleeps, or is done.
#[derive(Clone, Copy, Debug, PartialEq, Eq, Structural)]
pub enum WaitStep {
    Look,
    Sleep,
    Verdict(bool),
}

/// How the wait for the service goes on, at a time since its start, behind a look that found it
/// healthy or not, or behind a sleep.
pub open spec fn wait_step(elapsed: int, timeout: int, looked: Option<bool>) -> WaitStep {
    match looked {
        Some(true) => WaitStep::Verdict(true),
        Some(false) => WaitStep::Sleep,
        None => if elapsed < timeout {
            WaitStep::Look
        } else {
            WaitStep::Verdict(false)
        },
    }
}

/// Waits for the service.
pub fn wait_for_taskboard_health(elapsed: u128, timeout: u128, looked: Option<bool>) -> (r: WaitStep)
    ensures
        r == wait_step(elapsed as int, timeout as int, looked),
{
    match looked {
        Some(true) => WaitStep::Verdict(true),
        Some(false) => WaitStep::Sleep,
        None => if elapsed < timeout {
            WaitStep::Look
        } else {
            WaitStep::Verdict(false)
        },
    }
}

/// The names that lead to the file which a root of the service must hold.
pub open spec fn injector() -> Seq<Seq<char>> {
    Seq::empty().push("scripts"@).push("codex-injector.mjs"@)
}

/// The names that lead to the page of the service, below its root.
pub open spec fn page() -> Seq<Seq<char>> {
    Seq::empty().push("dist"@).push("web"@).push("index.html"@)
}

/// The names that lead to the server that is run on its own, below the root of the service.
pub open spec fn server() -> Seq<Seq<char>> {
    Seq::empty().push("server"@).push("index.mjs"@)
}

fn names1(a: &str) -> (r: Vec<String>)
    ensures
        r.deep_view() == Seq::empty().push(a@),
{
    let mut names: Vec<String> = json::none();
    json::put(&mut names, a.to_owned());
    names
}

fn names2(a: &str, b: &str) -> (r: Vec<String>)
    ensures
        r.deep_view() == Seq::empty().push(a@).push(b@),
{
    let mut names = names1(a);
    json::put(&mut names, b.to_owned());
    names
}

fn names3(a: &str, b: &str, c: &str) -> (r: Vec<String>)
    ensures
        r.deep_view() == Seq::empty().push(a@).push(b@).push(c@),
{
    let mut names = names2(a, b);
    json::put(&mut names, c.to_owned());
    names
}

/// How the look at a root goes on: it looks whether a file is there, or is done.
pub enum RuntimeStep {
    Probe(Vec<String>),
    Verdict(bool),
}

pub enum RuntimeStepView {
    Probe(Seq<Seq<char>>),
    Verdict(bool),
}

impl View for RuntimeStep {
    type V = RuntimeStepView;

    open spec fn view(&self) -> RuntimeStepView {
        match self {
            RuntimeStep::Probe(names) => RuntimeStepView::Probe(names.deep_view()),
            RuntimeStep::Verdict(b) => RuntimeStepView::Verdict(*b),
        }
    }
}

/// How the look at a root goes on, out of the files that were found so far: a root of the service
/// holds the injector, and its page or its server.
pub open spec fn runtime_step(found: Seq<bool>) -> RuntimeStepView {
    if found.len() == 0 {
        RuntimeStepView::Probe(injector())
    } else if !found[0] {
        RuntimeStepView::Verdict(false)
    } else if found.len() == 1 {
        RuntimeStepView::Probe(page())
    } else if found[1] {
        RuntimeStepView::Verdict(true)
    } else if found.len() == 2 {
        RuntimeStepView::Probe(server())
    } else {
        RuntimeStepView::Verdict(found[2])
    }
}

/// Looks at a root of the service.
pub fn taskboard_runtime_exists(found: &[bool]) -> (r: RuntimeStep)
    ensures
        r@ == runtime_step(found@),
{
    if found.len() == 0 {
        RuntimeStep::Probe(names2("scripts", "codex-injector.mjs"))
    } else if !found[0] {
        RuntimeStep::Verdict(false)
    } else if found.len() == 1 {
        RuntimeStep::Probe(names3("dist", "web", "index.html"))
    } else if found[1] {
        RuntimeStep::Verdict(true)
    } else if found.len() == 2 {
        RuntimeStep::Probe(names2("server", "index.mjs"))
    } else {
        RuntimeStep::Verdict(found[2])
    }
}

/// The number of answers that the look at a root has taken when it is done.
pub open spec fn answers_taken(found: Seq<bool>) -> int {
    if found.len() == 0 || !found[0] {
        1
    } else if found.len() == 1 || found[1] {
        2
    } else {
        3
    }
}

/// The names that lead to a root of the service from a directory: of a package, or of a tree of
/// sources.
pub open spec fn root_names(sources: bool) -> Seq<Seq<char>> {
    if sources {
        Seq::empty().push("apps"@).push("codex-taskboard"@)
    } else {
        Seq::empty().push("codex-taskboard"@)
    }
}

fn make_root_names(sources: bool) -> (r: Vec<String>)
    ensures
        r.deep_view() == root_names(sources),
{
    if sources {
        names2("apps", "codex-taskboard")
    } else {
        names1("codex-taskboard")
    }
}

/// How the search for a root goes on: it looks whether a file is there, at names below one of the
/// directories above the program; or it is done. A level counts the directories upwards.
pub enum RootStep {
    Probe(usize, Vec<String>),
    Found(usize, Vec<String>),
    Missing,
}

pub enum RootStepView {
    Probe(int, Seq<Seq<char>>),
    Found(int, Seq<Seq<char>>),
    Missing,
}

impl View for RootStep {
    type V = RootStepView;

    open spec fn view(&self) -> RootStepView {
        match self {
            RootStep::Probe(level, names) => RootStepView::Probe(*level as int, names.deep_view()),
            RootStep::Found(level, names) => RootStepView::Found(*level as int, names.deep_view()),
            RootStep::Missing => RootStepView::Missing,
        }
    }
}

/// How the search for a root goes on from a level, with the roots of packages or of sources first,
/// out of the files that were found from there on.
pub open spec fn search(level: int, sources: bool, levels: int, found: Seq<bool>) -> RootStepView
    decreases levels - level, (if sources { 0int } else { 1int }),
{
    if level >= levels {
        RootStepView::Missing
    } else {
        match runtime_step(found) {
            RuntimeStepView::Probe(names) => RootStepView::Probe(
                level,
                root_names(sources) + names,
            ),
            RuntimeStepView::Verdict(true) => RootStepView::Found(level, root_names(sources)),
            RuntimeStepView::Verdict(false) => {
                let rest = found.skip(answers_taken(found));
                if sources {
                    search(level + 1, false, levels, rest)
                } else {
                    search(level, true, levels, rest)
                }
            },
        }
    }
}

fn join_names(first: Vec<String>, behind: Vec<String>) -> (r: Vec<String>)
    ensures
        r.deep_view() == first.deep_view() + behind.deep_view(),
{
    let ghost all = first.deep_view() + behind.deep_view();
    let mut names = first;
    let mut behind = behind;
    names.append(&mut behind);
    proof {
        assert(names.deep_view() =~= all);
    }
    names
}

/// The level at which the search for a root starts: the program's path where that is a directory,
/// else the directory above it.
pub open spec fn first_level(is_directory: bool) -> int {
    if is_directory {
        0
    } else {
        1
    }
}

/// Searches for the root of the service upwards from a program: next to it and above it, in every
/// directory first as a package and then as a tree of sources. `levels` is the number of the
/// program's path and the directories above it; `found` tells which of the files that the search
/// asked for are there.
pub fn taskboard_root_for_exe_path(is_directory: bool, levels: usize, found: &Vec<bool>) -> (r:
    RootStep)
    ensures
        r@ == search(first_level(is_directory), false, levels as int, found@),
{
    let mut level: usize = if is_directory {
        0
    } else {
        1
    };
    let ghost start = level as int;
    let mut sources = false;
    let mut from: usize = 0;
    proof {
        assert(found@.skip(0) =~= found@);
    }
    while level < levels
        invariant
            from <= found@.len(),
            start == first_level(is_directory),
            search(start, false, levels as int, found@) == search(
                level as int,
                sources,
                levels as int,
                found@.skip(from as int),
            ),
        decreases
                levels - level,
                (if sources {
                    0int
                } else {
                    1int
                }),
    {
        let answers = &found[from..found.len()];
        proof {
            assert(answers@ =~= found@.skip(from as int));
        }
        match taskboard_runtime_exists(answers) {
            RuntimeStep::Probe(names) => {
                return RootStep::Probe(level, join_names(make_root_names(sources), names));
            },
            RuntimeStep::Verdict(true) => {
                return RootStep::Found(level, make_root_names(sources));
            },
            RuntimeStep::Verdict(false) => {
                let taken: usize = if !answers[0] {
                    1
                } else {
                    3
                };
                proof {
                    assert(taken == answers_taken(answers@));
                    assert(found@.skip(from as int).skip(taken as int) =~= found@.skip(
                        from + taken,
                    ));
                }
                from = from + taken;
                if sources {
                    sources = false;
                    level = level + 1;
                } else {
                    sources = true;
                }
            },
        }
    }
    RootStep::Missing
}

/// Whether the files that are there make a root of the service.
pub open spec fn is_root(
    is_file: spec_fn(int, Seq<Seq<char>>) -> bool,
    level: int,
    names: Seq<Seq<char>>,
) -> bool {
    is_file(level, names + injector()) && (is_file(level, names + page()) || is_file(
        level,
        names + server(),
    ))
}

/// Whether an answer is true: it tells whether the file is there that a search asked for.
pub open spec fn is_true_answer(
    step: RootStepView,
    answer: bool,
    is_file: spec_fn(int, Seq<Seq<char>>) -> bool,
) -> bool {
    match step {
        RootStepView::Probe(level, names) => answer == is_file(level, names),
        _ => true,
    }
}

/// Whether answers are true: each tells whether the file is there that the search asked for when it
/// had the answers before it.
pub open spec fn are_true(
    level: int,
    sources: bool,
    levels: int,
    found: Seq<bool>,
    is_file: spec_fn(int, Seq<Seq<char>>) -> bool,
) -> bool {
    forall|k: int|
        0 <= k < found.len() ==> is_true_answer(
            search(level, sources, levels, #[trigger] found.take(k)),
            found[k],
            is_file,
        )
}

/// Whether no root is among the candidates from one on and before another.
pub open spec fn none_between(
    level: int,
    sources: bool,
    other: int,
    other_sources: bool,
    is_file: spec_fn(int, Seq<Seq<char>>) -> bool,
) -> bool {
    forall|l: int, s: bool|
        !comes_before(l, s, level, sources) && comes_before(l, s, other, other_sources)
            ==> !#[trigger] is_root(is_file, l, root_names(s))
}

/// Whether a candidate comes before another: at a lower level, or at the same one as a package.
pub open spec fn comes_before(level: int, sources: bool, other: int, other_sources: bool) -> bool {
    level < other || (level == other && !sources && other_sources)
}

/// What a search comes to where its answers are true: the first candidate that is a root, or
/// nothing where none is.
pub open spec fn finds_first(
    level: int,
    sources: bool,
    levels: int,
    step: RootStepView,
    is_file: spec_fn(int, Seq<Seq<char>>) -> bool,
) -> bool {
    match step {
        RootStepView::Probe(_, _) => true,
        RootStepView::Found(l, names) => exists|s: bool|
            names == #[trigger] root_names(s) && is_root(is_file, l, names) && none_between(
                level,
                sources,
                l,
                s,
                is_file,
            ),
        RootStepView::Missing => none_between(level, sources, levels, false, is_file),
    }
}

/// The search finds the nearest root: where each of its answers is true, the root that it comes to
/// is one, and none of the candidates before it is; where it comes to none, there is none.
pub proof fn law_search_finds_the_nearest_root(
    level: int,
    sources: bool,
    levels: int,
    found: Seq<bool>,
    is_file: spec_fn(int, Seq<Seq<char>>) -> bool,
)
    requires
        level < levels || !sources,
        are_true(level, sources, levels, found, is_file),
    ensures
        finds_first(level, sources, levels, search(level, sources, levels, found), is_file),
    decreases levels - level, (if sources { 0int } else { 1int }),
{
    if level < levels {
        lemma_first_answers(level, sources, levels, found, is_file);
        match runtime_step(found) {
            RuntimeStepView::Probe(_) => {},
            RuntimeStepView::Verdict(true) => {
                assert(root_names(sources) == root_names(sources));
                assert(none_between(level, sources, level, sources, is_file));
            },
            RuntimeStepView::Verdict(false) => {
                let taken = answers_taken(found);
                let rest = found.skip(taken);
                let (l, s) = if sources {
                    (level + 1, false)
                } else {
                    (level, true)
                };
                assert forall|k: int| 0 <= k < rest.len() implies is_true_answer(
                    search(l, s, levels, #[trigger] rest.take(k)),
                    rest[k],
                    is_file,
                ) by {
                    let before = found.take(taken + k);
                    assert(is_true_answer(
                        search(level, sources, levels, before),
                        found[taken + k],
                        is_file,
                    ));
                    assert(before.skip(taken) =~= rest.take(k));
                    assert(runtime_step(before) == runtime_step(found));
                    assert(answers_taken(before) == taken);
                }
                law_search_finds_the_nearest_root(l, s, levels, rest, is_file);
                assert(!is_root(is_file, level, root_names(sources)));
                let step = search(l, s, levels, rest);
                match step {
                    RootStepView::Probe(_, _) => {},
                    RootStepView::Found(fl, names) => {
                        let fs = choose|fs: bool|
                            names == #[trigger] root_names(fs) && is_root(is_file, fl, names)
                                && none_between(l, s, fl, fs, is_file);
                        lemma_extend_none(level, sources, l, s, fl, fs, is_file);
                        assert(names == root_names(fs));
                    },
                    RootStepView::Missing => {
                        lemma_extend_none(level, sources, l, s, levels, false, is_file);
                    },
                }
            },
        }
    }
}

proof fn lemma_extend_none(
    level: int,
    sources: bool,
    l: int,
    s: bool,
    other: int,
    other_sources: bool,
    is_file: spec_fn(int, Seq<Seq<char>>) -> bool,
)
    requires
        (l, s) == (if sources {
            (level + 1, false)
        } else {
            (level, true)
        }),
        !is_root(is_file, level, root_names(sources)),
        none_between(l, s, other, other_sources, is_file),
    ensures
        none_between(level, sources, other, other_sources, is_file),
{
    assert forall|cl: int, cs: bool|
        !comes_before(cl, cs, level, sources) && comes_before(
            cl,
            cs,
            other,
            other_sources,
        ) implies !#[trigger] is_root(is_file, cl, root_names(cs)) by {
        if comes_before(cl, cs, l, s) {
            assert(cl == level && cs == sources);
        }
    }
}

/// What the first answers of a search say of its first candidate.
proof fn lemma_first_answers(
    level: int,
    sources: bool,
    levels: int,
    found: Seq<bool>,
    is_file: spec_fn(int, Seq<Seq<char>>) -> bool,
)
    requires
        level < levels,
        are_true(level, sources, levels, found, is_file),
    ensures
        runtime_step(found) == RuntimeStepView::Verdict(true) ==> is_root(
            is_file,
            level,
            root_names(sources),
        ),
        runtime_step(found) == RuntimeStepView::Verdict(false) ==> !is_root(
            is_file,
            level,
            root_names(sources),
        ) && answers_taken(found) <= found.len(),
{
    if found.len() > 0 {
        assert(is_true_answer(
            search(level, sources, levels, found.take(0)),
            found[0],
            is_file,
        ));
        if found.len() > 1 && found[0] {
            assert(is_true_answer(
                search(level, sources, levels, found.take(1)),
                found[1],
                is_file,
            ));
            if found.len() > 2 && !found[1] {
                assert(is_true_answer(
                    search(level, sources, levels, found.take(2)),
                    found[2],
                    is_file,
                ));
            }
        }
    }
}

/// How the choice of a root goes on: it looks whether a file is there, at names below the root that
/// a variable of the environment names; or it is done, and takes that root, or searches for one
/// above the running program.
pub enum PlaceStep {
    Probe(Vec<String>),
    Variable,
    Search,
}

pub enum PlaceStepView {
    Probe(Seq<Seq<char>>),
    Variable,
    Search,
}

impl View for PlaceStep {
    type V = PlaceStepView;

    open spec fn view(&self) -> PlaceStepView {
        match self {
            PlaceStep::Probe(names) => PlaceStepView::Probe(names.deep_view()),
            PlaceStep::Variable => PlaceStepView::Variable,
            PlaceStep::Search => PlaceStepView::Search,
        }
    }
}

/// How the choice of a root goes on, out of the files that were found so far below the one that the
/// variable names: that one is taken only where it is a root of the service.
pub open spec fn place_step(has_variable: bool, found: Seq<bool>) -> PlaceStepView {
    if !has_variable {
        PlaceStepView::Search
    } else {
        match runtime_step(found) {
            RuntimeStepView::Probe(names) => PlaceStepView::Probe(names),
            RuntimeStepView::Verdict(true) => PlaceStepView::Variable,
            RuntimeStepView::Verdict(false) => PlaceStepView::Search,
        }
    }
}

/// Chooses where the root of the service is looked for.
pub fn taskboard_root_from_current_exe(has_variable: bool, found: &[bool]) -> (r: PlaceStep)
    ensures
        r@ == place_step(has_variable, found@),
{
    if !has_variable {
        return PlaceStep::Search;
    }
    match taskboard_runtime_exists(found) {
        RuntimeStep::Probe(names) => PlaceStep::Probe(names),
        RuntimeStep::Verdict(true) => PlaceStep::Variable,
        RuntimeStep::Verdict(false) => PlaceStep::Search,
    }
}

/// What the service is run with, on its own: the server of its root with Node, or its command.
#[derive(Clone, Copy, Debug, PartialEq, Eq, Structural)]
pub enum ServiceProgram {
    Server,
    Command,
}

/// How the service is run on its own, and on which host.
pub struct ServicePlan {
    pub program: ServiceProgram,
    /// The one argument of Node, the script that it runs, as names below the root.
    pub script: Vec<String>,
    /// Whether it is run with the root as its working directory.
    pub in_root: bool,
    /// The value of the variable that names the host.
    pub host: &'static str,
}

pub struct ServicePlanView {
    pub program: ServiceProgram,
    pub script: Seq<Seq<char>>,
    pub in_root: bool,
    pub host: Seq<char>,
}

impl View for ServicePlan {
    type V = ServicePlanView;

    open spec fn view(&self) -> ServicePlanView {
        ServicePlanView {
            program: self.program,
            script: self.script.deep_view(),
            in_root: self.in_root,
            host: self.host@,
        }
    }
}

/// How the service is run on its own: with Node and in its root, where that is known and holds the
/// server.
pub open spec fn service_plan(has_server: bool, host: Option<Seq<char>>) -> ServicePlanView {
    if has_server {
        ServicePlanView {
            program: ServiceProgram::Server,
            script: server(),
            in_root: true,
            host: bound_host(host),
        }
    } else {
        ServicePlanView {
            program: ServiceProgram::Command,
            script: Seq::empty(),
            in_root: false,
            host: bound_host(host),
        }
    }
}

/// Plans how the service is run on its own.
pub fn taskboard_service_command(has_server: bool, host: Option<&str>) -> (r: ServicePlan)
    ensures
        r@ == service_plan(has_server, host.deep_view()),
{
    if has_server {
        ServicePlan {
            program: ServiceProgram::Server,
            script: names2("server", "index.mjs"),
            in_root: true,
            host: taskboard_expected_host(host),
        }
    } else {
        ServicePlan {
            program: ServiceProgram::Command,
            script: json::none(),
            in_root: false,
            host: taskboard_expected_host(host),
        }
    }
}

/// What is known on the way to a running service: whether one is healthy already, whether its root
/// was found, and whether the embedded one was started.
pub struct SpawnState {
    pub healthy: Option<bool>,
    pub rooted: Option<bool>,
    pub embedded: Option<Result<bool, String>>,
}

pub struct SpawnStateView {
    pub healthy: Option<bool>,
    pub rooted: Option<bool>,
    pub embedded: Option<Result<bool, Seq<char>>>,
}

impl View for SpawnState {
    type V = SpawnStateView;

    open spec fn view(&self) -> SpawnStateView {
        SpawnStateView {
            healthy: self.healthy,
            rooted: self.rooted,
            embedded: match self.embedded {
                Some(Ok(b)) => Some(Ok(b)),
                Some(Err(m)) => Some(Err(m@)),
                None => None,
            },
        }
    }
}

/// How the way to a running service goes on.
pub enum SpawnStep {
    CheckHealth,
    FindRoot,
    StartEmbedded,
    RunService,
    Done,
    Fail(String),
}

pub enum SpawnStepView {
    CheckHealth,
    FindRoot,
    StartEmbedded,
    RunService,
    Done,
    Fail(Seq<char>),
}

impl View for SpawnStep {
    type V = SpawnStepView;

    open spec fn view(&self) -> SpawnStepView {
        match self {
            SpawnStep::CheckHealth => SpawnStepView::CheckHealth,
            SpawnStep::FindRoot => SpawnStepView::FindRoot,
            SpawnStep::StartEmbedded => SpawnStepView::StartEmbedded,
            SpawnStep::RunService => SpawnStepView::RunService,
            SpawnStep::Done => SpawnStepView::Done,
            SpawnStep::Fail(m) => SpawnStepView::Fail(m@),
        }
    }
}

/// The message of a service that is to be shared without a secret.
pub const SECRET_REQUIRED: &'static str = "CODEX_TASKBOARD_HOST=0.0.0.0 requires TASKBOARD_SHARED_SECRET for LAN sharing";

/// How the way to a running service goes on, out of what is known: a shared service needs a secret;
/// one that is healthy is left as it is; one that is not shared is embedded where that can be; and
/// any other is run on its own.
pub open spec fn spawn_step(
    host: Option<Seq<char>>,
    secret: Option<Seq<char>>,
    state: SpawnStateView,
) -> SpawnStepView {
    if is_shared(host) && said(secret) is None {
        SpawnStepView::Fail(SECRET_REQUIRED@)
    } else {
        match state.healthy {
            None => SpawnStepView::CheckHealth,
            Some(true) => SpawnStepView::Done,
            Some(false) => match state.rooted {
                None => SpawnStepView::FindRoot,
                Some(rooted) => if is_shared(host) || !rooted {
                    SpawnStepView::RunService
                } else {
                    match state.embedded {
                        None => SpawnStepView::StartEmbedded,
                        Some(Err(m)) => SpawnStepView::Fail(m),
                        Some(Ok(true)) => SpawnStepView::Done,
                        Some(Ok(false)) => SpawnStepView::RunService,
                    }
                },
            },
        }
    }
}

/// Leads to a running service.
pub fn spawn_taskboard_service(host: Option<&str>, secret: Option<&str>, state: &SpawnState) -> (r:
    SpawnStep)
    ensures
        r@ == spawn_step(host.deep_view(), secret.deep_view(), state@),
{
    let shared = taskboard_lan_sharing_enabled(host);
    if shared && taskboard_shared_secret(secret).is_none() {
        return SpawnStep::Fail(SECRET_REQUIRED.to_owned());
    }
    match state.healthy {
        None => SpawnStep::CheckHealth,
        Some(true) => SpawnStep::Done,
        Some(false) => match state.rooted {
            None => SpawnStep::FindRoot,
            Some(rooted) => if shared || !rooted {
                SpawnStep::RunService
            } else {
                match &state.embedded {
                    None => SpawnStep::StartEmbedded,
                    Some(Err(m)) => SpawnStep::Fail(m.clone()),
                    Some(Ok(true)) => SpawnStep::Done,
                    Some(Ok(false)) => SpawnStep::RunService,
                }
            },
        },
    }
}

/// A service is shared only with a secret, and is then never the embedded one, which is bound to
/// this machine alone.
pub proof fn law_sharing_needs_a_secret(
    host: Option<Seq<char>>,
    secret: Option<Seq<char>>,
    state: SpawnStateView,
)
    requires
        is_shared(host),
    ensures
        said(secret) is None ==> spawn_step(host, secret, state) == SpawnStepView::Fail(
            SECRET_REQUIRED@,
        ),
        spawn_step(host, secret, state) != SpawnStepView::StartEmbedded,
        spawn_step(host, secret, state) is RunService ==> said(secret) is Some,
{
}

/// Where Node is looked for: in the variable of the environment that names it, and among the files
/// of Codex in the home of the user.
#[derive(Clone, Copy, Debug, PartialEq, Eq, Structural)]
pub enum NodePlace {
    Variable,
    Bundled,
}

/// How the search for Node goes on: it looks whether a place holds a file, or is done with a place
/// or a name of a program.
pub enum NodeStep {
    Probe(NodePlace),
    Use(NodePlace),
    Program(&'static str),
}

pub enum NodeStepView {
    Probe(NodePlace),
    Use(NodePlace),
    Program(Seq<char>),
}

impl View for NodeStep {
    type V = NodeStepView;

    open spec fn view(&self) -> NodeStepView {
        match self {
            NodeStep::Probe(p) => NodeStepView::Probe(*p),
            NodeStep::Use(p) => NodeStepView::Use(*p),
            NodeStep::Program(s) => NodeStepView::Program(s@),
        }
    }
}

/// The name of Node as a program.
pub open spec fn node_name(windows: bool) -> Seq<char> {
    if windows {
        "node.exe"@
    } else {
        "node"@
    }
}

fn name_node(windows: bool) -> (r: &'static str)
    ensures
        r@ == node_name(windows),
{
    if windows {
        "node.exe"
    } else {
        "node"
    }
}

/// How the search for Node goes on in the home of the user, where it is known.
pub open spec fn bundled_step(has_home: bool, windows: bool, found: Option<bool>) -> NodeStepView {
    if !has_home {
        NodeStepView::Program(node_name(windows))
    } else {
        match found {
            None => NodeStepView::Probe(NodePlace::Bundled),
            Some(true) => NodeStepView::Use(NodePlace::Bundled),
            Some(false) => NodeStepView::Program(node_name(windows)),
        }
    }
}

/// How the search for Node goes on, out of which of its places are known and which of them hold a
/// file, as far as that was looked at.
pub open spec fn node_step(
    has_variable: bool,
    has_home: bool,
    windows: bool,
    variable: Option<bool>,
    bundled: Option<bool>,
) -> NodeStepView {
    if !has_variable {
        bundled_step(has_home, windows, bundled)
    } else {
        match variable {
            None => NodeStepView::Probe(NodePlace::Variable),
            Some(true) => NodeStepView::Use(NodePlace::Variable),
            Some(false) => bundled_step(has_home, windows, bundled),
        }
    }
}

fn bundled_codex_node_executable(has_home: bool, windows: bool, found: Option<bool>) -> (r: NodeStep)
    ensures
        r@ == bundled_step(has_home, windows, found),
{
    if !has_home {
        return NodeStep::Program(name_node(windows));
    }
    match found {
        None => NodeStep::Probe(NodePlace::Bundled),
        Some(true) => NodeStep::Use(NodePlace::Bundled),
        Some(false) => NodeStep::Program(name_node(windows)),
    }
}

/// Searches for Node.
pub fn taskboard_node_executable(
    has_variable: bool,
    has_home: bool,
    windows: bool,
    variable: Option<bool>,
    bundled: Option<bool>,
) -> (r: NodeStep)
    ensures
        r@ == node_step(has_variable, has_home, windows, variable, bundled),
{
    if has_variable {
        match variable {
            None => {
                return NodeStep::Probe(NodePlace::Variable);
            },
            Some(true) => {
                return NodeStep::Use(NodePlace::Variable);
            },
            Some(false) => {},
        }
    }
    bundled_codex_node_executable(has_home, windows, bundled)
}

/// The names that lead from the home of the user to the Node of Codex.
pub open spec fn bundled_names(windows: bool) -> Seq<Seq<char>> {
    Seq::empty().push(".cache"@).push("codex-runtimes"@).push("codex-primary-runtime"@).push(
        "dependencies"@,
    ).push("node"@).push("bin"@).push(node_name(windows))
}

/// Lists the names that lead to the Node of Codex.
pub fn bundled_node_names(windows: bool) -> (r: Vec<String>)
    ensures
        r.deep_view() == bundled_names(windows),
{
    let mut names = names3(".cache", "codex-runtimes", "codex-primary-runtime");
    json::put(&mut names, "dependencies".to_owned());
    json::put(&mut names, "node".to_owned());
    json::put(&mut names, "bin".to_owned());
    json::put(&mut names, name_node(windows).to_owned());
    names
}

/// Where a path starts from: the root of the service, or its data directory.
#[derive(Clone, Copy, Debug, PartialEq, Eq, Structural)]
pub enum Base {
    Root,
    Data,
}

/// A path below one of the directories of the service.
pub struct PathBelow {
    pub base: Base,
    pub names: Vec<String>,
}

impl View for PathBelow {
    type V = (Base, Seq<Seq<char>>);

    open spec fn view(&self) -> (Base, Seq<Seq<char>>) {
        (self.base, self.names.deep_view())
    }
}

/// The paths of the embedded service.
pub struct EmbeddedTaskboardPaths {
    pub static_dir: PathBelow,
    pub database_path: PathBelow,
    pub attachments_dir: PathBelow,
    pub skill_path: PathBelow,
}

/// A path in the data directory, which is below the root unless it is set.
pub open spec fn data_path(data_dir_set: bool, name: Seq<char>) -> (Base, Seq<Seq<char>>) {
    if data_dir_set {
        (Base::Data, Seq::empty().push(name))
    } else {
        (Base::Root, Seq::empty().push(".data"@).push(name))
    }
}

fn make_data_path(data_dir_set: bool, name: &str) -> (r: PathBelow)
    ensures
        r@ == data_path(data_dir_set, name@),
{
    if data_dir_set {
        PathBelow { base: Base::Data, names: names1(name) }
    } else {
        PathBelow { base: Base::Root, names: names2(".data", name) }
    }
}

/// How the look whether the embedded service can be started goes on: it looks whether a file is
/// there, or is done.
pub enum ReadyStep {
    Probe(PathBelow),
    Verdict(bool),
}

pub enum ReadyStepView {
    Probe((Base, Seq<Seq<char>>)),
    Verdict(bool),
}

impl View for ReadyStep {
    type V = ReadyStepView;

    open spec fn view(&self) -> ReadyStepView {
        match self {
            ReadyStep::Probe(p) => ReadyStepView::Probe(p@),
            ReadyStep::Verdict(b) => ReadyStepView::Verdict(*b),
        }
    }
}

/// How the look whether the embedded service can be started goes on, out of whether its start page
/// is there.
pub open spec fn ready_step(static_dir: (Base, Seq<Seq<char>>), found: Option<bool>) -> ReadyStepView {
    match found {
        None => ReadyStepView::Probe((static_dir.0, static_dir.1.push("index.html"@))),
        Some(b) => ReadyStepView::Verdict(b),
    }
}

impl EmbeddedTaskboardPaths {
    /// Whether the paths are those below a root, with the data directory set or not.
    pub open spec fn are_from_root(&self, data_dir_set: bool) -> bool {
        &&& self.static_dir@ == (Base::Root, Seq::empty().push("dist"@).push("web"@))
        &&& self.database_path@ == data_path(data_dir_set, "taskboard.sqlite"@)
        &&& self.attachments_dir@ == data_path(data_dir_set, "attachments"@)
        &&& self.skill_path@ == (
            Base::Root,
            Seq::empty().push("skills"@).push("manage-taskboard"@).push("SKILL.md"@),
        )
    }

    pub fn from_root(data_dir_set: bool) -> (r: EmbeddedTaskboardPaths)
        ensures
            r.are_from_root(data_dir_set),
    {
        EmbeddedTaskboardPaths {
            static_dir: PathBelow { base: Base::Root, names: names2("dist", "web") },
            database_path: make_data_path(data_dir_set, "taskboard.sqlite"),
            attachments_dir: make_data_path(data_dir_set, "attachments"),
            skill_path: PathBelow {
                base: Base::Root,
                names: names3("skills", "manage-taskboard", "SKILL.md"),
            },
        }
    }

    /// The service can be started where the start page is there.
    pub fn is_ready(&self, found: Option<bool>) -> (r: ReadyStep)
        ensures
            r@ == ready_step(self.static_dir@, found),
    {
        match found {
            None => {
                let mut names: Vec<String> = json::none();
                let mut i: usize = 0;
                let ghost all = self.static_dir.names.deep_view();
                proof {
                    assert(all.take(0) =~= Seq::empty());
                }
                while i < self.static_dir.names.len()
                    invariant
                        all == self.static_dir.names.deep_view(),
                        i <= self.static_dir.names@.len(),
                        names.deep_view() == all.take(i as int),
                    decreases self.static_dir.names.len() - i,
                {
                    json::put(&mut names, self.static_dir.names[i].clone());
                    proof {
                        assert(all.take(i + 1) =~= all.take(i as int).push(all[i as int]));
                    }
                    i = i + 1;
                }
                proof {
                    assert(all.take(i as int) =~= all);
                }
                json::put(&mut names, "index.html".to_owned());
                ReadyStep::Probe(PathBelow { base: self.static_dir.base, names })
            },
            Some(b) => ReadyStep::Verdict(b),
        }
    }
}

/// What is known on the way to the embedded service: whether its page is there, whether it was
/// started before, and whether its store and its port could be opened.
pub struct EmbeddedState {
    pub ready: Option<bool>,
    pub started_before: Option<bool>,
    pub database: Option<Result<(), String>>,
    pub listener: Option<Result<(), String>>,
}

pub struct EmbeddedStateView {
    pub ready: Option<bool>,
    pub started_before: Option<bool>,
    pub database: Option<Result<(), Seq<char>>>,
    pub listener: Option<Result<(), Seq<char>>>,
}

/// A result whose message is seen as a text.
pub open spec fn outcome_view(outcome: Option<Result<(), String>>) -> Option<
    Result<(), Seq<char>>,
> {
    match outcome {
        Some(Ok(_)) => Some(Ok(())),
        Some(Err(m)) => Some(Err(m@)),
        None => None,
    }
}

impl View for EmbeddedState {
    type V = EmbeddedStateView;

    open spec fn view(&self) -> EmbeddedStateView {
        EmbeddedStateView {
            ready: self.ready,
            started_before: self.started_before,
            database: outcome_view(self.database),
            listener: outcome_view(self.listener),
        }
    }
}

/// How the way to the embedded service goes on.
pub enum EmbeddedStep {
    /// Look whether its page is there.
    CheckReady,
    /// Mark it as started, and tell whether it was before.
    MarkStarted,
    InitDatabase,
    Bind,
    /// Answer that it runs, and let it run.
    Serve,
    /// Answer whether it runs.
    Answer(bool),
    /// Take the mark away and fail.
    Withdraw(String),
}

pub enum EmbeddedStepView {
    CheckReady,
    MarkStarted,
    InitDatabase,
    Bind,
    Serve,
    Answer(bool),
    Withdraw(Seq<char>),
}

impl View for EmbeddedStep {
    type V = EmbeddedStepView;

    open spec fn view(&self) -> EmbeddedStepView {
        match self {
            EmbeddedStep::CheckReady => EmbeddedStepView::CheckReady,
            EmbeddedStep::MarkStarted => EmbeddedStepView::MarkStarted,
            EmbeddedStep::InitDatabase => EmbeddedStepView::InitDatabase,
            EmbeddedStep::Bind => EmbeddedStepView::Bind,
            EmbeddedStep::Serve => EmbeddedStepView::Serve,
            EmbeddedStep::Answer(b) => EmbeddedStepView::Answer(*b),
            EmbeddedStep::Withdraw(m) => EmbeddedStepView::Withdraw(m@),
        }
    }
}

/// How the way to the embedded service goes on, out of what is known: it runs once, and only where
/// its page is there.
pub open spec fn embedded_step(state: EmbeddedStateView) -> EmbeddedStepView {
    match state.ready {
        None => EmbeddedStepView::CheckReady,
        Some(false) => EmbeddedStepView::Answer(false),
        Some(true) => match state.started_before {
            None => EmbeddedStepView::MarkStarted,
            Some(true) => EmbeddedStepView::Answer(true),
            Some(false) => match state.database {
                None => EmbeddedStepView::InitDatabase,
                Some(Err(m)) => EmbeddedStepView::Withdraw(m),
                Some(Ok(_)) => match state.listener {
                    None => EmbeddedStepView::Bind,
                    Some(Err(m)) => EmbeddedStepView::Withdraw(m),
                    Some(Ok(_)) => EmbeddedStepView::Serve,
                },
            },
        },
    }
}

/// Leads to the embedded service.
pub fn spawn(state: &EmbeddedState) -> (r: EmbeddedStep)
    ensures
        r@ == embedded_step(state@),
{
    match state.ready {
        None => EmbeddedStep::CheckReady,
        Some(false) => EmbeddedStep::Answer(false),
        Some(true) => match state.started_before {
            None => EmbeddedStep::MarkStarted,
            Some(true) => EmbeddedStep::Answer(true),
            Some(false) => match &state.database {
                None => EmbeddedStep::InitDatabase,
                Some(Err(m)) => EmbeddedStep::Withdraw(m.clone()),
                Some(Ok(_)) => match &state.listener {
                    None => EmbeddedStep::Bind,
                    Some(Err(m)) => EmbeddedStep::Withdraw(m.clone()),
                    Some(Ok(_)) => EmbeddedStep::Serve,
                },
            },
        },
    }
}

/// The embedded service is opened only where it was not marked as started before, and where it
/// cannot be opened, the mark is taken away again.
pub proof fn law_embedded_service_starts_once(state: EmbeddedStateView)
    ensures
        state.started_before == Some(true) ==> (embedded_step(state) is CheckReady || embedded_step(
            state,
        ) is Answer),
        embedded_step(state) is Serve ==> state.started_before == Some(false) && state.ready == Some(
            true,
        ),
        embedded_step(state) is Withdraw <==> state.ready == Some(true) && state.started_before
            == Some(false) && state.database is Some && (state.database->0 is Err
            || state.listener is Some && state.listener->0 is Err),
{
}

} // verus!
