//! The files of the page: which file a path stands for, and how it is sent.
use crate::comments;
use crate::exchange;
use crate::exchange::{Action, ActionView, Reply, ReplyView, Response, ResponseView, Step, StepView};
use crate::json;
use crate::request;
use crate::store;
use crate::text;
use vstd::prelude::*;

verus! {

/// A part of a path.
pub enum PathPart {
    /// What the names of a path start from, such as the root.
    Start,
    /// The directory itself, a dot.
    Current,
    /// The directory above, two dots.
    Parent,
    Name(String),
}

pub enum PathPartView {
    Start,
    Current,
    Parent,
    Name(Seq<char>),
}

impl View for PathPart {
    type V = PathPartView;

    open spec fn view(&self) -> PathPartView {
        match self {
            PathPart::Start => PathPartView::Start,
            PathPart::Current => PathPartView::Current,
            PathPart::Parent => PathPartView::Parent,
            PathPart::Name(s) => PathPartView::Name(s@),
        }
    }
}

impl DeepView for PathPart {
    type V = PathPartView;

    open spec fn deep_view(&self) -> PathPartView {
        self@
    }
}

/// Whether a path is parted in the same way on every system: it has no backslash and no colon, and
/// does not start with a slash.
pub open spec fn is_simple_path(path: Seq<char>) -> bool {
    !path.contains('\\') && !path.contains(':') && !(path.len() > 0 && path[0] == '/')
}

/// The parts that pieces between slashes stand for: empty pieces for none, a dot for none but at the
/// start.
pub open spec fn parts_of(pieces: Seq<Seq<char>>) -> Seq<PathPartView>
    decreases pieces.len(),
{
    if pieces.len() == 0 {
        Seq::empty()
    } else {
        let before = parts_of(pieces.drop_last());
        let piece = pieces.last();
        if piece.len() == 0 {
            before
        } else if piece == "."@ {
            if pieces.len() == 1 {
                before.push(PathPartView::Current)
            } else {
                before
            }
        } else if piece == ".."@ {
            before.push(PathPartView::Parent)
        } else {
            before.push(PathPartView::Name(piece))
        }
    }
}

/// The parts of a simple path.
pub open spec fn simple_parts(path: Seq<char>) -> Seq<PathPartView> {
    parts_of(text::split_spec(path, '/'))
}

/// Whether a name stands for a file or directory right below another: it is not empty, holds no
/// slash, and is neither a dot nor two.
pub open spec fn is_inner_name(name: Seq<char>) -> bool {
    name.len() > 0 && !name.contains('/') && name != "."@ && name != ".."@
}

/// Whether a path has no parts but names.
pub open spec fn only_names(parts: Seq<PathPartView>) -> bool {
    forall|i: int| 0 <= i < parts.len() ==> (#[trigger] parts[i]) is Name
}

/// What holds of the parts of a path on every system: where it has nothing but names, each stands
/// for something right below what is before it; a path that starts with a slash does not start with
/// a name; and a simple path has the parts between its slashes.
pub open spec fn are_parts(path: Seq<char>, parts: Seq<PathPartView>) -> bool {
    &&& only_names(parts) ==> forall|i: int|
        0 <= i < parts.len() ==> is_inner_name((#[trigger] parts[i])->Name_0)
    &&& path.len() > 0 && path[0] == '/' ==> parts.len() > 0 && !(parts[0] is Name)
    &&& is_simple_path(path) ==> parts == simple_parts(path)
}

/// `std::path::Path::components`: the parts of a path. On systems where a backslash or a colon has a
/// meaning in paths, what it means is left unsaid.
#[verifier::external_body]
fn path_components(path: &str) -> (r: Vec<PathPart>)
    ensures
        are_parts(path@, r.deep_view()),
{
    std::path::Path::new(path)
        .components()
        .map(|part| match part {
            std::path::Component::Prefix(_) => PathPart::Start,
            std::path::Component::RootDir => PathPart::Start,
            std::path::Component::CurDir => PathPart::Current,
            std::path::Component::ParentDir => PathPart::Parent,
            std::path::Component::Normal(name) => PathPart::Name(name.to_string_lossy().into_owned()),
        })
        .collect()
}

/// The names of a path that has nothing but names.
pub open spec fn names_of(parts: Seq<PathPartView>) -> Result<Seq<Seq<char>>, Seq<char>>
    decreases parts.len(),
{
    if parts.len() == 0 {
        Ok(Seq::empty())
    } else {
        match names_of(parts.drop_last()) {
            Err(m) => Err(m),
            Ok(names) => match parts.last() {
                PathPartView::Name(s) => Ok(names.push(s)),
                _ => Err("invalid static path"@),
            },
        }
    }
}

proof fn lemma_names_error_stays(parts: Seq<PathPartView>, i: int)
    requires
        0 <= i <= parts.len(),
        names_of(parts.take(i)) is Err,
    ensures
        names_of(parts) == names_of(parts.take(i)),
    decreases parts.len() - i,
{
    if i == parts.len() {
        assert(parts.take(i) =~= parts);
    } else {
        assert(parts.take(i + 1).drop_last() =~= parts.take(i));
        lemma_names_error_stays(parts, i + 1);
    }
}

fn read_names(parts: &Vec<PathPart>) -> (r: Result<Vec<String>, String>)
    ensures
        exchange::says(r, names_of(parts.deep_view())),
{
    let ghost all = parts.deep_view();
    let mut names: Vec<String> = json::none();
    let mut i: usize = 0;
    proof {
        assert(all.take(0) =~= Seq::empty());
    }
    while i < parts.len()
        invariant
            all == parts.deep_view(),
            i <= parts@.len(),
            names_of(all.take(i as int)) == Ok::<Seq<Seq<char>>, Seq<char>>(names.deep_view()),
        decreases parts.len() - i,
    {
        proof {
            assert(all.take(i + 1).drop_last() =~= all.take(i as int));
            assert(all.take(i + 1).last() == parts@[i as int]@);
            if names_of(all.take(i + 1)) is Err {
                lemma_names_error_stays(all, i + 1);
            }
        }
        match &parts[i] {
            PathPart::Name(s) => {
                json::put(&mut names, s.clone());
            },
            _ => {
                return Err("invalid static path".to_owned());
            },
        }
        i = i + 1;
    }
    proof {
        assert(all.take(i as int) =~= all);
    }
    Ok(names)
}

/// The place of the last dot of a text, -1 where it has none.
pub open spec fn last_dot(s: Seq<char>) -> int
    decreases s.len(),
{
    if s.len() == 0 {
        -1
    } else if s.last() == '.' {
        s.len() - 1
    } else {
        last_dot(s.drop_last())
    }
}

/// The extension of the name of a file: what stands behind its last dot, unless that is its first
/// character or there is none.
pub open spec fn extension_of(name: Seq<char>) -> Option<Seq<char>> {
    if last_dot(name) <= 0 || name == ".."@ {
        None
    } else {
        Some(name.skip(last_dot(name) + 1))
    }
}

/// The extension of the name of a file.
pub fn extension(name: &str) -> (r: Option<String>)
    ensures
        r.deep_view() == extension_of(name@),
{
    if text::same(name, "..") {
        return None;
    }
    let chars = text::chars_of(name);
    let mut i: usize = chars.len();
    proof {
        assert(chars@.take(i as int) =~= chars@);
    }
    while i > 0 && chars[i - 1] != '.'
        invariant
            chars@ == name@,
            i <= chars@.len(),
            last_dot(name@) == last_dot(chars@.take(i as int)),
        decreases i,
    {
        proof {
            assert(chars@.take(i as int).drop_last() =~= chars@.take(i - 1));
        }
        i = i - 1;
    }
    if i <= 1 {
        return None;
    }
    proof {
        assert(name@.subrange(i as int, name@.len() as int) =~= name@.skip(i as int));
    }
    Some(text::text_of(&chars, i, chars.len()))
}

/// The extension of the last of some names.
pub open spec fn last_extension(names: Seq<Seq<char>>) -> Option<Seq<char>> {
    if names.len() == 0 {
        None
    } else {
        extension_of(names.last())
    }
}

fn read_last_extension(names: &Vec<String>) -> (r: Option<String>)
    ensures
        r.deep_view() == last_extension(names.deep_view()),
{
    if names.len() == 0 {
        None
    } else {
        extension(&names[names.len() - 1])
    }
}

/// The type of a file with an extension.
pub open spec fn type_of(extension: Option<Seq<char>>) -> Seq<char> {
    match extension {
        None => "application/octet-stream"@,
        Some(e) => if e == "css"@ {
            "text/css; charset=utf-8"@
        } else if e == "html"@ {
            "text/html; charset=utf-8"@
        } else if e == "js"@ {
            "text/javascript; charset=utf-8"@
        } else if e == "json"@ {
            "application/json; charset=utf-8"@
        } else if e == "png"@ {
            "image/png"@
        } else if e == "svg"@ {
            "image/svg+xml"@
        } else if e == "webp"@ {
            "image/webp"@
        } else if e == "woff2"@ {
            "font/woff2"@
        } else {
            "application/octet-stream"@
        },
    }
}

/// The type of the file that names lead to.
pub fn content_type(names: &Vec<String>) -> (r: &'static str)
    ensures
        r@ == type_of(last_extension(names.deep_view())),
{
    match read_last_extension(names) {
        None => "application/octet-stream",
        Some(e) => if text::same(&e, "css") {
            "text/css; charset=utf-8"
        } else if text::same(&e, "html") {
            "text/html; charset=utf-8"
        } else if text::same(&e, "js") {
            "text/javascript; charset=utf-8"
        } else if text::same(&e, "json") {
            "application/json; charset=utf-8"
        } else if text::same(&e, "png") {
            "image/png"
        } else if text::same(&e, "svg") {
            "image/svg+xml"
        } else if text::same(&e, "webp") {
            "image/webp"
        } else if text::same(&e, "woff2") {
            "font/woff2"
        } else {
            "application/octet-stream"
        },
    }
}

/// The path below the page directory that a path of a request names.
pub open spec fn named_path(path: Seq<char>) -> Result<Seq<char>, Seq<char>> {
    request::percent_decoded(text::without_prefixes(path, "/"@), false)
}

/// The names that lead to the start page.
pub open spec fn start_page() -> Seq<Seq<char>> {
    Seq::empty().push("index.html"@)
}

fn make_start_page() -> (r: Vec<String>)
    ensures
        r.deep_view() == start_page(),
{
    let mut names: Vec<String> = json::none();
    json::put(&mut names, "index.html".to_owned());
    names
}

/// The names that lead to the file which a path of a request stands for, where there is one: those
/// of the path, and the start page of a directory.
pub open spec fn candidate(path: Seq<char>, decoded: Seq<char>, names: Seq<Seq<char>>) -> Seq<
    Seq<char>,
> {
    if decoded.len() == 0 {
        start_page()
    } else if text::has_suffix(path, "/"@) {
        names.push("index.html"@)
    } else {
        names
    }
}

/// The file that a path of a request stands for, out of the parts of the path and the first reply. A
/// path that leads to no file stands for the start page, unless it has an extension.
pub open spec fn page_file(
    replies: Seq<ReplyView>,
    path: Seq<char>,
    decoded: Seq<char>,
    parts: Seq<PathPartView>,
) -> Result<Seq<Seq<char>>, StepView> {
    match names_of(parts) {
        Err(m) => Err(StepView::Fail(m)),
        Ok(names) => {
            let chosen = candidate(path, decoded, names);
            match exchange::flag_at(replies, 0, ActionView::IsPageFile(chosen)) {
                Err(s) => Err(s),
                Ok(true) => Ok(chosen),
                Ok(false) => if last_extension(names) is Some {
                    Err(StepView::Fail("static file not found"@))
                } else {
                    Ok(start_page())
                },
            }
        },
    }
}

/// Finds the file that a path of a request stands for, out of the parts of the path.
pub fn choose_page_file(replies: &Vec<Reply>, path: &str, decoded: &str, parts: &Vec<PathPart>) -> (r:
    Result<Vec<String>, Step>)
    ensures
        exchange::agrees(
            r,
            page_file(replies.deep_view(), path@, decoded@, parts.deep_view()),
        ),
        r is Ok ==> replies@.len() > 0,
{
    let names = store::lift(read_names(parts))?;
    let has_extension = read_last_extension(&names).is_some();
    let mut asked = if decoded.is_empty() {
        make_start_page()
    } else {
        copy_names(&names)
    };
    let mut chosen = if decoded.is_empty() {
        make_start_page()
    } else {
        names
    };
    if !decoded.is_empty() && text::ends_with(path, "/") {
        json::put(&mut asked, "index.html".to_owned());
        json::put(&mut chosen, "index.html".to_owned());
    }
    if exchange::flag(replies, 0, Action::IsPageFile(asked))? {
        return Ok(chosen);
    }
    if has_extension {
        return Err(Step::Fail("static file not found".to_owned()));
    }
    Ok(make_start_page())
}

fn copy_names(names: &Vec<String>) -> (r: Vec<String>)
    ensures
        r.deep_view() == names.deep_view(),
{
    let mut out: Vec<String> = Vec::new();
    let mut i: usize = 0;
    while i < names.len()
        invariant
            i <= names@.len(),
            out@.len() == i,
            forall|k: int| 0 <= k < i ==> (#[trigger] out@[k])@ == names@[k]@,
        decreases names.len() - i,
    {
        out.push(names[i].clone());
        i = i + 1;
    }
    proof {
        assert(out.deep_view() =~= names.deep_view());
    }
    out
}

/// Finds the file that a path of a request stands for. Its names never lead out of the page
/// directory.
pub fn static_file_path(replies: &Vec<Reply>, path: &str) -> (r: Result<Vec<String>, Step>)
    ensures
        named_path(path@) is Err ==> r is Err && (r->Err_0)@ == StepView::Fail(
            named_path(path@)->Err_0,
        ),
        named_path(path@) is Ok ==> exists|parts: Seq<PathPartView>| #[trigger]
            are_parts(named_path(path@)->Ok_0, parts) && exchange::agrees(
                r,
                page_file(replies.deep_view(), path@, named_path(path@)->Ok_0, parts),
            ),
        named_path(path@) is Ok && is_simple_path(named_path(path@)->Ok_0) ==> exchange::agrees(
            r,
            page_file(
                replies.deep_view(),
                path@,
                named_path(path@)->Ok_0,
                simple_parts(named_path(path@)->Ok_0),
            ),
        ),
        r is Ok ==> replies@.len() > 0 && inside((r->Ok_0).deep_view()),
{
    let decoded = store::lift(
        request::percent_decode(&text::trim_start_matches(path, "/"), false),
    )?;
    let parts = path_components(&decoded);
    proof {
        law_page_file_is_inside(replies.deep_view(), path@, decoded@, parts.deep_view());
    }
    choose_page_file(replies, path, &decoded, &parts)
}

/// Whether names stay inside a directory: each stands for something right below what is before it.
pub open spec fn inside(names: Seq<Seq<char>>) -> bool {
    forall|i: int| 0 <= i < names.len() ==> is_inner_name(#[trigger] names[i])
}

proof fn lemma_names_are_inner(parts: Seq<PathPartView>)
    requires
        forall|i: int| 0 <= i < parts.len() ==> is_inner_name((#[trigger] parts[i])->Name_0),
        names_of(parts) is Ok,
    ensures
        (names_of(parts)->Ok_0).len() == parts.len(),
        forall|i: int|
            0 <= i < (names_of(parts)->Ok_0).len() ==> is_inner_name(
                #[trigger] (names_of(parts)->Ok_0)[i],
            ),
    decreases parts.len(),
{
    if parts.len() > 0 {
        let before = parts.drop_last();
        assert forall|i: int| 0 <= i < before.len() implies is_inner_name(
            (#[trigger] before[i])->Name_0,
        ) by {
            assert(before[i] == parts[i]);
        }
        lemma_names_are_inner(before);
        assert(is_inner_name(parts[parts.len() - 1]->Name_0));
    }
}

proof fn lemma_start_page_is_inside()
    ensures
        inside(start_page()),
        is_inner_name("index.html"@),
{
    reveal_strlit("index.html");
    reveal_strlit(".");
    reveal_strlit("..");
    let s = "index.html"@;
    assert(s.len() == 10);
    assert(forall|i: int| 0 <= i < 10 ==> #[trigger] s[i] != '/');
    assert("."@.len() == 1);
    assert(".."@.len() == 2);
}

/// No path leads out of the page directory: the file that a path stands for is reached by names
/// that each stand for something right below what is before it. Nothing is sent for a path in which
/// anything but names is left.
pub proof fn law_page_file_is_inside(
    replies: Seq<ReplyView>,
    path: Seq<char>,
    decoded: Seq<char>,
    parts: Seq<PathPartView>,
)
    requires
        are_parts(decoded, parts),
    ensures
        page_file(replies, path, decoded, parts) is Ok ==> inside(
            page_file(replies, path, decoded, parts)->Ok_0,
        ),
        !only_names(parts) ==> page_file(replies, path, decoded, parts) is Err,
{
    lemma_start_page_is_inside();
    if names_of(parts) is Ok {
        lemma_only_names(parts);
        lemma_names_are_inner(parts);
    }
}

proof fn lemma_only_names(parts: Seq<PathPartView>)
    requires
        names_of(parts) is Ok,
    ensures
        only_names(parts),
    decreases parts.len(),
{
    if parts.len() > 0 {
        lemma_only_names(parts.drop_last());
        assert forall|i: int| 0 <= i < parts.len() implies (#[trigger] parts[i]) is Name by {
            if i < parts.len() - 1 {
                assert(parts.drop_last()[i] == parts[i]);
            }
        }
    }
}

/// How a file of the page is sent, once its names are known. The first reply found it.
pub open spec fn file_sent(replies: Seq<ReplyView>, names: Seq<Seq<char>>) -> Result<
    ResponseView,
    StepView,
> {
    match exchange::bytes_at(replies, 1, ActionView::ReadPageFile(names)) {
        Err(s) => Err(s),
        Ok(body) => Ok(
            ResponseView::Static(
                200,
                comments::file_headers("no-cache"@, type_of(last_extension(names)), body.len()),
                body,
            ),
        ),
    }
}

fn send_file(replies: &Vec<Reply>, names: Vec<String>) -> (r: Result<Response, Step>)
    ensures
        exchange::agrees(r, file_sent(replies.deep_view(), names.deep_view())),
{
    let kind = content_type(&names);
    let body = exchange::bytes(replies, 1, Action::ReadPageFile(names))?;
    let headers = comments::make_file_headers("no-cache", kind, body.len());
    Ok(Response::Static(200, headers, comments::copy_bytes(body)))
}

/// How a file of the page is sent for a path of a request, out of the parts of the path.
pub open spec fn page_served(
    replies: Seq<ReplyView>,
    path: Seq<char>,
    decoded: Seq<char>,
    parts: Seq<PathPartView>,
) -> Result<ResponseView, StepView> {
    match page_file(replies, path, decoded, parts) {
        Err(s) => Err(s),
        Ok(names) => file_sent(replies, names),
    }
}

/// Whether a method only reads.
pub open spec fn is_reading(method: Seq<char>) -> bool {
    method == "GET"@ || method == "HEAD"@
}

/// Sends a file of the page.
pub fn serve_static(replies: &Vec<Reply>, method: &str, path: &str) -> (r: Result<Response, Step>)
    ensures
        !is_reading(method@) ==> r is Err && (r->Err_0)@ == StepView::Fail("method not allowed"@),
        is_reading(method@) && named_path(path@) is Err ==> r is Err && (r->Err_0)@
            == StepView::Fail(named_path(path@)->Err_0),
        is_reading(method@) && named_path(path@) is Ok ==> exists|parts: Seq<PathPartView>|
            #[trigger]
            are_parts(named_path(path@)->Ok_0, parts) && exchange::agrees(
                r,
                page_served(replies.deep_view(), path@, named_path(path@)->Ok_0, parts),
            ),
        is_reading(method@) && named_path(path@) is Ok && is_simple_path(named_path(path@)->Ok_0)
            ==> exchange::agrees(
            r,
            page_served(
                replies.deep_view(),
                path@,
                named_path(path@)->Ok_0,
                simple_parts(named_path(path@)->Ok_0),
            ),
        ),
{
    if !text::same(method, "GET") && !text::same(method, "HEAD") {
        return Err(Step::Fail("method not allowed".to_owned()));
    }
    let names = static_file_path(replies, path)?;
    send_file(replies, names)
}

} // verus!
