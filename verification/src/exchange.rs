//! The exchange between the decisions and their surroundings.
//!
//! A handler is a function of what it is asked and of the replies so far. It either asks for one
//! more action, whose reply is then added to the replies, or ends with a response or a failure.
use crate::json;
use crate::json::{Json, JsonView};
use vstd::prelude::*;

verus! {

/// A value in the store.
pub enum SqlValue {
    Null,
    Integer(i64),
    /// A double, as decimal text.
    Real(String),
    Text(String),
    Blob(Vec<u8>),
    /// A text that is not UTF-8, as the message of the failure to read it.
    Garbled(String),
    /// What stands in place of a row that could not be read: the message of the failure.
    Lost(String),
}

pub enum SqlView {
    Null,
    Integer(int),
    Real(Seq<char>),
    Text(Seq<char>),
    Blob(Seq<u8>),
    Garbled(Seq<char>),
    Lost(Seq<char>),
}

impl View for SqlValue {
    type V = SqlView;

    open spec fn view(&self) -> SqlView {
        match self {
            SqlValue::Null => SqlView::Null,
            SqlValue::Integer(i) => SqlView::Integer(*i as int),
            SqlValue::Real(s) => SqlView::Real(s@),
            SqlValue::Text(s) => SqlView::Text(s@),
            SqlValue::Blob(b) => SqlView::Blob(b@),
            SqlValue::Garbled(m) => SqlView::Garbled(m@),
            SqlValue::Lost(m) => SqlView::Lost(m@),
        }
    }
}

impl DeepView for SqlValue {
    type V = SqlView;

    open spec fn deep_view(&self) -> SqlView {
        self@
    }
}

/// A statement with the values of its parameters, in order.
pub struct Statement {
    pub sql: String,
    pub params: Vec<SqlValue>,
}

pub struct StatementView {
    pub sql: Seq<char>,
    pub params: Seq<SqlView>,
}

impl View for Statement {
    type V = StatementView;

    open spec fn view(&self) -> StatementView {
        StatementView { sql: self.sql@, params: self.params.deep_view() }
    }
}

impl DeepView for Statement {
    type V = StatementView;

    open spec fn deep_view(&self) -> StatementView {
        self@
    }
}

/// A row: the names of its columns and what stands in them.
pub struct Row {
    pub cells: Vec<(String, SqlValue)>,
}

impl View for Row {
    type V = Seq<(Seq<char>, SqlView)>;

    open spec fn view(&self) -> Seq<(Seq<char>, SqlView)> {
        self.cells.deep_view()
    }
}

impl DeepView for Row {
    type V = Seq<(Seq<char>, SqlView)>;

    open spec fn deep_view(&self) -> Seq<(Seq<char>, SqlView)> {
        self@
    }
}

/// The message of the failure to read a row, where it could not be read.
pub open spec fn lost(row: Seq<(Seq<char>, SqlView)>) -> Option<Seq<char>> {
    if row.len() == 0 {
        None
    } else {
        match row[0].1 {
            SqlView::Lost(m) => Some(m),
            _ => None,
        }
    }
}

/// Looks whether a row could not be read.
pub fn lost_row(row: &Row) -> (r: Option<String>)
    ensures
        r.deep_view() == lost(row@),
{
    if row.cells.len() == 0 {
        return None;
    }
    match &row.cells[0].1 {
        SqlValue::Lost(m) => Some(m.clone()),
        _ => None,
    }
}

/// Where the model of a conversation is configured: two variables of the environment, and the
/// text of a configuration file.
pub struct Settings {
    pub model: Option<String>,
    pub effort: Option<String>,
    pub config: Option<String>,
}

pub struct SettingsView {
    pub model: Option<Seq<char>>,
    pub effort: Option<Seq<char>>,
    pub config: Option<Seq<char>>,
}

impl View for Settings {
    type V = SettingsView;

    open spec fn view(&self) -> SettingsView {
        SettingsView {
            model: self.model.deep_view(),
            effort: self.effort.deep_view(),
            config: self.config.deep_view(),
        }
    }
}

impl DeepView for Settings {
    type V = SettingsView;

    open spec fn deep_view(&self) -> SettingsView {
        self@
    }
}

/// A turn of Codex to start: its arguments, where it works, what it is told, the run and the
/// thread that it belongs to, and the directory of its files.
pub struct CodexStart {
    pub args: Vec<String>,
    pub workspace: String,
    pub prompt: String,
    pub run_id: String,
    pub thread_id: String,
    pub directory: Option<String>,
}

pub struct CodexStartView {
    pub args: Seq<Seq<char>>,
    pub workspace: Seq<char>,
    pub prompt: Seq<char>,
    pub run_id: Seq<char>,
    pub thread_id: Seq<char>,
    pub directory: Option<Seq<char>>,
}

impl View for CodexStart {
    type V = CodexStartView;

    open spec fn view(&self) -> CodexStartView {
        CodexStartView {
            args: self.args.deep_view(),
            workspace: self.workspace@,
            prompt: self.prompt@,
            run_id: self.run_id@,
            thread_id: self.thread_id@,
            directory: self.directory.deep_view(),
        }
    }
}

/// What a handler asks of its surroundings.
pub enum Action {
    /// Query the store, statement by statement.
    Read(Vec<Statement>),
    /// Change the store with one statement.
    Write(Statement),
    /// Run a statement that has no parameters and no rows, such as the end of a transaction.
    Batch(String),
    /// Query the greatest sort order and add the distance between two neighbours to it.
    NextSortOrder(Statement),
    /// Make a fresh identifier.
    NewId,
    /// Look whether a path is a directory.
    IsDirectory(String),
    /// Read where the model is configured.
    ReadSettings,
    /// Read the content of an attachment.
    ReadAttachment(String),
    /// Store the content of an attachment.
    StoreAttachment(String, Vec<u8>),
    /// Remove the contents of attachments, as far as they are there.
    RemoveAttachments(Vec<String>),
    /// Store the files of a turn, each under its name, in a directory of that name among the
    /// temporary ones.
    StoreTurnFiles(String, Vec<(String, Vec<u8>)>),
    /// Remove the directory of the files of a turn.
    RemoveTurnFiles(String),
    /// Start a turn of Codex.
    StartCodex(CodexStart),
    /// Stop a run, where it is active.
    StopRun(String),
    /// Look whether a path below the page directory is a file.
    IsPageFile(Vec<String>),
    /// Read a file below the page directory.
    ReadPageFile(Vec<String>),
}

pub enum ActionView {
    Read(Seq<StatementView>),
    Write(StatementView),
    Batch(Seq<char>),
    NextSortOrder(StatementView),
    NewId,
    IsDirectory(Seq<char>),
    ReadSettings,
    ReadAttachment(Seq<char>),
    StoreAttachment(Seq<char>, Seq<u8>),
    RemoveAttachments(Seq<Seq<char>>),
    StoreTurnFiles(Seq<char>, Seq<(Seq<char>, Seq<u8>)>),
    RemoveTurnFiles(Seq<char>),
    StartCodex(CodexStartView),
    StopRun(Seq<char>),
    IsPageFile(Seq<Seq<char>>),
    ReadPageFile(Seq<Seq<char>>),
}

impl View for Action {
    type V = ActionView;

    open spec fn view(&self) -> ActionView {
        match self {
            Action::Read(s) => ActionView::Read(s.deep_view()),
            Action::Write(s) => ActionView::Write(s@),
            Action::Batch(s) => ActionView::Batch(s@),
            Action::NextSortOrder(s) => ActionView::NextSortOrder(s@),
            Action::NewId => ActionView::NewId,
            Action::IsDirectory(p) => ActionView::IsDirectory(p@),
            Action::ReadSettings => ActionView::ReadSettings,
            Action::ReadAttachment(id) => ActionView::ReadAttachment(id@),
            Action::StoreAttachment(id, b) => ActionView::StoreAttachment(id@, b@),
            Action::RemoveAttachments(ids) => ActionView::RemoveAttachments(ids.deep_view()),
            Action::StoreTurnFiles(name, files) => ActionView::StoreTurnFiles(
                name@,
                files.deep_view(),
            ),
            Action::RemoveTurnFiles(d) => ActionView::RemoveTurnFiles(d@),
            Action::StartCodex(c) => ActionView::StartCodex(c@),
            Action::StopRun(id) => ActionView::StopRun(id@),
            Action::IsPageFile(p) => ActionView::IsPageFile(p.deep_view()),
            Action::ReadPageFile(p) => ActionView::ReadPageFile(p.deep_view()),
        }
    }
}

/// What came of an action.
pub enum Reply {
    /// The rows of each statement that was read, in order. A statement that fails has the rows that
    /// came before, and then one that is lost.
    Tables(Vec<Vec<Row>>),
    /// The number of rows that a statement changed.
    Changed(u64),
    Done,
    Text(String),
    Flag(bool),
    Bytes(Vec<u8>),
    /// The directory of the files of a turn, and the path of each.
    Stored(String, Vec<String>),
    Settings(Settings),
    /// The action failed, with the message of the failure.
    Failed(String),
}

pub enum ReplyView {
    Tables(Seq<Seq<Seq<(Seq<char>, SqlView)>>>),
    Changed(int),
    Done,
    Text(Seq<char>),
    Flag(bool),
    Bytes(Seq<u8>),
    Stored(Seq<char>, Seq<Seq<char>>),
    Settings(SettingsView),
    Failed(Seq<char>),
}

impl View for Reply {
    type V = ReplyView;

    open spec fn view(&self) -> ReplyView {
        match self {
            Reply::Tables(t) => ReplyView::Tables(t.deep_view()),
            Reply::Changed(n) => ReplyView::Changed(*n as int),
            Reply::Done => ReplyView::Done,
            Reply::Text(s) => ReplyView::Text(s@),
            Reply::Flag(b) => ReplyView::Flag(*b),
            Reply::Bytes(b) => ReplyView::Bytes(b@),
            Reply::Stored(d, p) => ReplyView::Stored(d@, p.deep_view()),
            Reply::Settings(s) => ReplyView::Settings(s@),
            Reply::Failed(m) => ReplyView::Failed(m@),
        }
    }
}

impl DeepView for Reply {
    type V = ReplyView;

    open spec fn deep_view(&self) -> ReplyView {
        self@
    }
}

/// What a request is answered.
pub enum Response {
    /// A status without a body.
    Empty(u16),
    Json(u16, Json),
    JsonWithHeaders(u16, Vec<(String, String)>, Json),
    /// A file.
    Static(u16, Vec<(String, String)>, Vec<u8>),
    /// A stream that is only kept alive.
    EventStream,
    /// The stream of what happens in a thread.
    AiEventStream(String),
}

pub enum ResponseView {
    Empty(u16),
    Json(u16, JsonView),
    JsonWithHeaders(u16, Seq<(Seq<char>, Seq<char>)>, JsonView),
    Static(u16, Seq<(Seq<char>, Seq<char>)>, Seq<u8>),
    EventStream,
    AiEventStream(Seq<char>),
}

impl View for Response {
    type V = ResponseView;

    open spec fn view(&self) -> ResponseView {
        match self {
            Response::Empty(s) => ResponseView::Empty(*s),
            Response::Json(s, v) => ResponseView::Json(*s, v@),
            Response::JsonWithHeaders(s, h, v) => ResponseView::JsonWithHeaders(
                *s,
                h.deep_view(),
                v@,
            ),
            Response::Static(s, h, b) => ResponseView::Static(*s, h.deep_view(), b@),
            Response::EventStream => ResponseView::EventStream,
            Response::AiEventStream(id) => ResponseView::AiEventStream(id@),
        }
    }
}

impl DeepView for Response {
    type V = ResponseView;

    open spec fn deep_view(&self) -> ResponseView {
        self@
    }
}

/// How a handler goes on: it asks for an action, or it ends with a response or with the message of
/// a failure.
pub enum Step {
    Ask(Action),
    Answer(Response),
    Fail(String),
}

pub enum StepView {
    Ask(ActionView),
    Answer(ResponseView),
    Fail(Seq<char>),
}

impl View for Step {
    type V = StepView;

    open spec fn view(&self) -> StepView {
        match self {
            Step::Ask(a) => StepView::Ask(a@),
            Step::Answer(r) => StepView::Answer(r@),
            Step::Fail(m) => StepView::Fail(m@),
        }
    }
}

/// Whether a result is the one that is stated: the same value, or the same step.
pub open spec fn agrees<T: DeepView>(r: Result<T, Step>, stated: Result<T::V, StepView>) -> bool {
    match r {
        Ok(v) => stated == Ok::<T::V, StepView>(v.deep_view()),
        Err(s) => stated == Err::<T::V, StepView>(s@),
    }
}

/// Whether a result is the one that is stated: the same value, or the same message.
pub open spec fn says<T: DeepView>(r: Result<T, String>, stated: Result<T::V, Seq<char>>) -> bool {
    match r {
        Ok(v) => stated == Ok::<T::V, Seq<char>>(v.deep_view()),
        Err(m) => stated == Err::<T::V, Seq<char>>(m@),
    }
}

/// Whether a result is the one that is stated: the same value with the place of the next reply, or
/// the same step.
pub open spec fn reaches<T: DeepView>(
    r: Result<(T, usize), Step>,
    stated: Result<(T::V, int), StepView>,
) -> bool {
    match r {
        Ok((v, next)) => stated == Ok::<(T::V, int), StepView>((v.deep_view(), next as int)),
        Err(s) => stated == Err::<(T::V, int), StepView>(s@),
    }
}

/// The failure of a handler that got a reply of another kind than it asked for.
pub const UNEXPECTED: &'static str = "unexpected reply";

/// How a handler goes on at a reply that is not of the kind it asked for.
pub open spec fn unusable(reply: ReplyView) -> StepView {
    match reply {
        ReplyView::Failed(m) => StepView::Fail(m),
        _ => StepView::Fail(UNEXPECTED@),
    }
}

/// Goes on at a reply that is not of the kind that was asked for.
pub fn refuse(reply: &Reply) -> (r: Step)
    ensures
        r@ == unusable(reply@),
{
    match reply {
        Reply::Failed(m) => Step::Fail(m.clone()),
        _ => Step::Fail(UNEXPECTED.to_owned()),
    }
}

/// The rows of several statements, the reply at `at`.
pub open spec fn tables_at(
    replies: Seq<ReplyView>,
    at: int,
    statements: Seq<StatementView>,
) -> Result<Seq<Seq<Seq<(Seq<char>, SqlView)>>>, StepView> {
    if at >= replies.len() {
        Err(StepView::Ask(ActionView::Read(statements)))
    } else {
        match replies[at] {
            ReplyView::Tables(t) => if t.len() == statements.len() {
                Ok(t)
            } else {
                Err(StepView::Fail(UNEXPECTED@))
            },
            other => Err(unusable(other)),
        }
    }
}

/// Reads the rows of several statements.
pub fn tables<'a>(replies: &'a Vec<Reply>, at: usize, statements: Vec<Statement>) -> (r: Result<
    &'a Vec<Vec<Row>>,
    Step,
>)
    ensures
        agrees(r, tables_at(replies.deep_view(), at as int, statements.deep_view())),
        r is Ok ==> (r->Ok_0)@.len() == statements@.len(),
{
    if at >= replies.len() {
        return Err(Step::Ask(Action::Read(statements)));
    }
    match &replies[at] {
        Reply::Tables(t) => if t.len() == statements.len() {
            Ok(t)
        } else {
            Err(Step::Fail(UNEXPECTED.to_owned()))
        },
        other => Err(refuse(other)),
    }
}

/// The rows of one statement, the reply at `at`. It fails where the statement failed before its
/// first row.
pub open spec fn rows_at(replies: Seq<ReplyView>, at: int, statement: StatementView) -> Result<
    Seq<Seq<(Seq<char>, SqlView)>>,
    StepView,
> {
    match tables_at(replies, at, seq![statement]) {
        Ok(t) => if t[0].len() > 0 && lost(t[0][0]) is Some {
            Err(StepView::Fail(lost(t[0][0])->0))
        } else {
            Ok(t[0])
        },
        Err(s) => Err(s),
    }
}

/// Reads the rows of one statement.
pub fn rows<'a>(replies: &'a Vec<Reply>, at: usize, statement: Statement) -> (r: Result<
    &'a Vec<Row>,
    Step,
>)
    ensures
        agrees(r, rows_at(replies.deep_view(), at as int, statement@)),
{
    let ghost asked = statement@;
    let mut statements: Vec<Statement> = Vec::new();
    statements.push(statement);
    proof {
        assert(statements.deep_view() =~= seq![asked]);
    }
    let t = tables(replies, at, statements)?;
    if t[0].len() > 0 {
        match lost_row(&t[0][0]) {
            Some(m) => {
                return Err(Step::Fail(m));
            },
            None => {},
        }
    }
    Ok(&t[0])
}

/// The number of rows that a statement changed, the reply at `at`.
pub open spec fn changed_at(replies: Seq<ReplyView>, at: int, statement: StatementView) -> Result<
    int,
    StepView,
> {
    if at >= replies.len() {
        Err(StepView::Ask(ActionView::Write(statement)))
    } else {
        match replies[at] {
            ReplyView::Changed(n) => Ok(n),
            other => Err(unusable(other)),
        }
    }
}

/// Changes the store with a statement.
pub fn changed(replies: &Vec<Reply>, at: usize, statement: Statement) -> (r: Result<u64, Step>)
    ensures
        match r {
            Ok(n) => changed_at(replies.deep_view(), at as int, statement@) == Ok::<int, StepView>(
                n as int,
            ),
            Err(s) => changed_at(replies.deep_view(), at as int, statement@) == Err::<
                int,
                StepView,
            >(s@),
        },
{
    if at >= replies.len() {
        return Err(Step::Ask(Action::Write(statement)));
    }
    match &replies[at] {
        Reply::Changed(n) => Ok(*n),
        other => Err(refuse(other)),
    }
}

/// That an action was done, the reply at `at`.
pub open spec fn done_at(replies: Seq<ReplyView>, at: int, action: ActionView) -> Result<
    (),
    StepView,
> {
    if at >= replies.len() {
        Err(StepView::Ask(action))
    } else {
        match replies[at] {
            ReplyView::Done => Ok(()),
            other => Err(unusable(other)),
        }
    }
}

/// Lets an action be done.
pub fn done(replies: &Vec<Reply>, at: usize, action: Action) -> (r: Result<(), Step>)
    ensures
        match r {
            Ok(_) => done_at(replies.deep_view(), at as int, action@) == Ok::<(), StepView>(()),
            Err(s) => done_at(replies.deep_view(), at as int, action@) == Err::<(), StepView>(s@),
        },
{
    if at >= replies.len() {
        return Err(Step::Ask(action));
    }
    match &replies[at] {
        Reply::Done => Ok(()),
        other => Err(refuse(other)),
    }
}

/// The text that an action gave, the reply at `at`.
pub open spec fn text_at(replies: Seq<ReplyView>, at: int, action: ActionView) -> Result<
    Seq<char>,
    StepView,
> {
    if at >= replies.len() {
        Err(StepView::Ask(action))
    } else {
        match replies[at] {
            ReplyView::Text(s) => Ok(s),
            other => Err(unusable(other)),
        }
    }
}

/// Lets an action give a text.
pub fn text<'a>(replies: &'a Vec<Reply>, at: usize, action: Action) -> (r: Result<
    &'a String,
    Step,
>)
    ensures
        agrees(r, text_at(replies.deep_view(), at as int, action@)),
{
    if at >= replies.len() {
        return Err(Step::Ask(action));
    }
    match &replies[at] {
        Reply::Text(s) => Ok(s),
        other => Err(refuse(other)),
    }
}

/// Whether what an action looked for holds, the reply at `at`.
pub open spec fn flag_at(replies: Seq<ReplyView>, at: int, action: ActionView) -> Result<
    bool,
    StepView,
> {
    if at >= replies.len() {
        Err(StepView::Ask(action))
    } else {
        match replies[at] {
            ReplyView::Flag(b) => Ok(b),
            other => Err(unusable(other)),
        }
    }
}

/// Lets an action look whether something holds.
pub fn flag(replies: &Vec<Reply>, at: usize, action: Action) -> (r: Result<bool, Step>)
    ensures
        agrees(r, flag_at(replies.deep_view(), at as int, action@)),
{
    if at >= replies.len() {
        return Err(Step::Ask(action));
    }
    match &replies[at] {
        Reply::Flag(b) => Ok(*b),
        other => Err(refuse(other)),
    }
}

/// The bytes that an action gave, the reply at `at`.
pub open spec fn bytes_at(replies: Seq<ReplyView>, at: int, action: ActionView) -> Result<
    Seq<u8>,
    StepView,
> {
    if at >= replies.len() {
        Err(StepView::Ask(action))
    } else {
        match replies[at] {
            ReplyView::Bytes(b) => Ok(b),
            other => Err(unusable(other)),
        }
    }
}

/// Lets an action give bytes.
pub fn bytes<'a>(replies: &'a Vec<Reply>, at: usize, action: Action) -> (r: Result<
    &'a Vec<u8>,
    Step,
>)
    ensures
        match r {
            Ok(b) => bytes_at(replies.deep_view(), at as int, action@) == Ok::<Seq<u8>, StepView>(
                b@,
            ),
            Err(s) => bytes_at(replies.deep_view(), at as int, action@) == Err::<
                Seq<u8>,
                StepView,
            >(s@),
        },
{
    if at >= replies.len() {
        return Err(Step::Ask(action));
    }
    match &replies[at] {
        Reply::Bytes(b) => Ok(b),
        other => Err(refuse(other)),
    }
}

/// The error object of a refused request.
pub open spec fn error_body(code: Seq<char>, message: Seq<char>) -> JsonView {
    JsonView::Object(
        seq![
            (
                "error"@,
                JsonView::Object(
                    json::members().push(("code"@, JsonView::Text(code))).push(
                        ("message"@, JsonView::Text(message)),
                    ),
                ),
            ),
        ],
    )
}

/// The response that refuses a request with a status, a code and a message.
pub open spec fn refusal(status: u16, code: Seq<char>, message: Seq<char>) -> ResponseView {
    ResponseView::Json(status, error_body(code, message))
}

/// A response that refuses a request.
pub fn api_error(status: u16, code: &str, message: &str) -> (r: Response)
    ensures
        r@ == refusal(status, code@, message@),
{
    let mut members = json::no_members();
    json::member(&mut members, "code", json::text_value(code));
    json::member(&mut members, "message", json::text_value(message));
    let error = json::object(members);
    Response::Json(status, json::single("error", error))
}

} // verus!
