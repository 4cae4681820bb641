//! Statements, and what the store tells of the time and of single values.
use crate::exchange;
use crate::exchange::{
    Action, ActionView, Reply, ReplyView, Row, SqlValue, SqlView, Statement, StatementView, Step,
    StepView,
};
use crate::json;
use crate::json::{Json, JsonView};
use crate::rows::Kind;
use crate::text;
use vstd::prelude::*;

verus! {

/// The parameters of a statement that has none.
pub open spec fn params() -> Seq<SqlView> {
    Seq::empty()
}

/// A statement with its parameters.
pub open spec fn stated(sql: Seq<char>, params: Seq<SqlView>) -> StatementView {
    StatementView { sql, params }
}

/// A text parameter.
pub open spec fn text_param(s: Seq<char>) -> SqlView {
    SqlView::Text(s)
}

/// A text parameter, or null where there is none.
pub open spec fn optional_param(s: Option<Seq<char>>) -> SqlView {
    match s {
        Some(s) => SqlView::Text(s),
        None => SqlView::Null,
    }
}

/// Makes a statement.
pub fn statement(sql: &str, params: Vec<SqlValue>) -> (r: Statement)
    ensures
        r@ == stated(sql@, params.deep_view()),
{
    Statement { sql: sql.to_owned(), params }
}

/// Adds a text to parameters.
pub fn bind_text(params: &mut Vec<SqlValue>, s: &str)
    ensures
        final(params).deep_view() == old(params).deep_view().push(text_param(s@)),
{
    json::put(params, SqlValue::Text(s.to_owned()));
}

/// A text for the store, or null where there is none.
pub fn sql_optional(s: Option<String>) -> (r: SqlValue)
    ensures
        r@ == optional_param(s.deep_view()),
{
    match s {
        Some(s) => SqlValue::Text(s),
        None => SqlValue::Null,
    }
}

/// A statement with one text parameter.
pub fn keyed(sql: &str, key: &str) -> (r: Statement)
    ensures
        r@ == stated(sql@, params().push(text_param(key@))),
{
    let mut p: Vec<SqlValue> = json::none();
    bind_text(&mut p, key);
    statement(sql, p)
}

/// A failure of a handler with a message.
pub open spec fn lifted<V>(r: Result<V, Seq<char>>) -> Result<V, StepView> {
    match r {
        Ok(v) => Ok(v),
        Err(m) => Err(StepView::Fail(m)),
    }
}

/// Lets a handler fail with the message of an error.
pub fn lift<T>(r: Result<T, String>) -> (s: Result<T, Step>)
    ensures
        match r {
            Ok(v) => s == Ok::<T, Step>(v),
            Err(m) => s is Err && (s->Err_0)@ == StepView::Fail(m@),
        },
{
    match r {
        Ok(v) => Ok(v),
        Err(m) => Err(Step::Fail(m)),
    }
}

/// The value of the first column of a row.
pub open spec fn first_value(row: Seq<(Seq<char>, SqlView)>, kind: Kind) -> Result<
    JsonView,
    Seq<char>,
> {
    if row.len() == 0 {
        Err("Invalid column index: 0"@)
    } else {
        crate::rows::column_value(row, row[0].0, kind)
    }
}

fn read_first(row: &Row, kind: Kind) -> (r: Result<Json, String>)
    ensures
        exchange::says(r, first_value(row@, kind)),
{
    if row.cells.len() == 0 {
        return Err("Invalid column index: 0".to_owned());
    }
    crate::rows::read_column(row, &row.cells[0].0, kind)
}

/// The text of the first column of a row.
pub open spec fn first_text(row: Seq<(Seq<char>, SqlView)>) -> Result<Seq<char>, Seq<char>> {
    match first_value(row, Kind::Text) {
        Err(m) => Err(m),
        Ok(JsonView::Text(s)) => Ok(s),
        Ok(_) => Err(exchange::UNEXPECTED@),
    }
}

fn read_first_text(row: &Row) -> (r: Result<String, String>)
    ensures
        exchange::says(r, first_text(row@)),
{
    match read_first(row, Kind::Text)? {
        Json::Text(s) => Ok(s),
        _ => Err(exchange::UNEXPECTED.to_owned()),
    }
}

/// The text of the first column of the first row.
pub open spec fn single_text(rows: Seq<Seq<(Seq<char>, SqlView)>>) -> Result<Seq<char>, Seq<char>> {
    if rows.len() == 0 {
        Err("Query returned no rows"@)
    } else {
        first_text(rows[0])
    }
}

/// Reads the text of the first column of the first row.
pub fn read_single_text(rows: &Vec<Row>) -> (r: Result<String, String>)
    ensures
        exchange::says(r, single_text(rows.deep_view())),
{
    if rows.len() == 0 {
        return Err("Query returned no rows".to_owned());
    }
    read_first_text(&rows[0])
}

/// The texts of the first column of rows.
pub open spec fn first_texts(rows: Seq<Seq<(Seq<char>, SqlView)>>) -> Result<
    Seq<Seq<char>>,
    Seq<char>,
>
    decreases rows.len(),
{
    if rows.len() == 0 {
        Ok(Seq::empty())
    } else {
        match first_texts(rows.drop_last()) {
            Err(m) => Err(m),
            Ok(texts) => match first_text(rows.last()) {
                Err(m) => Err(m),
                Ok(s) => Ok(texts.push(s)),
            },
        }
    }
}

proof fn lemma_first_texts_error_stays(rows: Seq<Seq<(Seq<char>, SqlView)>>, i: int)
    requires
        0 <= i <= rows.len(),
        first_texts(rows.take(i)) is Err,
    ensures
        first_texts(rows) == first_texts(rows.take(i)),
    decreases rows.len() - i,
{
    if i == rows.len() {
        assert(rows.take(i) =~= rows);
    } else {
        assert(rows.take(i + 1).drop_last() =~= rows.take(i));
        lemma_first_texts_error_stays(rows, i + 1);
    }
}

/// Reads the texts of the first column.
pub fn read_first_texts(rows: &Vec<Row>) -> (r: Result<Vec<String>, String>)
    ensures
        exchange::says(r, first_texts(rows.deep_view())),
{
    let ghost all = rows.deep_view();
    let mut texts: Vec<String> = json::none();
    let mut i: usize = 0;
    proof {
        assert(all.take(0) =~= Seq::empty());
    }
    while i < rows.len()
        invariant
            all == rows.deep_view(),
            i <= rows@.len(),
            first_texts(all.take(i as int)) == Ok::<Seq<Seq<char>>, Seq<char>>(texts.deep_view()),
        decreases rows.len() - i,
    {
        proof {
            assert(all.take(i + 1).drop_last() =~= all.take(i as int));
            assert(all.take(i + 1).last() == rows@[i as int]@);
            if first_texts(all.take(i + 1)) is Err {
                lemma_first_texts_error_stays(all, i + 1);
            }
        }
        let s = read_first_text(&rows[i])?;
        json::put(&mut texts, s);
        i = i + 1;
    }
    proof {
        assert(all.take(i as int) =~= all);
    }
    Ok(texts)
}

/// The integer of the first column of the first row, `None` where there is no row.
pub open spec fn single_integer(rows: Seq<Seq<(Seq<char>, SqlView)>>) -> Result<
    Option<int>,
    Seq<char>,
> {
    if rows.len() == 0 {
        Ok(None)
    } else {
        match first_value(rows[0], Kind::Integer) {
            Err(m) => Err(m),
            Ok(JsonView::Integer(i)) => Ok(Some(i)),
            Ok(_) => Err(exchange::UNEXPECTED@),
        }
    }
}

/// Reads the integer of the first column of the first row.
pub fn read_single_integer(rows: &Vec<Row>) -> (r: Result<Option<i64>, String>)
    ensures
        match r {
            Ok(Some(i)) => single_integer(rows.deep_view()) == Ok::<Option<int>, Seq<char>>(
                Some(i as int),
            ),
            Ok(None) => single_integer(rows.deep_view()) == Ok::<Option<int>, Seq<char>>(None),
            Err(m) => single_integer(rows.deep_view()) == Err::<Option<int>, Seq<char>>(m@),
        },
{
    if rows.len() == 0 {
        return Ok(None);
    }
    match read_first(&rows[0], Kind::Integer)? {
        Json::Integer(i) => Ok(Some(i)),
        _ => Err(exchange::UNEXPECTED.to_owned()),
    }
}

/// The time, as the store writes it.
pub const NOW: &'static str = "SELECT strftime('%Y-%m-%dT%H:%M:%fZ', 'now')";

/// The time, the reply at `at`.
pub open spec fn now_at(replies: Seq<ReplyView>, at: int) -> Result<Seq<char>, StepView> {
    match exchange::rows_at(replies, at, stated(NOW@, params())) {
        Err(s) => Err(s),
        Ok(rows) => lifted(single_text(rows)),
    }
}

/// Reads the time.
pub fn db_now(replies: &Vec<Reply>, at: usize) -> (r: Result<String, Step>)
    ensures
        exchange::agrees(r, now_at(replies.deep_view(), at as int)),
{
    let rows = exchange::rows(replies, at, statement(NOW, json::none()))?;
    lift(read_single_text(rows))
}

/// A fresh identifier, the reply at `at`.
pub open spec fn id_at(replies: Seq<ReplyView>, at: int) -> Result<Seq<char>, StepView> {
    exchange::text_at(replies, at, ActionView::NewId)
}

/// Takes a fresh identifier.
pub fn new_id_from<'a>(replies: &'a Vec<Reply>, at: usize) -> (r: Result<&'a String, Step>)
    ensures
        exchange::agrees(r, id_at(replies.deep_view(), at as int)),
{
    exchange::text(replies, at, Action::NewId)
}

} // verus!
