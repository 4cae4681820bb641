//! Rows of the store as JSON values.
use crate::exchange;
use crate::exchange::{Row, SqlValue, SqlView};
use crate::json;
use crate::json::{Json, JsonView};
use crate::text;
use vstd::prelude::*;

verus! {

/// What a column holds.
#[derive(Clone, Copy, Debug, PartialEq, Eq, Structural)]
pub enum Kind {
    Text,
    OptionalText,
    Integer,
    OptionalInteger,
    Real,
}

/// A column: the key under which it is shown, its name in the store, and what it holds.
pub struct Column {
    pub key: &'static str,
    pub name: &'static str,
    pub kind: Kind,
}

impl View for Column {
    type V = (Seq<char>, Seq<char>, Kind);

    open spec fn view(&self) -> (Seq<char>, Seq<char>, Kind) {
        (self.key@, self.name@, self.kind)
    }
}

impl DeepView for Column {
    type V = (Seq<char>, Seq<char>, Kind);

    open spec fn deep_view(&self) -> (Seq<char>, Seq<char>, Kind) {
        self@
    }
}

/// Makes a column.
pub fn column(key: &'static str, name: &'static str, kind: Kind) -> (r: Column)
    ensures
        r@ == (key@, name@, kind),
{
    Column { key, name, kind }
}

/// The columns of an empty plan.
pub open spec fn plan() -> Seq<(Seq<char>, Seq<char>, Kind)> {
    Seq::empty()
}

/// The place of a column in a row, the number of its columns where it has none of that name.
pub open spec fn cell_index(row: Seq<(Seq<char>, SqlView)>, name: Seq<char>) -> int
    decreases row.len(),
{
    if row.len() == 0 || row[0].0 == name {
        0
    } else {
        1 + cell_index(row.drop_first(), name)
    }
}

/// The name of the type of a value.
pub open spec fn kind_name(value: SqlView) -> Seq<char> {
    match value {
        SqlView::Null => "Null"@,
        SqlView::Integer(_) => "Integer"@,
        SqlView::Real(_) => "Real"@,
        SqlView::Text(_) => "Text"@,
        SqlView::Blob(_) => "Blob"@,
        SqlView::Garbled(_) => "Text"@,
        SqlView::Lost(_) => "Null"@,
    }
}

/// A value as one of a kind, where it is one.
pub open spec fn of_kind(value: SqlView, kind: Kind) -> Option<JsonView> {
    match (kind, value) {
        (Kind::Text, SqlView::Text(s)) => Some(JsonView::Text(s)),
        (Kind::OptionalText, SqlView::Text(s)) => Some(JsonView::Text(s)),
        (Kind::OptionalText, SqlView::Null) => Some(JsonView::Null),
        (Kind::Integer, SqlView::Integer(i)) => Some(JsonView::Integer(i)),
        (Kind::OptionalInteger, SqlView::Integer(i)) => Some(JsonView::Integer(i)),
        (Kind::OptionalInteger, SqlView::Null) => Some(JsonView::Null),
        (Kind::Real, SqlView::Real(s)) => Some(JsonView::Real(s)),
        (Kind::Real, SqlView::Integer(i)) => Some(JsonView::Real(text::signed_decimal(i))),
        _ => None,
    }
}

/// A text as it is shown, null where there is none.
pub open spec fn shown_text(s: Option<Seq<char>>) -> JsonView {
    match s {
        Some(s) => JsonView::Text(s),
        None => JsonView::Null,
    }
}

/// The message of the failure to read a value as a text, where one is asked for and it is none.
pub open spec fn garbled(value: SqlView, kind: Kind) -> Option<Seq<char>> {
    match (kind, value) {
        (Kind::Text, SqlView::Garbled(m)) => Some(m),
        (Kind::OptionalText, SqlView::Garbled(m)) => Some(m),
        _ => None,
    }
}

/// The value of a column, or the message of why it cannot be had.
pub open spec fn column_value(row: Seq<(Seq<char>, SqlView)>, name: Seq<char>, kind: Kind) -> Result<
    JsonView,
    Seq<char>,
> {
    let i = cell_index(row, name);
    if exchange::lost(row) is Some {
        Err(exchange::lost(row)->0)
    } else if i >= row.len() {
        Err("Invalid column name: "@ + name)
    } else if garbled(row[i].1, kind) is Some {
        Err(garbled(row[i].1, kind)->0)
    } else {
        match of_kind(row[i].1, kind) {
            Some(v) => Ok(v),
            None => Err(
                "Invalid column type "@ + kind_name(row[i].1) + " at index: "@ + text::decimal(
                    i as nat,
                ) + ", name: "@ + name,
            ),
        }
    }
}

/// The members that a row has under a plan.
pub open spec fn planned(
    row: Seq<(Seq<char>, SqlView)>,
    columns: Seq<(Seq<char>, Seq<char>, Kind)>,
) -> Result<Seq<(Seq<char>, JsonView)>, Seq<char>>
    decreases columns.len(),
{
    if columns.len() == 0 {
        Ok(json::members())
    } else {
        match planned(row, columns.drop_last()) {
            Err(m) => Err(m),
            Ok(members) => match column_value(row, columns.last().1, columns.last().2) {
                Err(m) => Err(m),
                Ok(v) => Ok(members.push((columns.last().0, v))),
            },
        }
    }
}

/// The object that a row is under a plan.
pub open spec fn row_object(
    row: Seq<(Seq<char>, SqlView)>,
    columns: Seq<(Seq<char>, Seq<char>, Kind)>,
) -> Result<JsonView, Seq<char>> {
    match planned(row, columns) {
        Err(m) => Err(m),
        Ok(members) => Ok(JsonView::Object(members)),
    }
}

fn find_cell(row: &Row, name: &str) -> (r: usize)
    ensures
        r == cell_index(row@, name@),
        r <= row.cells@.len(),
{
    let ghost all = row@;
    let mut i: usize = 0;
    proof {
        assert(all.skip(0) =~= all);
    }
    while i < row.cells.len()
        invariant
            all == row@,
            i <= row.cells@.len(),
            cell_index(all, name@) == i + cell_index(all.skip(i as int), name@),
        decreases row.cells.len() - i,
    {
        proof {
            assert(all.skip(i as int).drop_first() =~= all.skip(i + 1));
        }
        if text::same(&row.cells[i].0, name) {
            return i;
        }
        i = i + 1;
    }
    i
}

fn kind_text(value: &SqlValue) -> (r: &'static str)
    ensures
        r@ == kind_name(value@),
{
    match value {
        SqlValue::Null => "Null",
        SqlValue::Integer(_) => "Integer",
        SqlValue::Real(_) => "Real",
        SqlValue::Text(_) => "Text",
        SqlValue::Blob(_) => "Blob",
        SqlValue::Garbled(_) => "Text",
        SqlValue::Lost(_) => "Null",
    }
}

fn garbled_text(value: &SqlValue, kind: Kind) -> (r: Option<String>)
    ensures
        r.deep_view() == garbled(value@, kind),
{
    match (kind, value) {
        (Kind::Text, SqlValue::Garbled(m)) => Some(m.clone()),
        (Kind::OptionalText, SqlValue::Garbled(m)) => Some(m.clone()),
        _ => None,
    }
}

fn as_kind(value: &SqlValue, kind: Kind) -> (r: Option<Json>)
    ensures
        r.deep_view() == of_kind(value@, kind),
{
    match (kind, value) {
        (Kind::Text, SqlValue::Text(s)) => Some(Json::Text(s.clone())),
        (Kind::OptionalText, SqlValue::Text(s)) => Some(Json::Text(s.clone())),
        (Kind::OptionalText, SqlValue::Null) => Some(Json::Null),
        (Kind::Integer, SqlValue::Integer(i)) => Some(Json::Integer(*i)),
        (Kind::OptionalInteger, SqlValue::Integer(i)) => Some(Json::Integer(*i)),
        (Kind::OptionalInteger, SqlValue::Null) => Some(Json::Null),
        (Kind::Real, SqlValue::Real(s)) => Some(Json::Real(s.clone())),
        (Kind::Real, SqlValue::Integer(i)) => Some(Json::Real(text::integer_text(*i))),
        _ => None,
    }
}

/// Reads the value of a column.
pub fn read_column(row: &Row, name: &str, kind: Kind) -> (r: Result<Json, String>)
    ensures
        exchange::says(r, column_value(row@, name@, kind)),
{
    match exchange::lost_row(row) {
        Some(message) => {
            return Err(message);
        },
        None => {},
    }
    let i: usize = find_cell(row, name);
    if i >= row.cells.len() {
        let mut message = "Invalid column name: ".to_owned();
        message.append(name);
        return Err(message);
    }
    match garbled_text(&row.cells[i].1, kind) {
        Some(message) => {
            return Err(message);
        },
        None => {},
    }
    match as_kind(&row.cells[i].1, kind) {
        Some(v) => Ok(v),
        None => {
            let mut message = "Invalid column type ".to_owned();
            message.append(kind_text(&row.cells[i].1));
            message.append(" at index: ");
            message.append(&text::decimal_text(i as u64));
            message.append(", name: ");
            message.append(name);
            Err(message)
        },
    }
}

proof fn lemma_planned_error_stays(
    row: Seq<(Seq<char>, SqlView)>,
    columns: Seq<(Seq<char>, Seq<char>, Kind)>,
    i: int,
)
    requires
        0 <= i <= columns.len(),
        planned(row, columns.take(i)) is Err,
    ensures
        planned(row, columns) == planned(row, columns.take(i)),
    decreases columns.len() - i,
{
    if i == columns.len() {
        assert(columns.take(i) =~= columns);
    } else {
        assert(columns.take(i + 1).drop_last() =~= columns.take(i));
        lemma_planned_error_stays(row, columns, i + 1);
    }
}

/// A row has one member for each column of a plan.
pub proof fn lemma_planned_len(
    row: Seq<(Seq<char>, SqlView)>,
    columns: Seq<(Seq<char>, Seq<char>, Kind)>,
)
    ensures
        planned(row, columns) is Ok ==> planned(row, columns)->Ok_0.len() == columns.len(),
    decreases columns.len(),
{
    if columns.len() > 0 {
        lemma_planned_len(row, columns.drop_last());
    }
}

/// A column stands where its name stands first.
pub proof fn lemma_cell_index(row: Seq<(Seq<char>, SqlView)>, name: Seq<char>, k: int)
    requires
        0 <= k < row.len(),
        row[k].0 == name,
        forall|j: int| 0 <= j < k ==> (#[trigger] row[j]).0 != name,
    ensures
        cell_index(row, name) == k,
    decreases k,
{
    if k > 0 {
        assert(row[0].0 != name);
        let rest = row.drop_first();
        assert forall|j: int| 0 <= j < k - 1 implies (#[trigger] rest[j]).0 != name by {
            assert(rest[j] == row[j + 1]);
        }
        lemma_cell_index(rest, name, k - 1);
    }
}

/// A row whose columns all have their values has them as its members.
pub proof fn lemma_planned_values(
    row: Seq<(Seq<char>, SqlView)>,
    columns: Seq<(Seq<char>, Seq<char>, Kind)>,
    values: Seq<JsonView>,
)
    requires
        values.len() == columns.len(),
        forall|i: int|
            0 <= i < columns.len() ==> column_value(
                row,
                (#[trigger] columns[i]).1,
                columns[i].2,
            ) == Ok::<JsonView, Seq<char>>(values[i]),
    ensures
        planned(row, columns) == Ok::<Seq<(Seq<char>, JsonView)>, Seq<char>>(
            Seq::new(columns.len(), |i: int| (columns[i].0, values[i])),
        ),
    decreases columns.len(),
{
    if columns.len() > 0 {
        let before = columns.drop_last();
        let last = columns.len() - 1;
        assert forall|i: int| 0 <= i < before.len() implies column_value(
            row,
            (#[trigger] before[i]).1,
            before[i].2,
        ) == Ok::<JsonView, Seq<char>>(values.drop_last()[i]) by {
            assert(before[i] == columns[i]);
        }
        lemma_planned_values(row, before, values.drop_last());
        assert(column_value(row, columns[last].1, columns[last].2) == Ok::<JsonView, Seq<char>>(
            values[last],
        ));
        assert(Seq::new(before.len(), |i: int| (before[i].0, values.drop_last()[i])).push(
            (columns[last].0, values[last]),
        ) =~= Seq::new(columns.len(), |i: int| (columns[i].0, values[i])));
    } else {
        assert(json::members() =~= Seq::new(
            columns.len(),
            |i: int| (columns[i].0, values[i]),
        ));
    }
}

/// Reads the members that a row has under a plan.
pub fn read_columns(row: &Row, columns: Vec<Column>) -> (r: Result<Vec<(String, Json)>, String>)
    ensures
        match r {
            Ok(members) => planned(row@, columns.deep_view()) == Ok::<
                Seq<(Seq<char>, JsonView)>,
                Seq<char>,
            >(json::members_view(members@)),
            Err(m) => planned(row@, columns.deep_view()) == Err::<
                Seq<(Seq<char>, JsonView)>,
                Seq<char>,
            >(m@),
        },
{
    let ghost all = columns.deep_view();
    let mut members = json::no_members();
    let mut i: usize = 0;
    proof {
        assert(all.take(0) =~= Seq::empty());
    }
    while i < columns.len()
        invariant
            all == columns.deep_view(),
            i <= columns@.len(),
            planned(row@, all.take(i as int)) == Ok::<Seq<(Seq<char>, JsonView)>, Seq<char>>(
                json::members_view(members@),
            ),
        decreases columns.len() - i,
    {
        proof {
            assert(all.take(i + 1).drop_last() =~= all.take(i as int));
            assert(all.take(i + 1).last() == columns@[i as int]@);
            if planned(row@, all.take(i + 1)) is Err {
                lemma_planned_error_stays(row@, all, i + 1);
            }
        }
        let v = read_column(row, columns[i].name, columns[i].kind)?;
        json::member(&mut members, columns[i].key, v);
        i = i + 1;
    }
    proof {
        assert(all.take(i as int) =~= all);
    }
    Ok(members)
}

/// Reads the object that a row is under a plan.
pub fn read_object(row: &Row, columns: Vec<Column>) -> (r: Result<Json, String>)
    ensures
        exchange::says(r, row_object(row@, columns.deep_view())),
{
    let members = read_columns(row, columns)?;
    Ok(json::object(members))
}

/// The objects that rows are, or the message of the first that is none.
pub open spec fn each_row(
    rows: Seq<Seq<(Seq<char>, SqlView)>>,
    read: spec_fn(Seq<(Seq<char>, SqlView)>) -> Result<JsonView, Seq<char>>,
) -> Result<Seq<JsonView>, Seq<char>>
    decreases rows.len(),
{
    if rows.len() == 0 {
        Ok(Seq::empty())
    } else {
        match each_row(rows.drop_last(), read) {
            Err(m) => Err(m),
            Ok(values) => match read(rows.last()) {
                Err(m) => Err(m),
                Ok(v) => Ok(values.push(v)),
            },
        }
    }
}

pub proof fn lemma_each_row_error_stays(
    rows: Seq<Seq<(Seq<char>, SqlView)>>,
    read: spec_fn(Seq<(Seq<char>, SqlView)>) -> Result<JsonView, Seq<char>>,
    i: int,
)
    requires
        0 <= i <= rows.len(),
        each_row(rows.take(i), read) is Err,
    ensures
        each_row(rows, read) == each_row(rows.take(i), read),
    decreases rows.len() - i,
{
    if i == rows.len() {
        assert(rows.take(i) =~= rows);
    } else {
        assert(rows.take(i + 1).drop_last() =~= rows.take(i));
        lemma_each_row_error_stays(rows, read, i + 1);
    }
}

/// Rows that all are objects are these objects.
pub proof fn lemma_each_row_values(
    rows: Seq<Seq<(Seq<char>, SqlView)>>,
    read: spec_fn(Seq<(Seq<char>, SqlView)>) -> Result<JsonView, Seq<char>>,
    values: Seq<JsonView>,
)
    requires
        values.len() == rows.len(),
        forall|i: int|
            0 <= i < rows.len() ==> read(#[trigger] rows[i]) == Ok::<JsonView, Seq<char>>(values[i]),
    ensures
        each_row(rows, read) == Ok::<Seq<JsonView>, Seq<char>>(values),
    decreases rows.len(),
{
    if rows.len() > 0 {
        let before = rows.drop_last();
        assert forall|i: int| 0 <= i < before.len() implies read(#[trigger] before[i]) == Ok::<
            JsonView,
            Seq<char>,
        >(values.drop_last()[i]) by {
            assert(before[i] == rows[i]);
        }
        lemma_each_row_values(before, read, values.drop_last());
        assert(rows.last() == rows[rows.len() - 1]);
        assert(values.drop_last().push(values.last()) =~= values);
    } else {
        assert(values =~= Seq::empty());
    }
}

/// The objects of the rows before the first that is none.
pub open spec fn leading(
    rows: Seq<Seq<(Seq<char>, SqlView)>>,
    read: spec_fn(Seq<(Seq<char>, SqlView)>) -> Result<JsonView, Seq<char>>,
) -> Seq<JsonView>
    decreases rows.len(),
{
    if rows.len() == 0 {
        Seq::empty()
    } else {
        match each_row(rows, read) {
            Ok(values) => values,
            Err(_) => leading(rows.drop_last(), read),
        }
    }
}

proof fn lemma_leading_ends(
    rows: Seq<Seq<(Seq<char>, SqlView)>>,
    read: spec_fn(Seq<(Seq<char>, SqlView)>) -> Result<JsonView, Seq<char>>,
    i: int,
)
    requires
        0 <= i < rows.len(),
        each_row(rows.take(i), read) is Ok,
        each_row(rows.take(i + 1), read) is Err,
    ensures
        leading(rows, read) == each_row(rows.take(i), read)->Ok_0,
    decreases rows.len(),
{
    lemma_each_row_error_stays(rows, read, i + 1);
    let before = rows.drop_last();
    if i == rows.len() - 1 {
        reveal_with_fuel(leading, 2);
        assert(rows.take(i) =~= before);
    } else {
        assert(before.take(i) =~= rows.take(i));
        assert(before.take(i + 1) =~= rows.take(i + 1));
        lemma_leading_ends(before, read, i);
    }
}

/// What follows for rows once each before the first that is no object has passed: the message of
/// that one, where there is one.
pub open spec fn unless_faulty<V>(
    rows: Seq<Seq<(Seq<char>, SqlView)>>,
    read: spec_fn(Seq<(Seq<char>, SqlView)>) -> Result<JsonView, Seq<char>>,
    passed: Result<V, Seq<char>>,
) -> Result<V, Seq<char>> {
    match passed {
        Err(m) => Err(m),
        Ok(v) => match each_row(rows, read) {
            Err(m) => Err(m),
            Ok(_) => Ok(v),
        },
    }
}

/// Reads rows one by one up to the first that is no object, and tells its message.
pub(crate) fn read_leading<F: Fn(&Row) -> Result<Json, String>>(
    rows: &Vec<Row>,
    read: F,
    Ghost(stated): Ghost<spec_fn(Seq<(Seq<char>, SqlView)>) -> Result<JsonView, Seq<char>>>,
) -> (r: (Vec<Json>, Option<String>))
    requires
        forall|row: &Row| #[trigger] call_requires(read, (row,)),
        forall|row: &Row, v: Result<Json, String>| #[trigger]
            call_ensures(read, (row,), v) ==> exchange::says(v, stated(row@)),
    ensures
        r.0.deep_view() == leading(rows.deep_view(), stated),
        match r.1 {
            Some(m) => each_row(rows.deep_view(), stated) == Err::<Seq<JsonView>, Seq<char>>(m@),
            None => each_row(rows.deep_view(), stated) is Ok,
        },
{
    let ghost all = rows.deep_view();
    let mut values: Vec<Json> = json::none();
    let mut i: usize = 0;
    proof {
        assert(all.take(0) =~= Seq::empty());
    }
    while i < rows.len()
        invariant
            all == rows.deep_view(),
            i <= rows@.len(),
            forall|row: &Row| #[trigger] call_requires(read, (row,)),
            forall|row: &Row, v: Result<Json, String>| #[trigger]
                call_ensures(read, (row,), v) ==> exchange::says(v, stated(row@)),
            each_row(all.take(i as int), stated) == Ok::<Seq<JsonView>, Seq<char>>(
                values.deep_view(),
            ),
        decreases rows.len() - i,
    {
        proof {
            assert(all.take(i + 1).drop_last() =~= all.take(i as int));
            assert(all.take(i + 1).last() == rows@[i as int]@);
            if each_row(all.take(i + 1), stated) is Err {
                lemma_each_row_error_stays(all, stated, i + 1);
                lemma_leading_ends(all, stated, i as int);
            }
        }
        match read(&rows[i]) {
            Ok(v) => {
                json::put(&mut values, v);
            },
            Err(m) => {
                return (values, Some(m));
            },
        }
        i = i + 1;
    }
    proof {
        assert(all.take(i as int) =~= all);
    }
    (values, None)
}

/// Reads rows one by one. Each is read by `read`, which is what `stated` says.
pub(crate) fn read_rows<F: Fn(&Row) -> Result<Json, String>>(
    rows: &Vec<Row>,
    read: F,
    Ghost(stated): Ghost<spec_fn(Seq<(Seq<char>, SqlView)>) -> Result<JsonView, Seq<char>>>,
) -> (r: Result<Vec<Json>, String>)
    requires
        forall|row: &Row| #[trigger] call_requires(read, (row,)),
        forall|row: &Row, v: Result<Json, String>| #[trigger]
            call_ensures(read, (row,), v) ==> exchange::says(v, stated(row@)),
    ensures
        exchange::says(r, each_row(rows.deep_view(), stated)),
{
    let ghost all = rows.deep_view();
    let mut values: Vec<Json> = json::none();
    let mut i: usize = 0;
    proof {
        assert(all.take(0) =~= Seq::empty());
    }
    while i < rows.len()
        invariant
            all == rows.deep_view(),
            i <= rows@.len(),
            forall|row: &Row| #[trigger] call_requires(read, (row,)),
            forall|row: &Row, v: Result<Json, String>| #[trigger]
                call_ensures(read, (row,), v) ==> exchange::says(v, stated(row@)),
            each_row(all.take(i as int), stated) == Ok::<Seq<JsonView>, Seq<char>>(
                values.deep_view(),
            ),
        decreases rows.len() - i,
    {
        proof {
            assert(all.take(i + 1).drop_last() =~= all.take(i as int));
            assert(all.take(i + 1).last() == rows@[i as int]@);
            if each_row(all.take(i + 1), stated) is Err {
                lemma_each_row_error_stays(all, stated, i + 1);
            }
        }
        let v = read(&rows[i])?;
        json::put(&mut values, v);
        i = i + 1;
    }
    proof {
        assert(all.take(i as int) =~= all);
    }
    Ok(values)
}

} // verus!
