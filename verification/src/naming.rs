//! How tasks and projects are named, and how the cells of a row are read.
use crate::exchange;
use crate::exchange::SqlView;
use crate::ids;
use crate::json::JsonView;
use crate::rows;
use crate::rows::Kind;
use crate::text;
use vstd::prelude::*;

verus! {

/// The letters and digits of an identifier are taken one after the other, as capitals, and all other
/// characters are left out.
pub proof fn law_capitals_are_taken_one_by_one(s: Seq<char>, c: char)
    ensures
        ids::capitals(Seq::empty()).len() == 0,
        'a' <= c <= 'z' || 'A' <= c <= 'Z' || '0' <= c <= '9' ==> ids::capitals(s.push(c))
            == ids::capitals(s).push(text::upper(c)),
        !('a' <= c <= 'z' || 'A' <= c <= 'Z' || '0' <= c <= '9') ==> ids::capitals(s.push(c))
            == ids::capitals(s),
{
    assert(s.push(c).drop_last() =~= s);
}

/// A task is named after its project: by up to twelve of its letters and digits, or by a word where
/// it has none, and then by its number.
pub proof fn law_task_is_named_after_its_project(project_id: Seq<char>, number: int)
    ensures
        ({
            let all = ids::capitals(project_id);
            let head = if all.len() == 0 {
                "TASK"@
            } else if all.len() <= 12 {
                all
            } else {
                all.take(12)
            };
            ids::identifier(project_id, number) == head + "-"@ + text::signed_decimal(number)
        }),
{
}

/// Two tasks of one project have different names, where their numbers are different.
pub proof fn law_tasks_of_a_project_have_different_names(
    project_id: Seq<char>,
    number: nat,
    other: nat,
)
    requires
        number <= usize::MAX,
        other <= usize::MAX,
        ids::identifier(project_id, number as int) == ids::identifier(project_id, other as int),
    ensures
        number == other,
{
    let head = ids::prefix(project_id) + "-"@;
    let a = ids::identifier(project_id, number as int);
    let b = ids::identifier(project_id, other as int);
    assert(a.skip(head.len() as int) =~= text::decimal(number));
    assert(b.skip(head.len() as int) =~= text::decimal(other));
    text::law_decimal_reads_back(number);
    text::law_decimal_reads_back(other);
}

/// The identifier of a project is of one to 64 small letters, digits and hyphens, and has no hyphen
/// at its ends.
pub proof fn law_form_of_a_project_id(s: Seq<char>)
    ensures
        ids::project_id_form(s) <==> {
            &&& 1 <= s.len() <= 64
            &&& s[0] != '-'
            &&& s.last() != '-'
            &&& forall|i: int|
                0 <= i < s.len() ==> ('a' <= #[trigger] s[i] <= 'z' || '0' <= s[i] <= '9' || s[i]
                    == '-')
        },
{
    if ids::project_id_form(s) {
        assert forall|i: int| 0 <= i < s.len() implies ('a' <= #[trigger] s[i] <= 'z' || '0' <= s[i]
            <= '9' || s[i] == '-') by {
            assert(ids::is_edge(s[i]) || s[i] == '-');
        }
    } else if 1 <= s.len() <= 64 && s[0] != '-' && s.last() != '-' && forall|i: int|
        0 <= i < s.len() ==> ('a' <= #[trigger] s[i] <= 'z' || '0' <= s[i] <= '9' || s[i] == '-') {
        let n = s.len() - 1;
        assert('a' <= s[0] <= 'z' || '0' <= s[0] <= '9' || s[0] == '-');
        assert('a' <= s[n] <= 'z' || '0' <= s[n] <= '9' || s[n] == '-');
        assert forall|i: int| 0 <= i < s.len() implies ids::is_edge(#[trigger] s[i]) || s[i]
            == '-' by {
            assert('a' <= s[i] <= 'z' || '0' <= s[i] <= '9' || s[i] == '-');
        }
    }
}

/// Whether a cell is the first one of its name in a row.
pub open spec fn is_first(row: Seq<(Seq<char>, SqlView)>, name: Seq<char>, i: int) -> bool {
    &&& 0 <= i < row.len()
    &&& row[i].0 == name
    &&& forall|k: int| 0 <= k < i ==> (#[trigger] row[k]).0 != name
}

proof fn lemma_first(row: Seq<(Seq<char>, SqlView)>, name: Seq<char>, i: int)
    requires
        is_first(row, name, i),
    ensures
        rows::cell_index(row, name) == i,
    decreases row.len(),
{
    if i > 0 {
        assert(row[0].0 != name);
        let rest = row.drop_first();
        assert forall|k: int| 0 <= k < i - 1 implies (#[trigger] rest[k]).0 != name by {
            assert(rest[k] == row[k + 1]);
        }
        lemma_first(rest, name, i - 1);
    }
}

proof fn lemma_none(row: Seq<(Seq<char>, SqlView)>, name: Seq<char>)
    requires
        forall|k: int| 0 <= k < row.len() ==> (#[trigger] row[k]).0 != name,
    ensures
        rows::cell_index(row, name) == row.len(),
    decreases row.len(),
{
    if row.len() > 0 {
        assert(row[0].0 != name);
        let rest = row.drop_first();
        assert forall|k: int| 0 <= k < rest.len() implies (#[trigger] rest[k]).0 != name by {
            assert(rest[k] == row[k + 1]);
        }
        lemma_none(rest, name);
    }
}

/// What is read of a column is what the first cell of its name holds, as it is: a text, a number, or
/// null where the column may be null. A number is read as a real one where one is asked for.
pub proof fn law_cell_is_read_as_it_is(
    row: Seq<(Seq<char>, SqlView)>,
    name: Seq<char>,
    i: int,
    s: Seq<char>,
    n: int,
)
    requires
        is_first(row, name, i),
        exchange::lost(row) is None,
    ensures
        row[i].1 == SqlView::Text(s) ==> {
            &&& rows::column_value(row, name, Kind::Text) == Ok::<JsonView, Seq<char>>(
                JsonView::Text(s),
            )
            &&& rows::column_value(row, name, Kind::OptionalText) == Ok::<JsonView, Seq<char>>(
                JsonView::Text(s),
            )
        },
        row[i].1 == SqlView::Integer(n) ==> {
            &&& rows::column_value(row, name, Kind::Integer) == Ok::<JsonView, Seq<char>>(
                JsonView::Integer(n),
            )
            &&& rows::column_value(row, name, Kind::OptionalInteger) == Ok::<JsonView, Seq<char>>(
                JsonView::Integer(n),
            )
            &&& rows::column_value(row, name, Kind::Real) == Ok::<JsonView, Seq<char>>(
                JsonView::Real(text::signed_decimal(n)),
            )
        },
        row[i].1 == SqlView::Real(s) ==> rows::column_value(row, name, Kind::Real) == Ok::<
            JsonView,
            Seq<char>,
        >(JsonView::Real(s)),
        row[i].1 == SqlView::Null ==> {
            &&& rows::column_value(row, name, Kind::OptionalText) == Ok::<JsonView, Seq<char>>(
                JsonView::Null,
            )
            &&& rows::column_value(row, name, Kind::OptionalInteger) == Ok::<JsonView, Seq<char>>(
                JsonView::Null,
            )
        },
{
    lemma_first(row, name, i);
}

/// A column that is not there is refused, and so is one that holds something of another type; the
/// refusal names the type, the place and the name.
pub proof fn law_why_a_cell_is_refused(
    row: Seq<(Seq<char>, SqlView)>,
    name: Seq<char>,
    i: int,
    kind: Kind,
)
    requires
        exchange::lost(row) is None,
    ensures
        (forall|k: int| 0 <= k < row.len() ==> (#[trigger] row[k]).0 != name) ==> rows::column_value(
            row,
            name,
            kind,
        ) == Err::<JsonView, Seq<char>>("Invalid column name: "@ + name),
        is_first(row, name, i) && row[i].1 is Null && (kind == Kind::Text || kind == Kind::Integer
            || kind == Kind::Real) ==> rows::column_value(row, name, kind) == Err::<
            JsonView,
            Seq<char>,
        >("Invalid column type "@ + "Null"@ + " at index: "@ + text::decimal(i as nat)
            + ", name: "@ + name),
        is_first(row, name, i) && row[i].1 is Text && (kind == Kind::Integer || kind
            == Kind::OptionalInteger || kind == Kind::Real) ==> rows::column_value(row, name, kind)
            == Err::<JsonView, Seq<char>>(
            "Invalid column type "@ + "Text"@ + " at index: "@ + text::decimal(i as nat)
                + ", name: "@ + name,
        ),
        is_first(row, name, i) && row[i].1 is Integer && (kind == Kind::Text || kind
            == Kind::OptionalText) ==> rows::column_value(row, name, kind) == Err::<
            JsonView,
            Seq<char>,
        >("Invalid column type "@ + "Integer"@ + " at index: "@ + text::decimal(i as nat)
            + ", name: "@ + name),
        is_first(row, name, i) && row[i].1 is Real && kind != Kind::Real ==> rows::column_value(
            row,
            name,
            kind,
        ) == Err::<JsonView, Seq<char>>(
            "Invalid column type "@ + "Real"@ + " at index: "@ + text::decimal(i as nat)
                + ", name: "@ + name,
        ),
        is_first(row, name, i) && row[i].1 is Blob ==> rows::column_value(row, name, kind) == Err::<
            JsonView,
            Seq<char>,
        >("Invalid column type "@ + "Blob"@ + " at index: "@ + text::decimal(i as nat)
            + ", name: "@ + name),
{
    if forall|k: int| 0 <= k < row.len() ==> (#[trigger] row[k]).0 != name {
        lemma_none(row, name);
    }
    if is_first(row, name, i) {
        lemma_first(row, name, i);
    }
}

} // verus!
