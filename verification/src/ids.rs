//! Identifiers: of projects, of tasks, and fresh ones.
use crate::exchange::{Action, Reply};
use crate::text;
use vstd::prelude::*;
use vstd::utf8::*;

verus! {

/// The characters that a project identifier starts and ends with.
pub open spec fn is_edge(c: char) -> bool {
    'a' <= c <= 'z' || text::is_digit(c)
}

fn edge(c: char) -> (r: bool)
    ensures
        r == is_edge(c),
{
    ('a' <= c && c <= 'z') || ('0' <= c && c <= '9')
}

/// Whether a text is a project identifier: up to 64 small letters, digits and hyphens, with no
/// hyphen at either end.
pub open spec fn project_id_form(s: Seq<char>) -> bool {
    &&& 1 <= s.len() <= 64
    &&& is_edge(s[0])
    &&& is_edge(s.last())
    &&& forall|i: int| 0 <= i < s.len() ==> is_edge(#[trigger] s[i]) || s[i] == '-'
}

/// Tells whether a text is a project identifier.
pub fn is_project_id(value: &str) -> (r: bool)
    ensures
        r == project_id_form(value@),
{
    let chars = text::chars_of(value);
    if chars.len() == 0 || chars.len() > 64 {
        return false;
    }
    if !edge(chars[0]) || !edge(chars[chars.len() - 1]) {
        return false;
    }
    let mut i: usize = 0;
    while i < chars.len()
        invariant
            chars@ == value@,
            i <= chars@.len(),
            forall|k: int| 0 <= k < i ==> is_edge(#[trigger] chars@[k]) || chars@[k] == '-',
        decreases chars.len() - i,
    {
        if !edge(chars[i]) && chars[i] != '-' {
            return false;
        }
        i = i + 1;
    }
    true
}

/// What is left of a name on the way to an identifier, and whether the last thing that was left
/// of it is a hyphen: letters and digits stay, in small letters, and everything between them
/// becomes one hyphen.
pub open spec fn slug_run(s: Seq<char>) -> (Seq<char>, bool)
    decreases s.len(),
{
    if s.len() == 0 {
        (Seq::empty(), false)
    } else {
        let (output, dash) = slug_run(s.drop_last());
        let c = text::lower(s.last());
        if is_edge(c) {
            (capped(output, c), false)
        } else if !dash && output.len() > 0 {
            (capped(output, '-'), true)
        } else {
            (output, dash)
        }
    }
}

/// A text with one more character, where it has fewer than 64.
pub open spec fn capped(s: Seq<char>, c: char) -> Seq<char> {
    if s.len() < 64 {
        s.push(c)
    } else {
        s
    }
}

/// A text without the hyphens at its start.
pub open spec fn without_first_dashes(s: Seq<char>) -> Seq<char>
    decreases s.len(),
{
    if s.len() > 0 && s[0] == '-' {
        without_first_dashes(s.drop_first())
    } else {
        s
    }
}

/// A text without the hyphens at its end.
pub open spec fn without_last_dashes(s: Seq<char>) -> Seq<char>
    decreases s.len(),
{
    if s.len() > 0 && s.last() == '-' {
        without_last_dashes(s.drop_last())
    } else {
        s
    }
}

/// The identifier that a name makes.
pub open spec fn slug(s: Seq<char>) -> Seq<char> {
    without_last_dashes(without_first_dashes(slug_run(s).0))
}

fn trim_dashes(chars: Vec<char>) -> (r: String)
    ensures
        r@ == without_last_dashes(without_first_dashes(chars@)),
{
    let mut from: usize = 0;
    proof {
        assert(chars@.skip(0) =~= chars@);
    }
    while from < chars.len() && chars[from] == '-'
        invariant
            from <= chars@.len(),
            without_first_dashes(chars@) == without_first_dashes(chars@.skip(from as int)),
        decreases chars.len() - from,
    {
        proof {
            assert(chars@.skip(from as int).drop_first() =~= chars@.skip(from + 1));
        }
        from = from + 1;
    }
    let ghost body = chars@.skip(from as int);
    let mut to: usize = chars.len();
    proof {
        assert(chars@.subrange(from as int, to as int) =~= body);
    }
    while to > from && chars[to - 1] == '-'
        invariant
            from <= to <= chars@.len(),
            without_last_dashes(body) == without_last_dashes(
                chars@.subrange(from as int, to as int),
            ),
        decreases to - from,
    {
        proof {
            assert(chars@.subrange(from as int, to as int).drop_last() =~= chars@.subrange(
                from as int,
                to - 1,
            ));
        }
        to = to - 1;
    }
    text::text_of(&chars, from, to)
}

/// The identifier that a name makes. Where anything is left of the name, it is a project
/// identifier.
pub fn slugify(value: &str) -> (r: String)
    ensures
        r@ == slug(value@),
        r@.len() > 0 ==> project_id_form(r@),
{
    let chars = text::chars_of(value);
    let mut output: Vec<char> = Vec::new();
    let mut dash = false;
    let mut i: usize = 0;
    proof {
        assert(chars@.take(0) =~= Seq::<char>::empty());
    }
    while i < chars.len()
        invariant
            chars@ == value@,
            i <= chars@.len(),
            slug_run(chars@.take(i as int)) == (output@, dash),
        decreases chars.len() - i,
    {
        proof {
            assert(chars@.take(i + 1).drop_last() =~= chars@.take(i as int));
        }
        let c = text::to_lower(chars[i]);
        if edge(c) {
            dash = false;
            if output.len() < 64 {
                output.push(c);
            }
        } else if !dash && output.len() > 0 {
            dash = true;
            if output.len() < 64 {
                output.push('-');
            }
        }
        i = i + 1;
    }
    proof {
        assert(chars@.take(i as int) =~= chars@);
        law_slug_is_a_project_id(value@);
    }
    trim_dashes(output)
}

proof fn lemma_slug_run(s: Seq<char>)
    ensures
        slug_run(s).0.len() <= 64,
        slug_run(s).0.len() > 0 ==> is_edge(slug_run(s).0[0]),
        forall|i: int|
            0 <= i < slug_run(s).0.len() ==> is_edge(#[trigger] slug_run(s).0[i])
                || slug_run(s).0[i] == '-',
    decreases s.len(),
{
    if s.len() > 0 {
        lemma_slug_run(s.drop_last());
    }
}

proof fn lemma_without_last_dashes(s: Seq<char>)
    ensures
        without_last_dashes(s).len() <= s.len(),
        without_last_dashes(s) == s.take(without_last_dashes(s).len() as int),
        without_last_dashes(s).len() > 0 ==> without_last_dashes(s).last() != '-',
    decreases s.len(),
{
    if s.len() > 0 && s.last() == '-' {
        lemma_without_last_dashes(s.drop_last());
        let n = without_last_dashes(s).len() as int;
        assert(s.drop_last().take(n) =~= s.take(n));
    } else {
        assert(s.take(s.len() as int) =~= s);
    }
}

/// Whatever name it is made of, an identifier that is not empty is a project identifier.
pub proof fn law_slug_is_a_project_id(name: Seq<char>)
    ensures
        slug(name).len() > 0 ==> project_id_form(slug(name)),
{
    let run = slug_run(name).0;
    lemma_slug_run(name);
    assert(without_first_dashes(run) == run);
    lemma_without_last_dashes(run);
    if slug(name).len() > 0 {
        let s = slug(name);
        assert(s[0] == run[0]);
        assert(s.last() == run[s.len() - 1]);
        assert forall|i: int| 0 <= i < s.len() implies is_edge(#[trigger] s[i]) || s[i] == '-' by {
            assert(s[i] == run[i]);
        }
    }
}

/// A word of up to 64 small letters and digits is the identifier that it makes.
pub proof fn law_slug_keeps_short_words(s: Seq<char>)
    requires
        s.len() <= 64,
        forall|i: int| 0 <= i < s.len() ==> is_edge(#[trigger] s[i]),
    ensures
        slug(s) == s,
{
    lemma_run_of_word(s);
    assert(s.len() > 0 ==> is_edge(s[0]) && is_edge(s.last()));
}

proof fn lemma_run_of_word(s: Seq<char>)
    requires
        s.len() <= 64,
        forall|i: int| 0 <= i < s.len() ==> is_edge(#[trigger] s[i]),
    ensures
        slug_run(s) == (s, false),
    decreases s.len(),
{
    if s.len() > 0 {
        assert forall|i: int| 0 <= i < s.drop_last().len() implies is_edge(
            #[trigger] s.drop_last()[i],
        ) by {
            assert(s.drop_last()[i] == s[i]);
        }
        lemma_run_of_word(s.drop_last());
        assert(is_edge(s[s.len() - 1]));
        assert(s.drop_last().push(s.last()) =~= s);
    } else {
        assert(s =~= Seq::empty());
    }
}

/// Whether no two hyphens stand side by side.
pub open spec fn hyphens_apart(s: Seq<char>) -> bool {
    forall|i: int| 0 < i < s.len() && s[i - 1] == '-' ==> #[trigger] s[i] != '-'
}

proof fn lemma_slug_run_apart(s: Seq<char>)
    ensures
        hyphens_apart(slug_run(s).0),
        !slug_run(s).1 && 0 < slug_run(s).0.len() < 64 ==> slug_run(s).0.last() != '-',
    decreases s.len(),
{
    if s.len() > 0 {
        lemma_slug_run_apart(s.drop_last());
    }
}

proof fn lemma_run_of_slug(s: Seq<char>)
    requires
        s.len() <= 64,
        s.len() > 0 ==> is_edge(s[0]),
        forall|i: int| 0 <= i < s.len() ==> is_edge(#[trigger] s[i]) || s[i] == '-',
        hyphens_apart(s),
    ensures
        slug_run(s) == (s, s.len() > 0 && s.last() == '-'),
    decreases s.len(),
{
    if s.len() > 0 {
        let before = s.drop_last();
        assert forall|i: int| 0 <= i < before.len() implies is_edge(#[trigger] before[i])
            || before[i] == '-' by {
            assert(before[i] == s[i]);
        }
        assert forall|i: int| 0 < i < before.len() && before[i - 1] == '-' implies #[trigger] before[i]
            != '-' by {
            assert(before[i] == s[i] && before[i - 1] == s[i - 1]);
        }
        lemma_run_of_slug(before);
        let last = s.len() - 1;
        assert(is_edge(s[last]) || s[last] == '-');
        assert(last > 0 && s[last - 1] == '-' ==> s[last] != '-');
        assert(before.push(s.last()) =~= s);
    } else {
        assert(s =~= Seq::empty());
    }
}

/// An identifier that was made of a name makes itself.
pub proof fn law_slug_makes_itself(name: Seq<char>)
    ensures
        slug(slug(name)) == slug(name),
{
    let run = slug_run(name).0;
    let s = slug(name);
    lemma_slug_run(name);
    lemma_slug_run_apart(name);
    assert(without_first_dashes(run) == run);
    lemma_without_last_dashes(run);
    law_slug_is_a_project_id(name);
    assert forall|i: int| 0 <= i < s.len() implies is_edge(#[trigger] s[i]) || s[i] == '-' by {
        assert(s[i] == run[i]);
    }
    assert forall|i: int| 0 < i < s.len() && s[i - 1] == '-' implies #[trigger] s[i] != '-' by {
        assert(s[i] == run[i] && s[i - 1] == run[i - 1]);
    }
    lemma_run_of_slug(s);
}

/// Whether a character is an ASCII letter or digit.
pub open spec fn is_alphanumeric(c: char) -> bool {
    'a' <= c <= 'z' || 'A' <= c <= 'Z' || text::is_digit(c)
}

proof fn lemma_run_is_empty(s: Seq<char>)
    ensures
        slug_run(s).0.len() == 0 <==> forall|i: int|
            0 <= i < s.len() ==> !is_alphanumeric(#[trigger] s[i]),
    decreases s.len(),
{
    if s.len() > 0 {
        let before = s.drop_last();
        lemma_run_is_empty(before);
        assert(is_edge(text::lower(s.last())) == is_alphanumeric(s.last()));
        if slug_run(s).0.len() == 0 {
            assert forall|i: int| 0 <= i < s.len() implies !is_alphanumeric(#[trigger] s[i]) by {
                if i < before.len() {
                    assert(before[i] == s[i]);
                }
            }
        } else if slug_run(before).0.len() > 0 {
            let i = choose|i: int| 0 <= i < before.len() && is_alphanumeric(#[trigger] before[i]);
            assert(is_alphanumeric(s[i]));
        } else {
            assert(is_alphanumeric(s[s.len() - 1]));
        }
    }
}

/// An identifier that was made of a name has no two hyphens side by side, and it is empty exactly
/// where the name has no ASCII letter or digit.
pub proof fn law_slug_form(name: Seq<char>)
    ensures
        hyphens_apart(slug(name)),
        slug(name).len() == 0 <==> forall|i: int|
            0 <= i < name.len() ==> !is_alphanumeric(#[trigger] name[i]),
{
    let run = slug_run(name).0;
    let s = slug(name);
    lemma_slug_run(name);
    lemma_slug_run_apart(name);
    lemma_run_is_empty(name);
    assert(without_first_dashes(run) == run);
    lemma_without_last_dashes(run);
    lemma_first_stays(run);
    assert forall|i: int| 0 < i < s.len() && s[i - 1] == '-' implies #[trigger] s[i] != '-' by {
        assert(s[i] == run[i] && s[i - 1] == run[i - 1]);
    }
}

proof fn lemma_first_stays(s: Seq<char>)
    ensures
        s.len() > 0 && s[0] != '-' ==> without_last_dashes(s).len() > 0,
    decreases s.len(),
{
    if s.len() > 0 && s.last() == '-' {
        lemma_first_stays(s.drop_last());
    }
}

/// The letters and digits of a text, as capitals.
pub open spec fn capitals(s: Seq<char>) -> Seq<char>
    decreases s.len(),
{
    if s.len() == 0 {
        Seq::empty()
    } else if is_alphanumeric(s.last()) {
        capitals(s.drop_last()).push(text::upper(s.last()))
    } else {
        capitals(s.drop_last())
    }
}

/// What the identifiers of the tasks of a project start with.
pub open spec fn prefix(project_id: Seq<char>) -> Seq<char> {
    let all = capitals(project_id);
    if all.len() == 0 {
        "TASK"@
    } else if all.len() > 12 {
        all.take(12)
    } else {
        all
    }
}

/// Makes what the identifiers of the tasks of a project start with.
pub fn project_prefix(project_id: &str) -> (r: String)
    ensures
        r@ == prefix(project_id@),
{
    let chars = text::chars_of(project_id);
    let mut out: Vec<char> = Vec::new();
    let mut i: usize = 0;
    proof {
        assert(chars@.take(0) =~= Seq::<char>::empty());
    }
    while i < chars.len()
        invariant
            chars@ == project_id@,
            i <= chars@.len(),
            out@ == capitals(chars@.take(i as int)),
        decreases chars.len() - i,
    {
        proof {
            assert(chars@.take(i + 1).drop_last() =~= chars@.take(i as int));
        }
        let c = chars[i];
        if ('a' <= c && c <= 'z') || ('A' <= c && c <= 'Z') || ('0' <= c && c <= '9') {
            out.push(text::to_upper(c));
        }
        i = i + 1;
    }
    proof {
        assert(chars@.take(i as int) =~= chars@);
        assert(out@.subrange(0, out@.len() as int) =~= out@);
        assert(out@.len() > 12 ==> out@.subrange(0, 12) =~= out@.take(12));
    }
    if out.len() == 0 {
        "TASK".to_owned()
    } else if out.len() > 12 {
        text::text_of(&out, 0, 12)
    } else {
        text::text_of(&out, 0, out.len())
    }
}

proof fn lemma_capitals(s: Seq<char>)
    ensures
        forall|i: int|
            0 <= i < capitals(s).len() ==> 'A' <= #[trigger] capitals(s)[i] <= 'Z'
                || text::is_digit(capitals(s)[i]),
    decreases s.len(),
{
    if s.len() > 0 {
        lemma_capitals(s.drop_last());
        let c = text::upper(s.last());
        assert(is_alphanumeric(s.last()) ==> 'A' <= c <= 'Z' || text::is_digit(c));
        let before = capitals(s.drop_last());
        assert forall|i: int| 0 <= i < capitals(s).len() implies 'A' <= #[trigger] capitals(s)[i]
            <= 'Z' || text::is_digit(capitals(s)[i]) by {
            if i < before.len() {
                assert(capitals(s)[i] == before[i]);
            }
        }
    }
}

/// What the identifiers of tasks start with is one to twelve capitals and digits.
pub proof fn law_prefix_form(project_id: Seq<char>)
    ensures
        1 <= prefix(project_id).len() <= 12,
        forall|i: int|
            0 <= i < prefix(project_id).len() ==> 'A' <= #[trigger] prefix(project_id)[i] <= 'Z'
                || text::is_digit(prefix(project_id)[i]),
{
    lemma_capitals(project_id);
    reveal_strlit("TASK");
}

/// The identifier of a task: the prefix of its project and its number.
pub open spec fn identifier(project_id: Seq<char>, number: int) -> Seq<char> {
    prefix(project_id) + "-"@ + text::signed_decimal(number)
}

/// Makes the identifier of a task.
pub fn task_identifier(project_id: &str, number: i64) -> (r: String)
    ensures
        r@ == identifier(project_id@, number as int),
{
    let mut out = project_prefix(project_id);
    out.append("-");
    out.append(&text::integer_text(number));
    out
}

/// Whether a character is a digit of a fresh identifier.
pub open spec fn is_hex(c: char) -> bool {
    text::is_digit(c) || 'a' <= c <= 'f'
}

/// The form of a fresh identifier: 32 hexadecimal digits in groups of 8, 4, 4, 4 and 12, with
/// hyphens between them; the third group starts with a 4, the fourth with one of 8, 9, a and b.
pub open spec fn fresh_id_form(s: Seq<char>) -> bool {
    &&& s.len() == 36
    &&& s[8] == '-' && s[13] == '-' && s[18] == '-' && s[23] == '-'
    &&& forall|i: int|
        0 <= i < 36 && i != 8 && i != 13 && i != 18 && i != 23 ==> is_hex(#[trigger] s[i])
    &&& s[14] == '4'
    &&& s[19] == '8' || s[19] == '9' || s[19] == 'a' || s[19] == 'b'
}

/// `uuid::Uuid::new_v4`, written by its `to_string`: a random identifier of version 4, in small
/// letters and with hyphens. Which one comes is left to chance.
#[verifier::external_body]
fn random_uuid() -> (r: String)
    ensures
        fresh_id_form(r@),
{
    uuid::Uuid::new_v4().to_string()
}

/// A fresh identifier.
pub fn new_id() -> (r: String)
    ensures
        fresh_id_form(r@),
{
    random_uuid()
}

/// The reply to an action that needs nothing of the surroundings.
pub fn own_reply(action: &Action) -> (r: Option<Reply>)
    ensures
        match r {
            Some(reply) => action@ is NewId && reply is Text && fresh_id_form(reply->Text_0@),
            None => !(action@ is NewId),
        },
{
    match action {
        Action::NewId => Some(Reply::Text(new_id())),
        _ => None,
    }
}

} // verus!
