//! What the operations on texts do.
use crate::text;
use vstd::prelude::*;

verus! {

/// The parts of a text hold the separator nowhere, and make the text with one separator between each
/// two of them.
pub proof fn law_parts_make_the_text(s: Seq<char>, c: char)
    ensures
        text::split_spec(s, c).len() > 0,
        forall|i: int|
            0 <= i < text::split_spec(s, c).len() ==> !(#[trigger] text::split_spec(
                s,
                c,
            )[i]).contains(c),
        text::joined(text::split_spec(s, c), seq![c]) == s,
    decreases s.len(),
{
    let parts = text::split_spec(s, c);
    if s.len() == 0 {
        assert(parts =~= seq![Seq::<char>::empty()]);
        assert(text::joined(parts, seq![c]) =~= s);
    } else {
        let before = text::split_spec(s.drop_last(), c);
        law_parts_make_the_text(s.drop_last(), c);
        assert(s.drop_last().push(s.last()) =~= s);
        if s.last() == c {
            assert(parts.drop_last() =~= before);
            assert(text::joined(parts, seq![c]) =~= s);
        } else {
            let last = before.last().push(s.last());
            assert(parts.drop_last() =~= before.drop_last());
            assert(!last.contains(c)) by {
                if last.contains(c) {
                    let i = choose|i: int| 0 <= i < last.len() && last[i] == c;
                    assert(before.last()[i] == c);
                    assert(before[before.len() - 1].contains(c));
                }
            }
            assert forall|i: int| 0 <= i < parts.len() implies !(#[trigger] parts[i]).contains(
                c,
            ) by {
                if i < parts.len() - 1 {
                    assert(parts[i] == before[i]);
                }
            }
            if before.len() == 1 {
                assert(text::joined(parts, seq![c]) =~= s);
            } else {
                assert(text::joined(parts, seq![c]) =~= text::joined(before, seq![c]).push(
                    s.last(),
                ));
            }
        }
    }
}

/// A text that is divided at a character is divided at the first one, which belongs to neither side.
pub proof fn law_text_is_divided_at_the_first(left: Seq<char>, c: char, right: Seq<char>)
    requires
        !left.contains(c),
    ensures
        text::split_once_spec(left.push(c) + right, c) == Some((left, right)),
        text::split_once_spec(left, c) is None,
{
    let s = left.push(c) + right;
    text::lemma_position(s, c);
    let p = text::position(s, c);
    assert(s[left.len() as int] == c);
    assert(s.contains(c));
    if p < left.len() {
        assert(left[p] == s[p]);
        assert(left.contains(c));
    }
    assert(p == left.len());
    assert(s.take(p) =~= left);
    assert(s.skip(p + 1) =~= right);
}

/// A line ends before its line feed, and before the carriage return in front of that; the last line
/// may lack both, and nothing behind the last line feed is no line.
pub proof fn law_lines_end_at_line_feeds(line: Seq<char>, rest: Seq<char>)
    requires
        !line.contains('\n'),
        line.len() > 0 ==> line.last() != '\r',
    ensures
        text::lines_spec(line + "\n"@ + rest) == seq![line] + text::lines_spec(rest),
        text::lines_spec(line + "\r\n"@ + rest) == seq![line] + text::lines_spec(rest),
        line.len() > 0 ==> text::lines_spec(line) == seq![line],
        text::lines_spec(Seq::empty()).len() == 0,
{
    reveal_strlit("\n");
    reveal_strlit("\r\n");
    text::lemma_split_plain(line, '\n');
    if line.len() > 0 {
        assert(text::lines_spec(line) =~= seq![line]);
    }
    assert(text::lines_spec(Seq::empty()) =~= Seq::empty());
    lemma_line(line, rest);
    assert(!line.push('\r').contains('\n')) by {
        if line.push('\r').contains('\n') {
            let i = choose|i: int| 0 <= i < line.len() + 1 && line.push('\r')[i] == '\n';
            assert(line[i] == '\n');
            assert(line.contains('\n'));
        }
    }
    lemma_line(line.push('\r'), rest);
    assert(line + "\n"@ + rest =~= line.push('\n') + rest);
    assert(line + "\r\n"@ + rest =~= line.push('\r').push('\n') + rest);
    assert(text::without_cr(line.push('\r')) =~= line);
}

proof fn lemma_line(line: Seq<char>, rest: Seq<char>)
    requires
        !line.contains('\n'),
    ensures
        text::lines_spec(line.push('\n') + rest) == seq![text::without_cr(line)]
            + text::lines_spec(rest),
{
    let x = line.push('\n');
    text::lemma_split_plain(line, '\n');
    text::lemma_split_joins(x, rest, '\n');
    assert(x.drop_last() =~= line);
    assert(text::split_spec(x, '\n') =~= seq![line, Seq::empty()]);
    assert(text::split_spec(x, '\n').drop_last() =~= seq![line]);
    let parts = text::split_spec(rest, '\n');
    let all = text::split_spec(x + rest, '\n');
    assert(all =~= seq![line] + parts);
    assert(all.last() == parts.last());
    assert(all.drop_last() =~= seq![line] + parts.drop_last());
    let cut = |l: Seq<char>| text::without_cr(l);
    assert(all.drop_last().map_values(cut) =~= seq![text::without_cr(line)]
        + parts.drop_last().map_values(cut));
    assert(text::lines_spec(x + rest) =~= seq![text::without_cr(line)] + text::lines_spec(rest));
}

/// The words of a text are what stands between its white space.
pub proof fn law_words_stand_between_white_space(
    blank: Seq<char>,
    word: Seq<char>,
    rest: Seq<char>,
)
    requires
        forall|i: int| 0 <= i < blank.len() ==> text::is_white_space(#[trigger] blank[i]),
        forall|i: int| 0 <= i < word.len() ==> !text::is_white_space(#[trigger] word[i]),
        word.len() > 0,
        rest.len() > 0 ==> text::is_white_space(rest[0]),
    ensures
        text::first_word(blank + word + rest) == word,
        text::behind_first_word(blank + word + rest) == rest,
{
    let s = word + rest;
    lemma_blank_start(blank, s);
    assert(blank + word + rest =~= blank + s);
    lemma_word(word, rest);
    assert(s.take(word.len() as int) =~= word);
    assert(s.skip(word.len() as int) =~= rest);
}

proof fn lemma_blank_start(blank: Seq<char>, s: Seq<char>)
    requires
        forall|i: int| 0 <= i < blank.len() ==> text::is_white_space(#[trigger] blank[i]),
        s.len() > 0 ==> !text::is_white_space(s[0]),
    ensures
        text::trimmed_start(blank + s) == s,
    decreases blank.len(),
{
    if blank.len() == 0 {
        assert(blank + s =~= s);
    } else {
        assert((blank + s).drop_first() =~= blank.drop_first() + s);
        assert((blank + s)[0] == blank[0]);
        lemma_blank_start(blank.drop_first(), s);
    }
}

proof fn lemma_word(word: Seq<char>, rest: Seq<char>)
    requires
        forall|i: int| 0 <= i < word.len() ==> !text::is_white_space(#[trigger] word[i]),
        rest.len() > 0 ==> text::is_white_space(rest[0]),
    ensures
        text::word_len(word + rest) == word.len(),
    decreases word.len(),
{
    if word.len() == 0 {
        assert(word + rest =~= rest);
    } else {
        assert((word + rest).drop_first() =~= word.drop_first() + rest);
        assert((word + rest)[0] == word[0]);
        lemma_word(word.drop_first(), rest);
    }
}

/// Texts are in the order of their first characters that differ, and a text comes before those that
/// it starts.
pub proof fn law_order_of_texts(
    common: Seq<char>,
    x: char,
    y: char,
    u: Seq<char>,
    v: Seq<char>,
)
    ensures
        x < y ==> text::precedes(common.push(x) + u, common.push(y) + v) && !text::precedes(
            common.push(y) + v,
            common.push(x) + u,
        ),
        text::precedes(common, common.push(x) + u),
        !text::precedes(common.push(x) + u, common),
        !text::precedes(common, common),
    decreases common.len(),
{
    let a = common.push(x) + u;
    let b = common.push(y) + v;
    if common.len() > 0 {
        let c = common.drop_first();
        law_order_of_texts(c, x, y, u, v);
        assert(a.drop_first() =~= c.push(x) + u);
        assert(b.drop_first() =~= c.push(y) + v);
        assert(a[0] == common[0] && b[0] == common[0]);
    } else {
        assert(a[0] == x && b[0] == y);
    }
}

/// Capitals and small letters are told apart by their place in the alphabet alone, and no other
/// character has a counterpart.
pub proof fn law_letters_have_counterparts(c: char)
    ensures
        'A' <= c <= 'Z' ==> 'a' <= text::lower(c) <= 'z' && text::lower(c) as u32 - 'a' as u32 == c
            as u32 - 'A' as u32 && text::upper(text::lower(c)) == c,
        'a' <= c <= 'z' ==> 'A' <= text::upper(c) <= 'Z' && text::upper(c) as u32 - 'A' as u32 == c
            as u32 - 'a' as u32 && text::lower(text::upper(c)) == c,
        !('A' <= c <= 'Z') ==> text::lower(c) == c,
        !('a' <= c <= 'z') ==> text::upper(c) == c,
{
}

/// A text in small letters has the length of the other, and each of its characters is the small form
/// of that at its place.
pub proof fn law_text_in_small_letters(s: Seq<char>, i: int)
    requires
        0 <= i < s.len(),
    ensures
        text::lowered(s).len() == s.len(),
        text::lowered(s)[i] == text::lower(s[i]),
{
}

/// A number is written in digits whose value it is, without zeros in front, and with a sign where it
/// is negative.
pub proof fn law_numbers_are_written_in_digits(n: nat)
    ensures
        text::decimal(n).len() > 0,
        forall|i: int|
            0 <= i < text::decimal(n).len() ==> text::is_digit(#[trigger] text::decimal(n)[i]),
        n > 0 ==> text::decimal(n)[0] != '0',
        text::decimal(n).last() as u32 - '0' as u32 == n % 10,
        n >= 10 ==> text::decimal(n).drop_last() == text::decimal(n / 10),
        n > 0 ==> text::signed_decimal(-(n as int)) == seq!['-'] + text::decimal(n),
        text::signed_decimal(n as int) == text::decimal(n),
    decreases n,
{
    if n >= 10 {
        law_numbers_are_written_in_digits(n / 10);
        let s = text::decimal(n);
        assert(s.drop_last() =~= text::decimal(n / 10));
        assert forall|i: int| 0 <= i < s.len() implies text::is_digit(#[trigger] s[i]) by {
            if i < s.len() - 1 {
                assert(s[i] == text::decimal(n / 10)[i]);
            }
        }
        assert(s[0] == text::decimal(n / 10)[0]);
    }
}

/// What is read as a number is digits alone, behind a sign that may stand in front of them; anything
/// else is refused.
pub proof fn law_numbers_are_read_from_digits(s: Seq<char>)
    ensures
        s.len() == 0 ==> text::parsed_usize(s) == Err::<nat, Seq<char>>(
            "cannot parse integer from empty string"@,
        ),
        text::parsed_usize(s) is Ok ==> forall|i: int|
            0 <= i < s.len() ==> text::is_digit(#[trigger] s[i]) || i == 0 && s[0] == '+',
        text::parsed_usize(s) is Err && s.len() > 0 ==> text::parsed_usize(s)->Err_0
            == "invalid digit found in string"@ || text::parsed_usize(s)->Err_0
            == "number too large to fit in target type"@,
{
    if s.len() > 1 && s[0] == '+' {
        lemma_digits(s.drop_first());
        if text::parsed_usize(s) is Ok {
            assert forall|i: int| 0 <= i < s.len() implies text::is_digit(#[trigger] s[i]) || i == 0
                && s[0] == '+' by {
                if i > 0 {
                    assert(s.drop_first()[i - 1] == s[i]);
                }
            }
        }
    } else {
        lemma_digits(s);
    }
}

proof fn lemma_digits(s: Seq<char>)
    ensures
        text::digits_value(s) is Ok ==> forall|i: int|
            0 <= i < s.len() ==> text::is_digit(#[trigger] s[i]),
        text::digits_value(s) is Err ==> text::digits_value(s)->Err_0
            == "invalid digit found in string"@ || text::digits_value(s)->Err_0
            == "number too large to fit in target type"@,
    decreases s.len(),
{
    if s.len() > 0 {
        lemma_digits(s.drop_last());
        if text::digits_value(s) is Ok {
            assert forall|i: int| 0 <= i < s.len() implies text::is_digit(#[trigger] s[i]) by {
                if i < s.len() - 1 {
                    assert(s.drop_last()[i] == s[i]);
                }
            }
        }
    }
}

} // verus!
