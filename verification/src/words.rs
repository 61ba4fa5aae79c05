//! What holds of text that is taken apart, put together and read as numbers.

use crate::pieces::{
    cut, first_word, found, found_is_within, joined_by, lines, padded, pieces, signed_text,
    without_return, word_length,
};
use crate::text::{
    all_digits, decimal_text, digits_value, is_digit, is_space, parsed, parsed_signed, replaced,
    trimmed, trimmed_end, trimmed_start,
};
use vstd::arithmetic::power::pow;
use vstd::prelude::*;

verus! {

/// Of the first 128 characters, exactly six are space: tab, line feed, vertical tab, form feed,
/// carriage return and the blank. No letter, digit or sign is.
pub proof fn six_of_the_first_characters_are_space(c: char)
    requires
        (c as u32) < 128,
    ensures
        is_space(c) <==> (c == '\t' || c == '\n' || c == '\u{b}' || c == '\u{c}' || c == '\r' || c
            == ' '),
{
}

/// Trimming the start takes off space, all of it, and nothing else. Gives how much it takes off.
pub proof fn trimming_the_start_takes_off_space_only(s: Seq<char>) -> (from: int)
    ensures
        0 <= from <= s.len(),
        trimmed_start(s) == s.skip(from),
        forall|k: int| 0 <= k < from ==> is_space(#[trigger] s[k]),
        from < s.len() ==> !is_space(s[from]),
    decreases s.len(),
{
    if s.len() > 0 && is_space(s[0]) {
        let rest = trimming_the_start_takes_off_space_only(s.skip(1));
        assert(s.skip(1).skip(rest) =~= s.skip(rest + 1));
        assert forall|k: int| 0 <= k < rest + 1 implies is_space(#[trigger] s[k]) by {
            if k > 0 {
                assert(s.skip(1)[k - 1] == s[k]);
            }
        }
        if rest + 1 < s.len() {
            assert(s.skip(1)[rest] == s[rest + 1]);
        }
        rest + 1
    } else {
        assert(s.skip(0) =~= s);
        0
    }
}

proof fn lemma_trimming_the_end(s: Seq<char>) -> (to: int)
    ensures
        0 <= to <= s.len(),
        trimmed_end(s) == s.take(to),
        forall|k: int| to <= k < s.len() ==> is_space(#[trigger] s[k]),
        to > 0 ==> !is_space(s[to - 1]),
    decreases s.len(),
{
    if s.len() > 0 && is_space(s.last()) {
        let to = lemma_trimming_the_end(s.drop_last());
        assert(s.drop_last().take(to) =~= s.take(to));
        assert forall|k: int| to <= k < s.len() implies is_space(#[trigger] s[k]) by {
            if k < s.len() - 1 {
                assert(s.drop_last()[k] == s[k]);
            }
        }
        to
    } else {
        assert(s.take(s.len() as int) =~= s);
        s.len() as int
    }
}

/// Trimming takes off the space at both ends, all of it, and nothing else. Gives where what is left
/// begins and ends.
pub proof fn trimming_takes_off_space_only(s: Seq<char>) -> (ends: (int, int))
    ensures
        0 <= ends.0 <= ends.1 <= s.len(),
        trimmed(s) == s.subrange(ends.0, ends.1),
        forall|k: int| 0 <= k < ends.0 ==> is_space(#[trigger] s[k]),
        forall|k: int| ends.1 <= k < s.len() ==> is_space(#[trigger] s[k]),
        ends.0 < ends.1 ==> !is_space(s[ends.0]) && !is_space(s[ends.1 - 1]),
{
    let from = trimming_the_start_takes_off_space_only(s);
    let rest = s.skip(from);
    let to = lemma_trimming_the_end(rest);
    assert(rest.take(to) =~= s.subrange(from, from + to));
    assert forall|k: int| from + to <= k < s.len() implies is_space(#[trigger] s[k]) by {
        assert(rest[k - from] == s[k]);
    }
    if to > 0 {
        assert(rest[to - 1] == s[from + to - 1]);
    }
    (from, from + to)
}

/// Text that neither begins nor ends with space is left alone.
pub proof fn trimming_leaves_text_without_space_around_it(s: Seq<char>)
    requires
        s.len() == 0 || (!is_space(s[0]) && !is_space(s.last())),
    ensures
        trimmed(s) == s,
        trimmed_start(s) == s,
{
}

/// What is found is there, and nothing before it is; what is not found is nowhere.
pub proof fn the_first_occurrence_is_found(s: Seq<char>, word: Seq<char>)
    ensures
        match found(s, word) {
            Some(at) => {
                &&& 0 <= at
                &&& at + word.len() <= s.len()
                &&& s.subrange(at, at + word.len()) == word
                &&& forall|j: int|
                    0 <= j < at ==> #[trigger] s.subrange(j, j + word.len()) != word
            },
            None => forall|j: int|
                0 <= j && j + word.len() <= s.len() ==> #[trigger] s.subrange(j, j + word.len())
                    != word,
        },
    decreases s.len(),
{
    found_is_within(s, word);
    if word.is_prefix_of(s) {
        assert(s.subrange(0, word.len() as int) =~= word);
    } else if s.len() > 0 {
        let rest = s.skip(1);
        the_first_occurrence_is_found(rest, word);
        assert(word.len() <= s.len() ==> s.subrange(0, word.len() as int) != word) by {
            if word.len() <= s.len() && s.subrange(0, word.len() as int) == word {
                assert(word.is_prefix_of(s));
            }
        }
        assert forall|j: int| 1 <= j && j + word.len() <= s.len() implies #[trigger] s.subrange(
            j,
            j + word.len(),
        ) == rest.subrange(j - 1, j - 1 + word.len()) by {
            assert(s.subrange(j, j + word.len()) =~= rest.subrange(j - 1, j - 1 + word.len()));
        }
        match found(rest, word) {
            Some(at) => {
                assert(s.subrange(at + 1, at + 1 + word.len()) == word);
                assert forall|j: int| 0 <= j < at + 1 implies #[trigger] s.subrange(
                    j,
                    j + word.len(),
                ) != word by {
                    if j > 0 {
                        assert(rest.subrange(j - 1, j - 1 + word.len()) != word);
                    }
                }
            },
            None => {
                assert forall|j: int|
                    0 <= j && j + word.len() <= s.len() implies #[trigger] s.subrange(
                    j,
                    j + word.len(),
                ) != word by {
                    if j > 0 {
                        assert(rest.subrange(j - 1, j - 1 + word.len()) != word);
                    }
                }
            },
        }
    } else {
        assert forall|j: int| 0 <= j && j + word.len() <= s.len() implies #[trigger] s.subrange(
            j,
            j + word.len(),
        ) != word by {
            if s.subrange(j, j + word.len()) == word {
                assert(word.is_prefix_of(s));
            }
        }
    }
}

/// A sign is found where it first stands.
pub proof fn a_sign_is_found_where_it_first_stands(s: Seq<char>, sign: char, at: int)
    requires
        0 <= at < s.len(),
        s[at] == sign,
        forall|k: int| 0 <= k < at ==> #[trigger] s[k] != sign,
    ensures
        found(s, seq![sign]) == Some(at),
{
    let word = seq![sign];
    the_first_occurrence_is_found(s, word);
    assert(s.subrange(at, at + 1) =~= word);
    if let Some(other) = found(s, word) {
        assert(s.subrange(other, other + 1)[0] == s[other]);
        if at < other {
            assert(s.subrange(at, at + word.len()) == word);
        }
    } else {
        assert(s.subrange(at, at + word.len()) == word);
    }
}

/// A sign that is not there is not found.
pub proof fn a_sign_that_is_not_there_is_not_found(s: Seq<char>, sign: char)
    requires
        !s.contains(sign),
    ensures
        found(s, seq![sign]) is None,
{
    the_first_occurrence_is_found(s, seq![sign]);
    if let Some(at) = found(s, seq![sign]) {
        assert(s.subrange(at, at + 1)[0] == s[at]);
    }
}

/// Text that is cut at a word is what stands before it, the word, and what stands after it; the word
/// does not occur any earlier. Text is cut wherever the word occurs at all.
pub proof fn a_cut_loses_nothing(s: Seq<char>, word: Seq<char>)
    ensures
        match cut(s, word) {
            Some((before, after)) => before + word + after == s && forall|j: int|
                0 <= j < before.len() ==> #[trigger] s.subrange(j, j + word.len()) != word,
            None => forall|j: int|
                0 <= j && j + word.len() <= s.len() ==> #[trigger] s.subrange(j, j + word.len())
                    != word,
        },
{
    the_first_occurrence_is_found(s, word);
    if let Some(at) = found(s, word) {
        assert forall|i: int| 0 <= i < word.len() implies #[trigger] word[i] == s[at + i] by {
            assert(s.subrange(at, at + word.len())[i] == s[at + i]);
        }
        assert(s.take(at) + word + s.skip(at + word.len()) =~= s);
    }
}

/// A key and a value are what stands before and after the first sign between them.
pub proof fn a_cut_gives_the_key_and_the_value(key: Seq<char>, sign: char, value: Seq<char>)
    requires
        !key.contains(sign),
    ensures
        cut(key + seq![sign] + value, seq![sign]) == Some((key, value)),
{
    let s = key + seq![sign] + value;
    let at = key.len() as int;
    assert(s[at] == sign);
    assert forall|k: int| 0 <= k < at implies #[trigger] s[k] != sign by {
        assert(key[k] == s[k]);
    }
    a_sign_is_found_where_it_first_stands(s, sign, at);
    assert(s.take(at) =~= key);
    assert(s.skip(at + 1) =~= value);
}

/// The pieces of a text hold no separator, and joined by separators they are the text.
pub proof fn the_pieces_make_up_the_text(s: Seq<char>, sep: char)
    ensures
        pieces(s, sep).len() > 0,
        joined_by(pieces(s, sep), seq![sep]) == s,
        forall|i: int| 0 <= i < pieces(s, sep).len() ==> !(#[trigger] pieces(s, sep)[i]).contains(sep),
    decreases s.len(),
{
    the_first_occurrence_is_found(s, seq![sep]);
    match found(s, seq![sep]) {
        Some(at) => {
            let rest = pieces(s.skip(at + 1), sep);
            the_pieces_make_up_the_text(s.skip(at + 1), sep);
            texts_joined_in_two_parts(seq![s.take(at)], rest, seq![sep]);
            assert(s.subrange(at, at + 1)[0] == s[at]);
            assert(s.take(at) + seq![sep] + s.skip(at + 1) =~= s);
            assert(!s.take(at).contains(sep)) by {
                assert forall|k: int| 0 <= k < at implies s[k] != sep by {
                    if s[k] == sep {
                        assert(s.subrange(k, k + 1) =~= seq![sep]);
                    }
                }
            }
            assert forall|i: int| 0 <= i < pieces(s, sep).len() implies !(#[trigger] pieces(
                s,
                sep,
            )[i]).contains(sep) by {
                if i > 0 {
                    assert(pieces(s, sep)[i] == rest[i - 1]);
                }
            }
        },
        None => {
            assert forall|k: int| 0 <= k < s.len() implies s[k] != sep by {
                if s[k] == sep {
                    assert(s.subrange(k, k + 1) =~= seq![sep]);
                }
            }
            assert(!s.contains(sep));
        },
    }
}

/// Joining a row is joining its two parts, with the separator between them; a single text stays as
/// it is.
pub proof fn texts_joined_in_two_parts(a: Seq<Seq<char>>, b: Seq<Seq<char>>, sep: Seq<char>)
    ensures
        a.len() > 0 && b.len() > 0 ==> joined_by(a + b, sep) == joined_by(a, sep) + sep + joined_by(
            b,
            sep,
        ),
        a.len() == 1 ==> joined_by(a, sep) == a[0],
        a.len() == 0 ==> joined_by(a, sep).len() == 0,
    decreases b.len(),
{
    if a.len() > 0 && b.len() > 0 {
        assert((a + b).drop_last() =~= a + b.drop_last());
        if b.len() > 1 {
            texts_joined_in_two_parts(a, b.drop_last(), sep);
            assert(joined_by(a + b, sep) =~= joined_by(a, sep) + sep + joined_by(b, sep));
        } else {
            assert(a + b.drop_last() =~= a);
        }
    }
}

/// What stands before a line feed, without a carriage return at its end, is a line, and what follows
/// the line feed has lines of its own. Text without a line feed is one line, or none if it is empty.
pub proof fn a_line_feed_ends_a_line(line: Seq<char>, rest: Seq<char>)
    requires
        !line.contains('\n'),
    ensures
        lines(line + seq!['\n'] + rest) == seq![
            if line.len() > 0 && line.last() == '\r' {
                line.drop_last()
            } else {
                line
            },
        ] + lines(rest),
        lines(line) == if line.len() == 0 {
            Seq::empty()
        } else {
            seq![line]
        },
{
    let s = line + seq!['\n'] + rest;
    let at = line.len() as int;
    assert(s[at] == '\n');
    assert forall|k: int| 0 <= k < at implies #[trigger] s[k] != '\n' by {
        assert(line[k] == s[k]);
    }
    a_sign_is_found_where_it_first_stands(s, '\n', at);
    assert(s.take(at) =~= line);
    assert(s.skip(at + 1) =~= rest);
    let after = pieces(rest, '\n');
    the_pieces_make_up_the_text(rest, '\n');
    let all = seq![line] + after;
    assert(pieces(s, '\n') == all);
    assert(all.drop_last() =~= seq![line] + after.drop_last());
    let f = |line: Seq<char>| without_return(line);
    assert(all.drop_last().map_values(f) =~= seq![without_return(line)]
        + after.drop_last().map_values(f));
    assert(lines(s) =~= seq![without_return(line)] + lines(rest));
    a_sign_that_is_not_there_is_not_found(line, '\n');
    assert(pieces(line, '\n') =~= seq![line]);
    assert(pieces(line, '\n').drop_last().map_values(f) =~= Seq::empty());
    assert(lines(line) =~= if line.len() == 0 {
        Seq::empty()
    } else {
        seq![line]
    });
}

proof fn lemma_word_length(s: Seq<char>)
    ensures
        0 <= word_length(s) <= s.len(),
        forall|k: int| 0 <= k < word_length(s) ==> !is_space(#[trigger] s[k]),
        word_length(s) < s.len() ==> is_space(s[word_length(s)]),
    decreases s.len(),
{
    if s.len() > 0 && !is_space(s[0]) {
        let rest = s.skip(1);
        lemma_word_length(rest);
        assert forall|k: int| 0 <= k < word_length(s) implies !is_space(#[trigger] s[k]) by {
            if k > 0 {
                assert(rest[k - 1] == s[k]);
            }
        }
        if word_length(s) < s.len() {
            assert(rest[word_length(rest)] == s[word_length(s)]);
        }
    }
}

/// The first word of a text is what stands between the space it begins with, if any, and the next
/// space, or its end.
pub proof fn the_first_word_ends_at_a_space(before: Seq<char>, word: Seq<char>, after: Seq<char>)
    requires
        forall|k: int| 0 <= k < before.len() ==> is_space(#[trigger] before[k]),
        forall|k: int| 0 <= k < word.len() ==> !is_space(#[trigger] word[k]),
        word.len() > 0,
        after.len() > 0 ==> is_space(after[0]),
    ensures
        first_word(before + word + after) == Some(word),
        first_word(before) is None,
{
    let s = before + word + after;
    let from = trimming_the_start_takes_off_space_only(s);
    assert(s[before.len() as int] == word[0]);
    assert(from <= before.len());
    if from < before.len() {
        assert(s[from] == before[from]);
    }
    let rest = s.skip(from);
    assert(rest =~= word + after);
    lemma_word_length(rest);
    let n = word_length(rest);
    if n < word.len() {
        assert(rest[n] == word[n]);
    }
    if n > word.len() {
        assert(rest[word.len() as int] == after[0]);
    }
    assert(rest.take(n) =~= word);
    let whole = trimming_the_start_takes_off_space_only(before);
    if whole < before.len() {
        assert(is_space(before[whole]));
    }
}

/// Text is padded with blanks at its end up to the width, and never cut.
pub proof fn padding_adds_blanks(s: Seq<char>, width: nat)
    ensures
        s.is_prefix_of(padded(s, width)),
        padded(s, width).len() >= width,
        padded(s, width).len() > width ==> padded(s, width) == s,
        forall|k: int| s.len() <= k < padded(s, width).len() ==> #[trigger] padded(s, width)[k] == ' ',
{
}

/// The first occurrence of a word is replaced, and then what follows it is gone through; text
/// without the word stays as it is.
pub proof fn each_occurrence_is_replaced(s: Seq<char>, word: Seq<char>, by: Seq<char>)
    requires
        word.len() > 0,
    ensures
        match found(s, word) {
            Some(at) => replaced(s, word, by) == s.take(at) + by + replaced(
                s.skip(at + word.len()),
                word,
                by,
            ),
            None => replaced(s, word, by) == s,
        },
    decreases s.len(),
{
    found_is_within(s, word);
    if word.is_prefix_of(s) {
        assert(s.take(0) + by =~= by);
    } else if s.len() > 0 {
        let rest = s.skip(1);
        found_is_within(rest, word);
        each_occurrence_is_replaced(rest, word, by);
        match found(rest, word) {
            Some(at) => {
                assert(rest.skip(at + word.len()) =~= s.skip(at + 1 + word.len()));
                assert(seq![s[0]] + rest.take(at) =~= s.take(at + 1));
                assert(replaced(s, word, by) =~= s.take(at + 1) + by + replaced(
                    s.skip(at + 1 + word.len()),
                    word,
                    by,
                ));
            },
            None => {
                assert(seq![s[0]] + rest =~= s);
            },
        }
    }
}

/// The digits of a number count by tens: the digits in front count ten times more for every digit
/// behind them.
pub proof fn digits_count_by_tens(s: Seq<char>, t: Seq<char>)
    ensures
        digits_value(s + t) == digits_value(s) * pow(10, t.len()) + digits_value(t),
        digits_value(seq!['0'] + t) == digits_value(t),
        forall|c: char|
            '0' <= c <= '9' ==> #[trigger] digits_value(seq![c]) == c as int - 48,
{
    lemma_digits_count(s, t);
    lemma_digits_count(seq!['0'], t);
    assert forall|c: char| '0' <= c <= '9' implies #[trigger] digits_value(seq![c]) == c as int
        - 48 by {
        assert(seq![c].drop_last() =~= Seq::<char>::empty());
        assert(digits_value(seq![c].drop_last()) == 0);
    }
    assert(digits_value(seq!['0']) == 0);
    assert(0 * pow(10, t.len()) == 0);
}

proof fn lemma_digits_count(s: Seq<char>, t: Seq<char>)
    ensures
        digits_value(s + t) == digits_value(s) * pow(10, t.len()) + digits_value(t),
    decreases t.len(),
{
    reveal(pow);
    if t.len() == 0 {
        assert(s + t =~= s);
        assert(digits_value(s) * 1 == digits_value(s));
    } else {
        let shorter = t.drop_last();
        lemma_digits_count(s, shorter);
        assert((s + t).drop_last() =~= s + shorter);
        let a = digits_value(s) as int;
        let p = pow(10, shorter.len());
        assert(pow(10, t.len()) == 10 * p);
        assert(a * p * 10 == a * (10 * p)) by (nonlinear_arith);
    }
}

/// A number is written without leading zeros, and reads back: as itself if it is no greater than
/// what is asked for, and not at all otherwise. A plus sign in front of it makes no difference.
pub proof fn a_number_that_was_written_reads_back(n: nat, max: nat)
    ensures
        decimal_text(n).len() > 0,
        all_digits(decimal_text(n)),
        n >= 10 ==> decimal_text(n)[0] != '0',
        n < 10 <==> decimal_text(n).len() == 1,
        parsed(decimal_text(n), max) == if n <= max {
            Some(n)
        } else {
            None
        },
        parsed(seq!['+'] + decimal_text(n), max) == parsed(decimal_text(n), max),
{
    lemma_written(n);
    assert((seq!['+'] + decimal_text(n)).skip(1) =~= decimal_text(n));
}

proof fn lemma_written(n: nat)
    ensures
        decimal_text(n).len() > 0,
        n >= 10 ==> decimal_text(n).len() > 1,
        all_digits(decimal_text(n)),
        digits_value(decimal_text(n)) == n,
        n > 0 ==> decimal_text(n)[0] != '0',
        decimal_text(n)[0] != '+',
    decreases n,
{
    if n < 10 {
        let s = decimal_text(n);
        assert(s.drop_last() =~= Seq::<char>::empty());
        assert(digits_value(s.drop_last()) == 0);
    } else {
        lemma_written(n / 10);
        let s = decimal_text(n);
        assert(s.drop_last() =~= decimal_text(n / 10));
        assert(s[0] == decimal_text(n / 10)[0]);
    }
}

/// Text that is no number is not read as one: not the empty text, nor one with anything in it but
/// digits and a plus sign in front of them.
pub proof fn what_is_no_number_is_not_read(s: Seq<char>, max: nat, at: int)
    requires
        s.len() == 0 || (0 <= at < s.len() && !('0' <= s[at] <= '9') && (s[at] != '+' || at > 0
            || s.len() == 1)),
    ensures
        parsed(s, max) is None,
{
    if s.len() > 0 {
        let digits = if s[0] == '+' {
            s.skip(1)
        } else {
            s
        };
        if digits.len() > 0 && all_digits(digits) {
            if s[0] == '+' {
                assert(is_digit(digits[at - 1]));
            } else {
                assert(is_digit(digits[at]));
            }
        }
    }
}

/// What is read as a number has the value of its digits.
pub proof fn what_is_read_is_the_value_of_the_digits(s: Seq<char>, max: nat)
    requires
        s.len() > 0,
        forall|i: int| 0 <= i < s.len() ==> '0' <= #[trigger] s[i] <= '9',
    ensures
        parsed(s, max) == if digits_value(s) <= max {
            Some(digits_value(s))
        } else {
            None
        },
{
    assert(s[0] != '+');
    assert(all_digits(s));
}

/// A whole number that was written, negative ones with a minus sign in front, reads back.
pub proof fn a_whole_number_that_was_written_reads_back(n: i64)
    ensures
        parsed_signed(signed_text(n as int)) == Some(n as int),
        n < 0 ==> signed_text(n as int) == seq!['-'] + decimal_text((-n) as nat),
        n >= 0 ==> signed_text(n as int) == decimal_text(n as nat),
{
    reveal_strlit("-");
    if n < 0 {
        lemma_written((-n) as nat);
        assert("-"@ =~= seq!['-']);
        assert(signed_text(n as int).skip(1) =~= decimal_text((-n) as nat));
    } else {
        lemma_written(n as nat);
        assert(is_digit(decimal_text(n as nat)[0]));
    }
}

} // verus!
