//! Taking text apart, and putting it together: lines, words, rows.

use crate::text::{
    begins_at, chars_of, decimal, decimal_text, is_space, is_whitespace, string_between,
    trimmed_start,
};
use vstd::prelude::*;

verus! {

/// The texts of a row.
pub open spec fn texts_of(row: Seq<String>) -> Seq<Seq<char>> {
    row.map_values(|text: String| text@)
}

/// Where `word` first occurs in `s`.
pub open spec fn found(s: Seq<char>, word: Seq<char>) -> Option<int>
    decreases s.len(),
{
    if word.is_prefix_of(s) {
        Some(0)
    } else if s.len() == 0 {
        None
    } else {
        match found(s.skip(1), word) {
            Some(at) => Some(at + 1),
            None => None,
        }
    }
}

/// A place that was found has room for the word.
pub proof fn found_is_within(s: Seq<char>, word: Seq<char>)
    ensures
        found(s, word) matches Some(at) ==> 0 <= at && at + word.len() <= s.len(),
    decreases s.len(),
{
    if !word.is_prefix_of(s) && s.len() > 0 {
        found_is_within(s.skip(1), word);
    }
}

/// Where `word` first occurs in `chars` from `from` on.
pub fn find(chars: &Vec<char>, from: usize, word: &Vec<char>) -> (r: Option<usize>)
    requires
        from <= chars.len(),
    ensures
        match r {
            Some(at) => found(chars@.skip(from as int), word@) == Some(at - from) && at
                + word@.len() <= chars@.len() && from <= at,
            None => found(chars@.skip(from as int), word@) is None,
        },
{
    let mut i: usize = from;
    loop
        invariant
            from <= i <= chars.len(),
            found(chars@.skip(from as int), word@) == match found(chars@.skip(i as int), word@) {
                Some(at) => Some(at + (i - from)),
                None => None,
            },
        decreases chars.len() - i,
    {
        if begins_at(chars, i, word) {
            proof {
                found_is_within(chars@.skip(i as int), word@);
            }
            return Some(i);
        }
        if i == chars.len() {
            return None;
        }
        assert(chars@.skip(i as int).skip(1) =~= chars@.skip(i + 1));
        i += 1;
    }
}

/// Whether `word` occurs in `text`.
pub fn contains(text: &str, word: &str) -> (r: bool)
    ensures
        r == found(text@, word@) is Some,
{
    let chars = chars_of(text);
    assert(chars@.skip(0) =~= chars@);
    find(&chars, 0, &chars_of(word)).is_some()
}

/// What stands before the first `word` in `s`, and what after it.
pub open spec fn cut(s: Seq<char>, word: Seq<char>) -> Option<(Seq<char>, Seq<char>)> {
    match found(s, word) {
        Some(at) => Some((s.take(at), s.skip(at + word.len()))),
        None => None,
    }
}

/// What stands before the first `word` in `text`, and what after it.
pub fn split_once(text: &str, word: &str) -> (r: Option<(String, String)>)
    ensures
        match r {
            Some((before, after)) => cut(text@, word@) == Some((before@, after@)),
            None => cut(text@, word@) is None,
        },
{
    let chars = chars_of(text);
    let pattern = chars_of(word);
    assert(chars@.skip(0) =~= chars@);
    match find(&chars, 0, &pattern) {
        Some(at) => {
            let before = string_between(&chars, 0, at);
            let after = string_between(&chars, at + pattern.len(), chars.len());
            assert(before@ =~= text@.take(at as int));
            assert(after@ =~= text@.skip(at + word@.len()));
            Some((before, after))
        },
        None => None,
    }
}

/// What follows `word` at the beginning of `text`.
pub fn strip_prefix(text: &str, word: &str) -> (r: Option<String>)
    ensures
        match r {
            Some(rest) => word@.is_prefix_of(text@) && rest@ == text@.skip(word@.len() as int),
            None => !word@.is_prefix_of(text@),
        },
{
    let chars = chars_of(text);
    let pattern = chars_of(word);
    assert(chars@.skip(0) =~= chars@);
    if begins_at(&chars, 0, &pattern) {
        let rest = string_between(&chars, pattern.len(), chars.len());
        assert(rest@ =~= text@.skip(word@.len() as int));
        Some(rest)
    } else {
        None
    }
}

/// What stands before a `last` at the end of `text`.
pub fn strip_suffix(text: &str, last: char) -> (r: Option<String>)
    ensures
        match r {
            Some(rest) => text@.len() > 0 && text@.last() == last && rest@ == text@.drop_last(),
            None => text@.len() == 0 || text@.last() != last,
        },
{
    let chars = chars_of(text);
    if chars.len() == 0 || chars[chars.len() - 1] != last {
        return None;
    }
    let rest = string_between(&chars, 0, chars.len() - 1);
    assert(rest@ =~= text@.drop_last());
    Some(rest)
}

/// What stands between the `sep`s of `s`.
pub open spec fn pieces(s: Seq<char>, sep: char) -> Seq<Seq<char>>
    decreases s.len(),
    via pieces_ends
{
    match found(s, seq![sep]) {
        Some(at) => seq![s.take(at)] + pieces(s.skip(at + 1), sep),
        None => seq![s],
    }
}

#[via_fn]
proof fn pieces_ends(s: Seq<char>, sep: char) {
    found_is_within(s, seq![sep]);
}

/// There is always a piece.
pub proof fn there_is_a_piece(s: Seq<char>, sep: char)
    ensures
        pieces(s, sep).len() > 0,
{
}

/// What stands between the `sep`s of `text`.
pub fn pieces_of(text: &str, sep: char) -> (r: Vec<String>)
    ensures
        texts_of(r@) == pieces(text@, sep),
{
    let chars = chars_of(text);
    let mut word: Vec<char> = Vec::new();
    word.push(sep);
    assert(word@ =~= seq![sep]);
    let mut row: Vec<String> = Vec::new();
    let mut from: usize = 0;
    assert(chars@.skip(0) =~= chars@);
    assert(texts_of(row@) =~= Seq::<Seq<char>>::empty());
    assert(Seq::<Seq<char>>::empty() + pieces(text@, sep) =~= pieces(text@, sep));
    loop
        invariant
            from <= chars.len(),
            chars@ == text@,
            word@ == seq![sep],
            texts_of(row@) + pieces(chars@.skip(from as int), sep) == pieces(text@, sep),
        decreases chars.len() - from,
    {
        let ghost rest = chars@.skip(from as int);
        let ghost before = texts_of(row@);
        match find(&chars, from, &word) {
            Some(at) => {
                let piece = string_between(&chars, from, at);
                assert(piece@ =~= rest.take(at - from));
                assert(rest.skip(at - from + 1) =~= chars@.skip(at + 1));
                row.push(piece);
                assert(texts_of(row@) =~= before.push(piece@));
                assert(before + (seq![piece@] + pieces(chars@.skip(at + 1), sep)) =~= before.push(
                    piece@,
                ) + pieces(chars@.skip(at + 1), sep));
                from = at + 1;
            },
            None => {
                let piece = string_between(&chars, from, chars.len());
                assert(piece@ =~= rest);
                row.push(piece);
                assert(texts_of(row@) =~= before + seq![rest]);
                return row;
            },
        }
    }
}

/// `s` without a carriage return at its end.
pub open spec fn without_return(s: Seq<char>) -> Seq<char> {
    if s.len() > 0 && s.last() == '\r' {
        s.drop_last()
    } else {
        s
    }
}

/// The lines of `s`: what ends with a line feed, without it and without a carriage return before
/// it, and what is left over at the end, if anything is.
pub open spec fn lines(s: Seq<char>) -> Seq<Seq<char>> {
    let all = pieces(s, '\n');
    let ended = all.drop_last().map_values(|line: Seq<char>| without_return(line));
    if all.last().len() == 0 {
        ended
    } else {
        ended.push(all.last())
    }
}

/// The lines of `text`.
pub fn lines_of(text: &str) -> (r: Vec<String>)
    ensures
        texts_of(r@) == lines(text@),
{
    let all = pieces_of(text, '\n');
    proof {
        there_is_a_piece(text@, '\n');
        assert(texts_of(all@).len() == all@.len());
    }
    let ghost pieces = pieces(text@, '\n');
    let ghost ended = pieces.drop_last().map_values(|line: Seq<char>| without_return(line));
    let mut row: Vec<String> = Vec::new();
    let mut i: usize = 0;
    assert(texts_of(row@) =~= ended.take(0));
    while i + 1 < all.len()
        invariant
            i < all.len(),
            texts_of(all@) == pieces,
            ended == pieces.drop_last().map_values(|line: Seq<char>| without_return(line)),
            texts_of(row@) == ended.take(i as int),
        decreases all.len() - i,
    {
        assert(pieces[i as int] == all@[i as int]@);
        let line = match strip_suffix(all[i].as_str(), '\r') {
            Some(line) => line,
            None => all[i].clone(),
        };
        let ghost before = texts_of(row@);
        row.push(line);
        assert(texts_of(row@) =~= before.push(line@));
        assert(line@ == ended[i as int]);
        assert(ended.take(i + 1) =~= ended.take(i as int).push(ended[i as int]));
        i += 1;
    }
    assert(ended.take(i as int) =~= ended);
    let last = all[all.len() - 1].clone();
    assert(pieces.last() == last@);
    let rest = chars_of(last.as_str());
    if rest.len() > 0 {
        let ghost before = texts_of(row@);
        row.push(last);
        assert(texts_of(row@) =~= before.push(last@));
    }
    row
}

/// How many characters there are in `s` before its first white space.
pub open spec fn word_length(s: Seq<char>) -> int
    decreases s.len(),
{
    if s.len() == 0 || is_space(s[0]) {
        0
    } else {
        1 + word_length(s.skip(1))
    }
}

/// The first word of `s`, if it has any.
pub open spec fn first_word(s: Seq<char>) -> Option<Seq<char>> {
    let rest = trimmed_start(s);
    if rest.len() == 0 {
        None
    } else {
        Some(rest.take(word_length(rest)))
    }
}

/// `text` without the white space at its start.
pub fn trim_start(text: &str) -> (r: String)
    ensures
        r@ == trimmed_start(text@),
{
    let chars = chars_of(text);
    let mut from: usize = 0;
    assert(chars@.skip(0) =~= chars@);
    while from < chars.len() && is_whitespace(chars[from])
        invariant
            from <= chars.len(),
            trimmed_start(chars@.skip(from as int)) == trimmed_start(chars@),
        decreases chars.len() - from,
    {
        assert(chars@.skip(from as int).skip(1) =~= chars@.skip(from + 1));
        assert(chars@.skip(from as int)[0] == chars@[from as int]);
        from += 1;
    }
    assert(trimmed_start(chars@) == chars@.skip(from as int)) by {
        if from < chars.len() {
            assert(chars@.skip(from as int)[0] == chars@[from as int]);
        }
    }
    let rest = string_between(&chars, from, chars.len());
    assert(rest@ =~= chars@.skip(from as int));
    rest
}

/// The first word of `text`, if it has any.
pub fn first_word_of(text: &str) -> (r: Option<String>)
    ensures
        match r {
            Some(word) => first_word(text@) == Some(word@),
            None => first_word(text@) is None,
        },
{
    let rest = trim_start(text);
    let chars = chars_of(rest.as_str());
    if chars.len() == 0 {
        return None;
    }
    let mut to: usize = 0;
    assert(chars@.skip(0) =~= chars@);
    while to < chars.len() && !is_whitespace(chars[to])
        invariant
            to <= chars.len(),
            word_length(chars@) == to + word_length(chars@.skip(to as int)),
        decreases chars.len() - to,
    {
        assert(chars@.skip(to as int).skip(1) =~= chars@.skip(to + 1));
        assert(chars@.skip(to as int)[0] == chars@[to as int]);
        to += 1;
    }
    assert(word_length(chars@) == to) by {
        if to < chars.len() {
            assert(chars@.skip(to as int)[0] == chars@[to as int]);
        }
    }
    let word = string_between(&chars, 0, to);
    assert(word@ =~= chars@.take(to as int));
    Some(word)
}

/// A row of texts with `sep` between them.
pub open spec fn joined_by(row: Seq<Seq<char>>, sep: Seq<char>) -> Seq<char>
    decreases row.len(),
{
    if row.len() == 0 {
        Seq::empty()
    } else if row.len() == 1 {
        row[0]
    } else {
        joined_by(row.drop_last(), sep) + sep + row.last()
    }
}

/// A row of texts with `sep` between them.
pub fn join(row: &Vec<String>, sep: &str) -> (r: String)
    ensures
        r@ == joined_by(texts_of(row@), sep@),
{
    let mut text = String::new();
    let mut i: usize = 0;
    let ghost all = texts_of(row@);
    assert(all.take(0) =~= Seq::<Seq<char>>::empty());
    while i < row.len()
        invariant
            i <= row.len(),
            all == texts_of(row@),
            text@ == joined_by(all.take(i as int), sep@),
        decreases row.len() - i,
    {
        let ghost before = text@;
        if i > 0 {
            text.push_str(sep);
        }
        text.push_str(row[i].as_str());
        proof {
            let longer = all.take(i + 1);
            assert(longer.last() == row@[i as int]@);
            assert(longer.drop_last() =~= all.take(i as int));
            if i == 0 {
                assert(text@ =~= longer[0]);
            } else {
                assert(text@ =~= before + sep@ + row@[i as int]@);
            }
        }
        i += 1;
    }
    assert(all.take(row@.len() as int) =~= all);
    text
}

/// `s` with spaces after it, so that it has at least `width` characters.
pub open spec fn padded(s: Seq<char>, width: nat) -> Seq<char> {
    if s.len() >= width {
        s
    } else {
        s + Seq::new((width - s.len()) as nat, |i: int| ' ')
    }
}

/// `text` with spaces after it, so that it has at least `width` characters.
pub fn pad(text: &str, width: usize) -> (r: String)
    ensures
        r@ == padded(text@, width as nat),
{
    let length: usize = chars_of(text).len();
    let mut out = String::new();
    out.push_str(text);
    let mut i: usize = length;
    assert(out@ =~= text@ + Seq::new(0, |i: int| ' '));
    while i < width
        invariant
            length == text@.len(),
            length <= i,
            i <= width || i == length,
            out@ == text@ + Seq::new((i - length) as nat, |i: int| ' '),
        decreases width - i,
    {
        out.push(' ');
        assert(out@ =~= text@ + Seq::new((i + 1 - length) as nat, |i: int| ' '));
        i += 1;
    }
    assert(out@ =~= padded(text@, width as nat));
    out
}

/// A number in decimal, with a minus sign before it if it is below zero.
pub open spec fn signed_text(n: int) -> Seq<char> {
    if n < 0 {
        "-"@ + decimal_text((-n) as nat)
    } else {
        decimal_text(n as nat)
    }
}

/// A number in decimal, with a minus sign before it if it is below zero.
pub fn signed(n: i32) -> (r: String)
    ensures
        r@ == signed_text(n as int),
{
    if n < 0 {
        let mut text = String::new();
        text.push_str("-");
        text.push_str(decimal((0 - n as i64) as u64).as_str());
        assert(text@ =~= signed_text(n as int));
        text
    } else {
        decimal(n as u64)
    }
}

/// What `str::to_lowercase` makes of a text.
pub uninterp spec fn lowercase_text(text: Seq<char>) -> Seq<char>;

/// Trusts `str::to_lowercase`: the text with every letter in lower case, which depends on the text
/// alone.
#[verifier::external_body]
pub(crate) fn lowercase(text: &str) -> (r: String)
    ensures
        r@ == lowercase_text(text@),
{
    text.to_lowercase()
}

/// What `str::to_uppercase` makes of a text.
pub uninterp spec fn uppercase_text(text: Seq<char>) -> Seq<char>;

/// Trusts `str::to_uppercase`: the text with every letter in upper case, which depends on the text
/// alone.
#[verifier::external_body]
pub(crate) fn uppercase(text: &str) -> (r: String)
    ensures
        r@ == uppercase_text(text@),
{
    text.to_uppercase()
}

} // verus!
