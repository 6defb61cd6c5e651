//! Joining rendered pieces with a separator, and scanning text.
use vstd::prelude::*;
use vstd::string::StrSliceExecFns;
use vstd::string::StringExecFns;
use crate::parse_int::leading_digits;
use crate::text::is_digit;

verus! {

/// The pieces joined by `sep`: a separator stands before a piece exactly
/// when the piece before it is not empty.
pub open spec fn separated(pieces: Seq<Seq<char>>, sep: Seq<char>) -> Seq<char>
    decreases pieces.len(),
{
    if pieces.len() == 0 {
        Seq::empty()
    } else {
        separated(pieces.drop_last(), sep) + (if pieces.len() >= 2 && pieces[pieces.len() - 2].len()
            > 0 {
            sep
        } else {
            Seq::empty()
        }) + pieces.last()
    }
}

/// Adding a piece adds the separator (when the last piece is not empty) and the piece.
pub proof fn lemma_separated_push(pieces: Seq<Seq<char>>, piece: Seq<char>, sep: Seq<char>)
    ensures
        separated(pieces.push(piece), sep) == separated(pieces, sep) + (if pieces.len() > 0
            && pieces.last().len() > 0 {
            sep
        } else {
            Seq::empty()
        }) + piece,
{
    assert(pieces.push(piece).drop_last() =~= pieces);
}

/// The text of each string.
pub open spec fn texts(values: Seq<String>) -> Seq<Seq<char>> {
    values.map_values(|v: String| v@)
}

/// Appends the strings, each after `separator` when the one before it is
/// not empty.
pub fn separated_by(out: &mut String, values: &Vec<String>, separator: &str)
    ensures
        final(out)@ == old(out)@ + separated(texts(values@), separator@),
{
    let ghost start = out@;
    let mut i: usize = 0;
    assert(texts(values@.take(0)) =~= Seq::<Seq<char>>::empty());
    while i < values.len()
        invariant
            i <= values@.len(),
            out@ == start + separated(texts(values@.take(i as int)), separator@),
        decreases values@.len() - i,
    {
        let ghost before = texts(values@.take(i as int));
        proof {
            lemma_separated_push(before, values@[i as int]@, separator@);
            assert(texts(values@.take(i + 1)) =~= before.push(values@[i as int]@));
        }
        if i > 0 && !values[i - 1].as_str().is_empty() {
            out.append(separator);
        }
        out.append(values[i].as_str());
        i = i + 1;
    }
    assert(values@.take(values@.len() as int) =~= values@);
}

/// Whether two texts are equal.
pub(crate) fn same_text(a: &str, b: &str) -> (r: bool)
    ensures
        r == (a@ == b@),
{
    let x = String::from_str(a);
    let y = String::from_str(b);
    x == y
}


/// Removes from the front of `input` the longest prefix whose characters all
/// satisfy `predicate`, and returns it.
pub fn consume_while<'s, F: Fn(char) -> bool>(input: &mut &'s str, predicate: F) -> (r: &'s str)
    requires
        forall|c: char| call_requires(predicate, (c,)),
    ensures
        r@.len() <= old(input)@.len(),
        r@ == old(input)@.take(r@.len() as int),
        final(input)@ == old(input)@.skip(r@.len() as int),
        forall|i: int| 0 <= i < r@.len() ==> call_ensures(predicate, (old(input)@[i],), true),
        r@.len() < old(input)@.len() ==> call_ensures(
            predicate,
            (old(input)@[r@.len() as int],),
            false,
        ),
{
    let value: &'s str = *input;
    let n = value.unicode_len();
    let mut len: usize = 0;
    while len < n
        invariant
            len <= n,
            n == value@.len(),
            forall|c: char| call_requires(predicate, (c,)),
            forall|i: int| 0 <= i < len ==> call_ensures(predicate, (value@[i],), true),
        ensures
            len <= n,
            forall|i: int| 0 <= i < len ==> call_ensures(predicate, (value@[i],), true),
            len < n ==> call_ensures(predicate, (value@[len as int],), false),
        decreases n - len,
    {
        let c = value.get_char(len);
        if !predicate(c) {
            break;
        }
        len = len + 1;
    }
    let result = value.substring_char(0, len);
    *input = value.substring_char(len, n);
    result
}

/// The length of a leading `+` or `-` that a signed number may start with.
pub open spec fn number_sign_len(s: Seq<char>, signed: bool) -> int {
    if signed && s.len() > 0 && (s[0] == '+' || s[0] == '-') {
        1
    } else {
        0
    }
}

/// Removes from the front of `input` its leading ASCII digits, after a `+`
/// or `-` when `SIGNED`, and returns them.
pub fn extract_number<'s, const SIGNED: bool>(input: &mut &'s str) -> (r: &'s str)
    ensures
        r@.len() <= old(input)@.len(),
        r@ == old(input)@.take(r@.len() as int),
        final(input)@ == old(input)@.skip(r@.len() as int),
        r@.len() == number_sign_len(old(input)@, SIGNED) + leading_digits(
            old(input)@.skip(number_sign_len(old(input)@, SIGNED)),
        ),
{
    let value: &'s str = *input;
    let n = value.unicode_len();
    let mut end: usize = 0;
    if SIGNED && n > 0 {
        let c = value.get_char(0);
        if c == '+' || c == '-' {
            end = 1;
        }
    }
    let ghost start = end as int;
    while end < n && is_ascii_digit(value.get_char(end))
        invariant
            start <= end <= n,
            n == value@.len(),
            leading_digits(value@.skip(start)) == (end - start) + leading_digits(value@.skip(end as int)),
        decreases n - end,
    {
        assert(value@.skip(end as int).drop_first() =~= value@.skip(end + 1));
        end = end + 1;
    }
    if end < n {
        assert(value@.skip(end as int)[0] == value@[end as int]);
    }
    let result = value.substring_char(0, end);
    *input = value.substring_char(end, n);
    result
}

fn is_ascii_digit(c: char) -> (r: bool)
    ensures
        r == is_digit(c),
{
    '0' <= c && c <= '9'
}

} // verus!
