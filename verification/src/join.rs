//! Recognising the keywords of a join at the start of a token stream.
use vstd::prelude::*;
use crate::dml_writer::join_type_sql;
use crate::expression::JoinType;
use crate::util::same_text;

verus! {

/// The keywords of each kind of join, in the order they are tried, with the
/// join they stand for.
pub open spec fn join_patterns() -> Seq<(Seq<Seq<char>>, JoinType)> {
    seq![
        (seq!["JOIN"@], JoinType::Default),
        (seq!["INNER"@, "JOIN"@], JoinType::Inner),
        (seq!["FULL"@, "OUTER"@, "JOIN"@], JoinType::Outer),
        (seq!["OUTER"@, "JOIN"@], JoinType::Outer),
        (seq!["LEFT"@, "OUTER"@, "JOIN"@], JoinType::Left),
        (seq!["LEFT"@, "JOIN"@], JoinType::Left),
        (seq!["RIGHT"@, "OUTER"@, "JOIN"@], JoinType::Right),
        (seq!["RIGHT"@, "JOIN"@], JoinType::Right),
        (seq!["CROSS"@, "JOIN"@], JoinType::Cross),
        (seq!["CROSS"@], JoinType::Cross),
        (seq!["NATURAL"@, "JOIN"@], JoinType::Natural),
    ]
}

/// Whether the tokens start with the keywords.
pub open spec fn starts_with_keywords(tokens: Seq<Seq<char>>, keywords: Seq<Seq<char>>) -> bool {
    keywords.len() <= tokens.len() && forall|i: int| 0 <= i < keywords.len() ==> #[trigger] tokens[i]
        == keywords[i]
}

/// The first pattern, from position `from` on, that the tokens start with:
/// its join and how many keywords it has.
pub open spec fn first_join_pattern(tokens: Seq<Seq<char>>, from: int) -> Option<(JoinType, nat)>
    decreases join_patterns().len() - from,
{
    if from < 0 || from >= join_patterns().len() {
        None
    } else if starts_with_keywords(tokens, join_patterns()[from].0) {
        Some((join_patterns()[from].1, join_patterns()[from].0.len()))
    } else {
        first_join_pattern(tokens, from + 1)
    }
}

/// The texts of the tokens.
pub open spec fn token_texts(tokens: Seq<String>) -> Seq<Seq<char>> {
    tokens.map_values(|t: String| t@)
}

/// Whether the tokens start with the keywords.
fn starts_with<const N: usize>(tokens: &Vec<String>, keywords: [&'static str; N]) -> (r: bool)
    ensures
        r == starts_with_keywords(
            token_texts(tokens@),
            keywords@.map_values(|k: &'static str| k@),
        ),
{
    if N > tokens.len() {
        return false;
    }
    let mut i: usize = 0;
    while i < N
        invariant
            i <= N,
            N <= tokens@.len(),
            N == keywords@.len(),
            forall|j: int| 0 <= j < i ==> #[trigger] tokens@[j]@ == keywords@[j]@,
        decreases N - i,
    {
        if !same_text(tokens[i].as_str(), keywords[i]) {
            assert(token_texts(tokens@)[i as int] != keywords@.map_values(
                |k: &'static str| k@,
            )[i as int]);
            return false;
        }
        i = i + 1;
    }
    assert forall|j: int| 0 <= j < N implies #[trigger] token_texts(tokens@)[j]
        == keywords@.map_values(|k: &'static str| k@)[j] by {
        assert(tokens@[j]@ == keywords@[j]@);
    }
    true
}

impl JoinType {
    /// The join whose keywords the tokens start with (each token given by its
    /// text, empty for tokens that are not identifiers), with the number of
    /// keywords, or `None` when the tokens do not start a join.
    pub fn parse(tokens: &Vec<String>) -> (r: Option<(JoinType, usize)>)
        ensures
            match first_join_pattern(token_texts(tokens@), 0) {
                Some((j, n)) => r == Some((j, n as usize)),
                None => r is None,
            },
    {
        let ghost t = token_texts(tokens@);
        let ghost p = join_patterns();
        proof {
            reveal_strlit("JOIN");
            reveal_strlit("INNER");
            reveal_strlit("FULL");
            reveal_strlit("OUTER");
            reveal_strlit("LEFT");
            reveal_strlit("RIGHT");
            reveal_strlit("CROSS");
            reveal_strlit("NATURAL");
            reveal_with_fuel(first_join_pattern, 12);
        }
        let a = ["JOIN"];
        assert(a@.map_values(|k: &'static str| k@) =~= p[0].0);
        if starts_with(tokens, a) {
            return Some((JoinType::Default, 1));
        }
        let a = ["INNER", "JOIN"];
        assert(a@.map_values(|k: &'static str| k@) =~= p[1].0);
        if starts_with(tokens, a) {
            return Some((JoinType::Inner, 2));
        }
        let a = ["FULL", "OUTER", "JOIN"];
        assert(a@.map_values(|k: &'static str| k@) =~= p[2].0);
        if starts_with(tokens, a) {
            return Some((JoinType::Outer, 3));
        }
        let a = ["OUTER", "JOIN"];
        assert(a@.map_values(|k: &'static str| k@) =~= p[3].0);
        if starts_with(tokens, a) {
            return Some((JoinType::Outer, 2));
        }
        let a = ["LEFT", "OUTER", "JOIN"];
        assert(a@.map_values(|k: &'static str| k@) =~= p[4].0);
        if starts_with(tokens, a) {
            return Some((JoinType::Left, 3));
        }
        let a = ["LEFT", "JOIN"];
        assert(a@.map_values(|k: &'static str| k@) =~= p[5].0);
        if starts_with(tokens, a) {
            return Some((JoinType::Left, 2));
        }
        let a = ["RIGHT", "OUTER", "JOIN"];
        assert(a@.map_values(|k: &'static str| k@) =~= p[6].0);
        if starts_with(tokens, a) {
            return Some((JoinType::Right, 3));
        }
        let a = ["RIGHT", "JOIN"];
        assert(a@.map_values(|k: &'static str| k@) =~= p[7].0);
        if starts_with(tokens, a) {
            return Some((JoinType::Right, 2));
        }
        let a = ["CROSS", "JOIN"];
        assert(a@.map_values(|k: &'static str| k@) =~= p[8].0);
        if starts_with(tokens, a) {
            return Some((JoinType::Cross, 2));
        }
        let a = ["CROSS"];
        assert(a@.map_values(|k: &'static str| k@) =~= p[9].0);
        if starts_with(tokens, a) {
            return Some((JoinType::Cross, 1));
        }
        let a = ["NATURAL", "JOIN"];
        assert(a@.map_values(|k: &'static str| k@) =~= p[10].0);
        if starts_with(tokens, a) {
            return Some((JoinType::Natural, 2));
        }
        assert(first_join_pattern(t, 11) is None);
        None
    }
}


/// The keywords of a join, word by word.
pub open spec fn join_words(j: JoinType) -> Seq<Seq<char>> {
    match j {
        JoinType::Default => seq!["JOIN"@],
        JoinType::Inner => seq!["INNER"@, "JOIN"@],
        JoinType::Outer => seq!["OUTER"@, "JOIN"@],
        JoinType::Left => seq!["LEFT"@, "JOIN"@],
        JoinType::Right => seq!["RIGHT"@, "JOIN"@],
        JoinType::Cross => seq!["CROSS"@],
        JoinType::Natural => seq!["NATURAL"@, "JOIN"@],
    }
}

/// Words joined by single spaces.
pub open spec fn unwords(words: Seq<Seq<char>>) -> Seq<char>
    decreases words.len(),
{
    if words.len() == 0 {
        Seq::empty()
    } else if words.len() == 1 {
        words[0]
    } else {
        unwords(words.drop_last()) + seq![' '] + words.last()
    }
}

/// The keywords written for a join are its words joined by spaces, and
/// reading those words back, whatever follows them, gives the same join
/// (taking all the words when nothing follows).
pub proof fn law_join_keywords_read_back(j: JoinType, rest: Seq<Seq<char>>)
    ensures
        join_type_sql(j) == unwords(join_words(j)),
        first_join_pattern(join_words(j) + rest, 0) matches Some((k, _)) && k == j,
        first_join_pattern(join_words(j), 0) == Some((j, join_words(j).len())),
{
    reveal_strlit("JOIN");
    reveal_strlit("INNER");
    reveal_strlit("FULL");
    reveal_strlit("OUTER");
    reveal_strlit("LEFT");
    reveal_strlit("RIGHT");
    reveal_strlit("CROSS");
    reveal_strlit("NATURAL");
    reveal_strlit("INNER JOIN");
    reveal_strlit("OUTER JOIN");
    reveal_strlit("LEFT JOIN");
    reveal_strlit("RIGHT JOIN");
    reveal_strlit("NATURAL JOIN");
    reveal_with_fuel(first_join_pattern, 12);
    reveal_with_fuel(unwords, 3);
    let w = join_words(j);
    let t = w + rest;
    assert(t.take(w.len() as int) =~= w);
    assert(w + Seq::<Seq<char>>::empty() =~= w);
    assert(unwords(join_words(j)) =~= join_type_sql(j));
    assert(forall|i: int| 0 <= i < w.len() ==> t[i] == w[i]);
    assert("JOIN"@[0] != "INNER"@[0] && "JOIN"@[0] != "OUTER"@[0] && "JOIN"@[0] != "LEFT"@[0]
        && "JOIN"@[0] != "RIGHT"@[0] && "JOIN"@[0] != "CROSS"@[0] && "JOIN"@[0] != "NATURAL"@[0]
        && "JOIN"@[0] != "FULL"@[0]);
    assert("INNER"@[0] != "FULL"@[0] && "INNER"@[0] != "OUTER"@[0] && "INNER"@[0] != "LEFT"@[0]
        && "INNER"@[0] != "RIGHT"@[0] && "INNER"@[0] != "CROSS"@[0] && "INNER"@[0]
        != "NATURAL"@[0]);
    assert("OUTER"@[0] != "FULL"@[0] && "OUTER"@[0] != "LEFT"@[0] && "OUTER"@[0] != "RIGHT"@[0]
        && "OUTER"@[0] != "CROSS"@[0] && "OUTER"@[0] != "NATURAL"@[0]);
    assert("LEFT"@[0] != "FULL"@[0] && "LEFT"@[0] != "RIGHT"@[0] && "LEFT"@[0] != "CROSS"@[0]
        && "LEFT"@[0] != "NATURAL"@[0] && "OUTER"@[0] != "JOIN"@[0]);
    assert("RIGHT"@[0] != "FULL"@[0] && "RIGHT"@[0] != "CROSS"@[0] && "RIGHT"@[0]
        != "NATURAL"@[0]);
    assert("CROSS"@[0] != "FULL"@[0] && "CROSS"@[0] != "NATURAL"@[0]);
    assert("NATURAL"@[0] != "FULL"@[0]);
}

} // verus!
