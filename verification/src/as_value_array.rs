//! Converting fixed-length arrays: an array of any convertible type is a SQL
//! array of the values of its elements, and is read from text written
//! `{a, b, c}` or `[a, b, c]`.
use vstd::prelude::*;
use vstd::string::StrSliceExecFns;
use crate::as_value::AsValue;
use crate::as_value_interval::{char_at_is, trim_ascii_space, trim_ascii_start};
use crate::as_value_list::{all_valued, convert_all, prefix_converts};
use crate::parse_int::ConversionError;
use crate::value::Value;

verus! {

/// `Vec::from` on an array: a vector of its elements in order.
#[verifier::external_body]
fn array_into_vec<T, const N: usize>(a: [T; N]) -> (r: Vec<T>)
    ensures
        r@ == a@,
{
    Vec::from(a)
}

/// `<[T; N]>::try_from` on a vector: the array of its elements when it has
/// exactly `N` of them, else the vector itself back.
#[verifier::external_body]
fn vec_into_array<T, const N: usize>(v: Vec<T>) -> (r: Result<[T; N], Vec<T>>)
    ensures
        r is Ok <==> v@.len() == N,
        r matches Ok(a) ==> a@ == v@,
{
    <[T; N]>::try_from(v)
}

/// Whether `result` is what converting the values one by one gives: every
/// element converted, or the error of the first value that does not convert.
pub open spec fn seq_convert<T: AsValue>(values: Seq<Value>, result: Result<Seq<T>, ConversionError>) -> bool {
    match result {
        Ok(xs) => xs.len() == values.len() && forall|i: int|
            0 <= i < values.len() ==> T::converts(values[i], Ok(#[trigger] xs[i])),
        Err(e) => exists|k: int|
            0 <= k < values.len() && T::converts(#[trigger] values[k], Err(e))
                && prefix_converts::<T>(values, k),
    }
}

/// The closing bracket of an array that starts with `c`, if `c` opens one.
pub open spec fn closing_of(s: Seq<char>) -> Option<char> {
    if s.len() > 0 && s[0] == '{' {
        Some('}')
    } else if s.len() > 0 && s[0] == '[' {
        Some(']')
    } else {
        None
    }
}

/// Step `i` of reading the elements of an array of `n`: the element is read
/// from `texts[i]` (giving `raws[i]` and leaving `mids[i]`); after a read
/// element come ASCII space and a comma (and the space after it), which only
/// the last element may go without. `outcomes[i]` is the element or the
/// error, `texts[i + 1]` where the next element starts.
pub open spec fn element_step<T: AsValue>(
    i: int,
    n: int,
    texts: Seq<Seq<char>>,
    raws: Seq<Result<T, ConversionError>>,
    mids: Seq<Seq<char>>,
    outcomes: Seq<Result<T, ConversionError>>,
) -> bool {
    &&& T::extracts(texts[i], raws[i], mids[i])
    &&& match raws[i] {
        Err(e) => outcomes[i] == Err::<T, ConversionError>(e) && texts[i + 1] == mids[i],
        Ok(x) => {
            let t = trim_ascii_space(mids[i]);
            if t.len() > 0 && t[0] == ',' {
                outcomes[i] == Ok::<T, ConversionError>(x) && texts[i + 1] == trim_ascii_space(
                    t.skip(1),
                )
            } else if i != n - 1 {
                outcomes[i] == Err::<T, ConversionError>(ConversionError::Unparsable) && texts[i
                    + 1] == t
            } else {
                outcomes[i] == Ok::<T, ConversionError>(x) && texts[i + 1] == t
            }
        },
    }
}

/// The first `k` steps of reading the elements of an array of `n`, from the
/// text `start`. Every step is taken, also after an error.
pub open spec fn element_run<T: AsValue>(
    n: int,
    k: int,
    start: Seq<char>,
    texts: Seq<Seq<char>>,
    raws: Seq<Result<T, ConversionError>>,
    mids: Seq<Seq<char>>,
    outcomes: Seq<Result<T, ConversionError>>,
) -> bool {
    &&& 0 <= k <= n
    &&& texts.len() == k + 1
    &&& raws.len() == k
    &&& mids.len() == k
    &&& outcomes.len() == k
    &&& texts[0] == start
    &&& forall|i: int| 0 <= i < k ==> #[trigger] element_step(i, n, texts, raws, mids, outcomes)
}

/// The first error among the outcomes, if there is one.
pub open spec fn first_error<T>(outcomes: Seq<Result<T, ConversionError>>) -> Option<ConversionError>
    decreases outcomes.len(),
{
    if outcomes.len() == 0 {
        None
    } else {
        match first_error(outcomes.drop_last()) {
            Some(e) => Some(e),
            None => match outcomes.last() {
                Err(e) => Some(e),
                Ok(_) => None,
            },
        }
    }
}

/// How reading an array ends once every element step is taken: with the
/// first error, else with the closing bracket (and the ASCII space after
/// it), else with `Unparsable`. On an error nothing is taken.
pub open spec fn array_finish<T: AsValue, const N: usize>(
    s: Seq<char>,
    close: char,
    end: Seq<char>,
    outcomes: Seq<Result<T, ConversionError>>,
    result: Result<[T; N], ConversionError>,
    rest: Seq<char>,
) -> bool {
    match first_error(outcomes) {
        Some(e) => result == Err::<[T; N], ConversionError>(e) && rest == s,
        None => if end.len() > 0 && end[0] == close {
            &&& result matches Ok(a) && forall|i: int|
                0 <= i < N ==> outcomes[i] == Ok::<T, ConversionError>(#[trigger] a@[i])
            &&& rest == trim_ascii_space(end.skip(1))
        } else {
            result == Err::<[T; N], ConversionError>(ConversionError::Unparsable) && rest == s
        },
    }
}

/// Pushing an outcome adds its error when there was none before.
proof fn lemma_first_error_push<T>(outcomes: Seq<Result<T, ConversionError>>, o: Result<T, ConversionError>)
    ensures
        first_error(outcomes.push(o)) == match first_error(outcomes) {
            Some(e) => Some(e),
            None => match o {
                Err(e) => Some(e),
                Ok(_) => None,
            },
        },
{
    assert(outcomes.push(o).drop_last() =~= outcomes);
}

/// Extends a run with one more step, whose parts are given.
proof fn lemma_run_push<T: AsValue>(
    n: int,
    k: int,
    start: Seq<char>,
    texts: Seq<Seq<char>>,
    raws: Seq<Result<T, ConversionError>>,
    mids: Seq<Seq<char>>,
    outcomes: Seq<Result<T, ConversionError>>,
    raw: Result<T, ConversionError>,
    mid: Seq<char>,
    after: Seq<char>,
    outcome: Result<T, ConversionError>,
)
    requires
        element_run(n, k, start, texts, raws, mids, outcomes),
        k < n,
        element_step(k, n, texts.push(after), raws.push(raw), mids.push(mid), outcomes.push(outcome)),
    ensures
        element_run(
            n,
            k + 1,
            start,
            texts.push(after),
            raws.push(raw),
            mids.push(mid),
            outcomes.push(outcome),
        ),
{
    let t2 = texts.push(after);
    let r2 = raws.push(raw);
    let m2 = mids.push(mid);
    let o2 = outcomes.push(outcome);
    assert forall|i: int| 0 <= i < k + 1 implies #[trigger] element_step(i, n, t2, r2, m2, o2) by {
        if i < k {
            assert(element_step(i, n, texts, raws, mids, outcomes));
            assert(t2[i] == texts[i] && t2[i + 1] == texts[i + 1]);
            assert(r2[i] == raws[i] && m2[i] == mids[i] && o2[i] == outcomes[i]);
        }
    }
}

/// Converts the values of a list or array of `N` elements one by one into
/// an array.
fn convert_to_array<T: AsValue, const N: usize>(items: Vec<Value>) -> (r: Result<[T; N], ConversionError>)
    requires
        items@.len() == N,
        forall|i: int| 0 <= i < items@.len() ==> T::readable(#[trigger] items@[i]),
    ensures
        match r {
            Ok(a) => seq_convert::<T>(items@, Ok(a@)),
            Err(e) => seq_convert::<T>(items@, Err(e)),
        },
{
    match convert_all::<T>(items) {
        Ok(v) => match vec_into_array::<T, N>(v) {
            Ok(a) => Ok(a),
            Err(_) => Err(ConversionError::Incompatible),
        },
        Err(e) => Err(e),
    }
}

impl<T: AsValue, const N: usize> AsValue for [T; N] {
    /// Reading each element of a list or array of `N` must complete, and
    /// so must reading the text of a value of unknown type.
    open spec fn readable(value: Value) -> bool {
        match value {
            Value::List(Some(items), _) => items@.len() == N ==> forall|i: int|
                0 <= i < items@.len() ==> T::readable(#[trigger] items@[i]),
            Value::Array(Some(items), _, _) => items@.len() == N ==> forall|i: int|
                0 <= i < items@.len() ==> T::readable(#[trigger] items@[i]),
            Value::Unknown(Some(text)) => Self::extract_readable(text@),
            _ => true,
        }
    }

    /// A list or array of `N` values converts element by element; the text
    /// of a value of unknown type is read whole.
    open spec fn converts(value: Value, result: Result<[T; N], ConversionError>) -> bool {
        match value {
            Value::List(Some(items), _) => if items@.len() == N {
                match result {
                    Ok(a) => seq_convert::<T>(items@, Ok(a@)),
                    Err(e) => seq_convert::<T>(items@, Err(e)),
                }
            } else {
                result == Err::<[T; N], ConversionError>(ConversionError::Incompatible)
            },
            Value::Array(Some(items), _, _) => if items@.len() == N {
                match result {
                    Ok(a) => seq_convert::<T>(items@, Ok(a@)),
                    Err(e) => seq_convert::<T>(items@, Err(e)),
                }
            } else {
                result == Err::<[T; N], ConversionError>(ConversionError::Incompatible)
            },
            Value::Unknown(Some(text)) => exists|read: Result<[T; N], ConversionError>, rest: Seq<char>|
                #[trigger] Self::extracts(text@, read, rest) && match read {
                    Ok(a) => if rest.len() == 0 {
                        result == Ok::<[T; N], ConversionError>(a)
                    } else {
                        result == Err::<[T; N], ConversionError>(ConversionError::TrailingInput)
                    },
                    Err(e) => result == Err::<[T; N], ConversionError>(e),
                },
            _ => result == Err::<[T; N], ConversionError>(ConversionError::Incompatible),
        }
    }

    open spec fn spec_empty() -> Value {
        Value::Array(None, Box::new(T::spec_empty()), N as u32)
    }

    /// An array value of the values of the elements, with the prototype of
    /// `T` and the length `N`.
    open spec fn valued(self, v: Value) -> bool {
        v matches Value::Array(Some(items), proto, len) && *proto == T::spec_empty() && len == N
            as u32 && all_valued(self@, items@)
    }

    /// Reading an array completes when reading each of its elements does,
    /// wherever the element steps before it leave the text.
    open spec fn extract_readable(s: Seq<char>) -> bool {
        closing_of(s) is None || forall|
            k: int,
            texts: Seq<Seq<char>>,
            raws: Seq<Result<T, ConversionError>>,
            mids: Seq<Seq<char>>,
            outcomes: Seq<Result<T, ConversionError>>,
        |
            #[trigger] element_run::<T>(
                N as int,
                k,
                trim_ascii_space(s.skip(1)),
                texts,
                raws,
                mids,
                outcomes,
            ) && k < N ==> T::extract_readable(texts[k])
    }

    /// An array is written in braces or brackets, its `N` elements each
    /// followed by a comma but for the last, ASCII space allowed around
    /// each part.
    open spec fn extracts(s: Seq<char>, result: Result<[T; N], ConversionError>, rest: Seq<char>) -> bool {
        match closing_of(s) {
            None => result == Err::<[T; N], ConversionError>(ConversionError::Unparsable) && rest == s,
            Some(close) => exists|
                texts: Seq<Seq<char>>,
                raws: Seq<Result<T, ConversionError>>,
                mids: Seq<Seq<char>>,
                outcomes: Seq<Result<T, ConversionError>>,
            |
                #[trigger] element_run::<T>(
                    N as int,
                    N as int,
                    trim_ascii_space(s.skip(1)),
                    texts,
                    raws,
                    mids,
                    outcomes,
                ) && array_finish::<T, N>(s, close, texts[N as int], outcomes, result, rest),
        }
    }

    fn as_empty_value() -> (r: Value) {
        Value::Array(None, Box::new(T::as_empty_value()), N as u32)
    }

    fn as_value(self) -> (r: Value) {
        let items = array_into_vec(self);
        match items.as_value() {
            Value::List(Some(values), proto) => Value::Array(Some(values), proto, N as u32),
            _ => {
                proof {
                    assert(false);
                }
                Value::Array(None, Box::new(T::as_empty_value()), N as u32)
            },
        }
    }

    fn try_from_value(value: Value) -> (r: Result<[T; N], ConversionError>) {
        match value {
            Value::List(Some(items), _) => if items.len() == N {
                convert_to_array(items)
            } else {
                Err(ConversionError::Incompatible)
            },
            Value::Array(Some(items), _, _) => if items.len() == N {
                convert_to_array(items)
            } else {
                Err(ConversionError::Incompatible)
            },
            Value::Unknown(Some(text)) => {
                let mut input: &str = text.as_str();
                let read = Self::extract(&mut input);
                proof {
                    assert(Self::extracts(text@, read, input@));
                }
                match read {
                    Ok(a) => if input.unicode_len() == 0 {
                        Ok(a)
                    } else {
                        Err(ConversionError::TrailingInput)
                    },
                    Err(e) => Err(e),
                }
            },
            _ => Err(ConversionError::Incompatible),
        }
    }

    fn extract(input: &mut &str) -> (r: Result<[T; N], ConversionError>) {
        let s: &str = *input;
        let close: char = if char_at_is(s, 0, '{') {
            '}'
        } else if char_at_is(s, 0, '[') {
            ']'
        } else {
            return Err(ConversionError::Unparsable);
        };
        let mut value: &str = trim_ascii_start(s.substring_char(1, s.unicode_len()));
        let ghost start: Seq<char> = value@;
        proof {
            assert(s@.subrange(1, s@.len() as int) =~= s@.skip(1));
        }
        let ghost mut texts: Seq<Seq<char>> = seq![value@];
        let ghost mut raws: Seq<Result<T, ConversionError>> = Seq::empty();
        let ghost mut mids: Seq<Seq<char>> = Seq::empty();
        let ghost mut outcomes: Seq<Result<T, ConversionError>> = Seq::empty();
        let mut items: Vec<T> = Vec::new();
        let mut error: Option<ConversionError> = None;
        let mut i: usize = 0;
        while i < N
            invariant
                i <= N,
                closing_of(s@) == Some(close),
                start == trim_ascii_space(s@.skip(1)),
                Self::extract_readable(s@),
                element_run::<T>(N as int, i as int, start, texts, raws, mids, outcomes),
                texts[i as int] == value@,
                error == first_error(outcomes),
                error is None ==> items@.len() == i,
                error is None ==> forall|j: int|
                    0 <= j < i ==> outcomes[j] == Ok::<T, ConversionError>(#[trigger] items@[j]),
            decreases N - i,
        {
            assert(T::extract_readable(texts[i as int]));
            let mut cur: &str = value;
            let raw = T::extract(&mut cur);
            let ghost raw_g = raw;
            let ghost mid: Seq<char> = cur@;
            let ghost before = items@;
            let ghost mut outcome: Result<T, ConversionError> = raw_g;
            let next: &str = match raw {
                Err(e) => {
                    if error.is_none() {
                        error = Some(e);
                    }
                    cur
                },
                Ok(x) => {
                    let t: &str = trim_ascii_start(cur);
                    if char_at_is(t, 0, ',') {
                        if error.is_none() {
                            items.push(x);
                        }
                        proof {
                            assert(t@.subrange(1, t@.len() as int) =~= t@.skip(1));
                        }
                        trim_ascii_start(t.substring_char(1, t.unicode_len()))
                    } else if i + 1 != N {
                        if error.is_none() {
                            error = Some(ConversionError::Unparsable);
                        }
                        proof {
                            outcome = Err(ConversionError::Unparsable);
                        }
                        t
                    } else {
                        if error.is_none() {
                            items.push(x);
                        }
                        t
                    }
                },
            };
            proof {
                assert(element_step::<T>(
                    i as int,
                    N as int,
                    texts.push(next@),
                    raws.push(raw_g),
                    mids.push(mid),
                    outcomes.push(outcome),
                ));
                lemma_run_push::<T>(
                    N as int,
                    i as int,
                    start,
                    texts,
                    raws,
                    mids,
                    outcomes,
                    raw_g,
                    mid,
                    next@,
                    outcome,
                );
                lemma_first_error_push(outcomes, outcome);
                let old_outcomes = outcomes;
                texts = texts.push(next@);
                raws = raws.push(raw_g);
                mids = mids.push(mid);
                outcomes = outcomes.push(outcome);
                if error is None {
                    assert forall|j: int| 0 <= j < i + 1 implies outcomes[j] == Ok::<T, ConversionError>(
                        #[trigger] items@[j],
                    ) by {
                        if j < i {
                            assert(outcomes[j] == old_outcomes[j]);
                            assert(items@[j] == before[j]);
                        }
                    }
                }
            }
            value = next;
            i = i + 1;
        }
        if let Some(e) = error {
            assert(array_finish::<T, N>(s@, close, texts[N as int], outcomes, Err(e), s@));
            return Err(e);
        }
        if !char_at_is(value, 0, close) {
            assert(array_finish::<T, N>(
                s@,
                close,
                texts[N as int],
                outcomes,
                Err(ConversionError::Unparsable),
                s@,
            ));
            return Err(ConversionError::Unparsable);
        }
        let rest: &str = trim_ascii_start(value.substring_char(1, value.unicode_len()));
        proof {
            assert(value@.subrange(1, value@.len() as int) =~= value@.skip(1));
        }
        match vec_into_array::<T, N>(items) {
            Ok(a) => {
                assert(array_finish::<T, N>(s@, close, texts[N as int], outcomes, Ok(a), rest@));
                *input = rest;
                Ok(a)
            },
            Err(_) => Err(ConversionError::Unparsable),
        }
    }
}

/// An array converts back to itself from the value it gives when each of
/// its elements does.
pub proof fn law_array_round_trip<T: AsValue, const N: usize>(xs: [T; N], v: Value)
    requires
        forall|i: int, w: Value|
            0 <= i < N && #[trigger] xs@[i].valued(w) ==> T::converts(w, Ok(xs@[i])),
        xs.valued(v),
    ensures
        <[T; N]>::converts(v, Ok(xs)),
{
    if let Value::Array(Some(items), _, _) = v {
        assert forall|i: int| 0 <= i < items@.len() implies T::converts(
            items@[i],
            Ok(#[trigger] xs@[i]),
        ) by {
            assert(xs@[i].valued(items@[i]));
        }
    }
}

} // verus!
