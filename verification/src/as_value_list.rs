//! Converting lists of values: a `Vec` of any convertible type is a SQL
//! list of the values of its elements.
use vstd::prelude::*;
use crate::as_value::AsValue;
use crate::parse_int::ConversionError;
use crate::value::Value;
use std::collections::VecDeque;

verus! {

/// Whether `values` are the SQL values of `items`, one for one.
pub open spec fn all_valued<T: AsValue>(items: Seq<T>, values: Seq<Value>) -> bool {
    items.len() == values.len() && forall|i: int|
        0 <= i < items.len() ==> #[trigger] items[i].valued(values[i])
}

/// Whether the value converts to some element.
pub open spec fn converts_to_some<T: AsValue>(value: Value) -> bool {
    exists|x: T| #[trigger] T::converts(value, Ok(x))
}

/// Whether each of the first `k` values converts to some element.
pub open spec fn prefix_converts<T: AsValue>(values: Seq<Value>, k: int) -> bool {
    forall|j: int| 0 <= j < k ==> #[trigger] converts_to_some::<T>(values[j])
}

/// Whether `result` is what converting the values one by one gives: every
/// element converted, or the error of the first value that does not convert.
pub open spec fn all_convert<T: AsValue>(values: Seq<Value>, result: Result<Vec<T>, ConversionError>) -> bool {
    match result {
        Ok(v) => v@.len() == values.len() && forall|i: int|
            0 <= i < values.len() ==> T::converts(values[i], Ok(#[trigger] v@[i])),
        Err(e) => exists|k: int|
            0 <= k < values.len() && T::converts(#[trigger] values[k], Err(e))
                && prefix_converts::<T>(values, k),
    }
}

/// Moves the elements out of `v` into a vector holding them last first.
pub(crate) fn reversed<T>(v: Vec<T>) -> (r: Vec<T>)
    ensures
        r@.len() == v@.len(),
        forall|j: int| 0 <= j < v@.len() ==> #[trigger] r@[j] == v@[v@.len() - 1 - j],
{
    let ghost orig = v@;
    let n = v.len();
    let mut src = v;
    let mut rev: Vec<T> = Vec::new();
    while src.len() > 0
        invariant
            src@ == orig.take(src@.len() as int),
            src@.len() + rev@.len() == n,
            n == orig.len(),
            forall|j: int| 0 <= j < rev@.len() ==> #[trigger] rev@[j] == orig[n - 1 - j],
        decreases src@.len(),
    {
        let ghost k = src@.len();
        match src.pop() {
            Some(x) => {
                assert(x == orig[k - 1]);
                rev.push(x);
                assert(src@ =~= orig.take(src@.len() as int));
            },
            None => {},
        }
    }
    rev
}

/// Converts the values one by one, stopping at the first error.
pub(crate) fn convert_all<T: AsValue>(values: Vec<Value>) -> (r: Result<Vec<T>, ConversionError>)
    requires
        forall|i: int| 0 <= i < values@.len() ==> T::readable(#[trigger] values@[i]),
    ensures
        all_convert(values@, r),
{
    let ghost orig = values@;
    let n = values.len();
    let mut rev = reversed(values);
    let mut out: Vec<T> = Vec::new();
    while rev.len() > 0
        invariant
            rev@.len() + out@.len() == n,
            n == orig.len(),
            forall|j: int| 0 <= j < rev@.len() ==> #[trigger] rev@[j] == orig[n - 1 - j],
            forall|i: int| 0 <= i < orig.len() ==> T::readable(#[trigger] orig[i]),
            forall|j: int| 0 <= j < out@.len() ==> T::converts(orig[j], Ok(#[trigger] out@[j])),
            orig == values@,
        decreases rev@.len(),
    {
        let ghost i = out@.len() as int;
        let ghost last = rev@.len() - 1;
        match rev.pop() {
            Some(item) => {
                assert(item == orig[n - 1 - last]);
                assert(T::readable(orig[i]));
                match T::try_from_value(item) {
                    Ok(x) => {
                        let ghost before = out@;
                        out.push(x);
                        assert forall|j: int| 0 <= j < out@.len() implies T::converts(
                            orig[j],
                            Ok(#[trigger] out@[j]),
                        ) by {
                            if j < i {
                                assert(out@[j] == before[j]);
                            }
                        }
                    },
                    Err(e) => {
                        assert forall|j: int| 0 <= j < i implies #[trigger] converts_to_some::<T>(
                            orig[j],
                        ) by {
                            assert(T::converts(orig[j], Ok(out@[j])));
                        }
                        assert(n - 1 - last == i);
                        assert(T::converts(orig[i], Err(e)) && prefix_converts::<T>(orig, i));
                        assert(all_convert::<T>(orig, Err(e)));
                        return Err(e);
                    },
                }
            },
            None => {},
        }
    }
    Ok(out)
}

impl<T: AsValue> AsValue for Vec<T> {
    /// Reading each element of a list or array must complete.
    open spec fn readable(value: Value) -> bool {
        match value {
            Value::List(Some(items), _) => forall|i: int|
                0 <= i < items@.len() ==> T::readable(#[trigger] items@[i]),
            Value::Array(Some(items), _, _) => forall|i: int|
                0 <= i < items@.len() ==> T::readable(#[trigger] items@[i]),
            _ => true,
        }
    }

    /// A list or array converts element by element; a null list to the
    /// empty vector.
    open spec fn converts(value: Value, result: Result<Vec<T>, ConversionError>) -> bool {
        match value {
            Value::List(Some(items), _) => all_convert(items@, result),
            Value::List(None, _) => result matches Ok(v) && v@.len() == 0,
            Value::Array(Some(items), _, _) => all_convert(items@, result),
            _ => result == Err::<Vec<T>, ConversionError>(ConversionError::Incompatible),
        }
    }

    open spec fn spec_empty() -> Value {
        Value::List(None, Box::new(T::spec_empty()))
    }

    /// A list of the values of the elements, with the prototype of `T`.
    open spec fn valued(self, v: Value) -> bool {
        v matches Value::List(Some(items), proto) && *proto == T::spec_empty() && all_valued(
            self@,
            items@,
        )
    }

    open spec fn extract_readable(s: Seq<char>) -> bool {
        true
    }

    /// A vector is not read from text directly.
    open spec fn extracts(s: Seq<char>, result: Result<Vec<T>, ConversionError>, rest: Seq<char>) -> bool {
        result == Err::<Vec<T>, ConversionError>(ConversionError::Unparsable) && rest == s
    }

    fn as_empty_value() -> (r: Value) {
        Value::List(None, Box::new(T::as_empty_value()))
    }

    fn as_value(self) -> (r: Value) {
        let ghost orig = self@;
        let n = self.len();
        let mut rev = reversed(self);
        let mut values: Vec<Value> = Vec::new();
        while rev.len() > 0
            invariant
                rev@.len() + values@.len() == n,
                n == orig.len(),
                forall|j: int| 0 <= j < rev@.len() ==> #[trigger] rev@[j] == orig[n - 1 - j],
                forall|j: int| 0 <= j < values@.len() ==> #[trigger] orig[j].valued(values@[j]),
            decreases rev@.len(),
        {
            let ghost i = values@.len() as int;
            let ghost last = rev@.len() - 1;
            match rev.pop() {
                Some(x) => {
                    assert(x == orig[n - 1 - last]);
                    let v = x.as_value();
                    let ghost before = values@;
                    values.push(v);
                    assert forall|j: int| 0 <= j < values@.len() implies #[trigger] orig[j].valued(
                        values@[j],
                    ) by {
                        if j < i {
                            assert(values@[j] == before[j]);
                        }
                    }
                },
                None => {},
            }
        }
        Value::List(Some(values), Box::new(T::as_empty_value()))
    }

    fn try_from_value(value: Value) -> (r: Result<Vec<T>, ConversionError>) {
        match value {
            Value::List(Some(items), _) => convert_all(items),
            Value::List(None, _) => Ok(Vec::new()),
            Value::Array(Some(items), _, _) => convert_all(items),
            _ => Err(ConversionError::Incompatible),
        }
    }

    fn extract(input: &mut &str) -> (r: Result<Vec<T>, ConversionError>) {
        Err(ConversionError::Unparsable)
    }
}

/// A vector converts back to itself from the value it gives when each of
/// its elements does.
pub proof fn law_list_round_trip<T: AsValue>(xs: Vec<T>, v: Value)
    requires
        forall|i: int, w: Value|
            0 <= i < xs@.len() && #[trigger] xs@[i].valued(w) ==> T::converts(w, Ok(xs@[i])),
        xs.valued(v),
    ensures
        Vec::<T>::converts(v, Ok(xs)),
{
    if let Value::List(Some(items), _) = v {
        assert forall|i: int| 0 <= i < items@.len() implies T::converts(
            items@[i],
            Ok(#[trigger] xs@[i]),
        ) by {
            assert(xs@[i].valued(items@[i]));
        }
    }
}

/// Moves the elements of `v` into a double-ended queue, in order.
fn deque_of<T>(v: Vec<T>) -> (r: VecDeque<T>)
    ensures
        r@ == v@,
{
    let ghost orig = v@;
    let mut src = v;
    let mut d: VecDeque<T> = VecDeque::new();
    while src.len() > 0
        invariant
            src@ + d@ == orig,
        decreases src@.len(),
    {
        match src.pop() {
            Some(x) => {
                d.push_front(x);
                assert(src@ + d@ =~= orig);
            },
            None => {},
        }
    }
    assert(src@ + d@ =~= d@);
    d
}

/// Whether `result` is what converting the values one by one into a queue
/// gives: every element converted, or the error of the first value that
/// does not convert.
pub open spec fn deque_converts<T: AsValue>(values: Seq<Value>, result: Result<VecDeque<T>, ConversionError>) -> bool {
    match result {
        Ok(d) => d@.len() == values.len() && forall|i: int|
            0 <= i < values.len() ==> T::converts(values[i], Ok(#[trigger] d@[i])),
        Err(e) => exists|k: int|
            0 <= k < values.len() && T::converts(#[trigger] values[k], Err(e))
                && prefix_converts::<T>(values, k),
    }
}

/// Converts the values one by one into a queue, stopping at the first error.
fn convert_all_to_deque<T: AsValue>(values: Vec<Value>) -> (r: Result<VecDeque<T>, ConversionError>)
    requires
        forall|i: int| 0 <= i < values@.len() ==> T::readable(#[trigger] values@[i]),
    ensures
        deque_converts(values@, r),
{
    match convert_all::<T>(values) {
        Ok(v) => Ok(deque_of(v)),
        Err(e) => Err(e),
    }
}

impl<T: AsValue> AsValue for VecDeque<T> {
    /// Reading each element of a list or array must complete.
    open spec fn readable(value: Value) -> bool {
        match value {
            Value::List(Some(items), _) => forall|i: int|
                0 <= i < items@.len() ==> T::readable(#[trigger] items@[i]),
            Value::Array(Some(items), _, _) => forall|i: int|
                0 <= i < items@.len() ==> T::readable(#[trigger] items@[i]),
            _ => true,
        }
    }

    /// A list or array converts element by element; a null list to the
    /// empty queue.
    open spec fn converts(value: Value, result: Result<VecDeque<T>, ConversionError>) -> bool {
        match value {
            Value::List(Some(items), _) => deque_converts(items@, result),
            Value::List(None, _) => result matches Ok(d) && d@.len() == 0,
            Value::Array(Some(items), _, _) => deque_converts(items@, result),
            _ => result == Err::<VecDeque<T>, ConversionError>(ConversionError::Incompatible),
        }
    }

    open spec fn spec_empty() -> Value {
        Value::List(None, Box::new(T::spec_empty()))
    }

    /// A list of the values of the elements, front first, with the
    /// prototype of `T`.
    open spec fn valued(self, v: Value) -> bool {
        v matches Value::List(Some(items), proto) && *proto == T::spec_empty() && all_valued(
            self@,
            items@,
        )
    }

    open spec fn extract_readable(s: Seq<char>) -> bool {
        true
    }

    /// A queue is not read from text directly.
    open spec fn extracts(s: Seq<char>, result: Result<VecDeque<T>, ConversionError>, rest: Seq<char>) -> bool {
        result == Err::<VecDeque<T>, ConversionError>(ConversionError::Unparsable) && rest == s
    }

    fn as_empty_value() -> (r: Value) {
        Value::List(None, Box::new(T::as_empty_value()))
    }

    fn as_value(self) -> (r: Value) {
        let ghost orig = self@;
        let n = self.len();
        let mut d = self;
        let mut values: Vec<Value> = Vec::new();
        while d.len() > 0
            invariant
                values@.len() + d@.len() == n,
                n == orig.len(),
                d@ == orig.subrange(values@.len() as int, n as int),
                forall|j: int| 0 <= j < values@.len() ==> #[trigger] orig[j].valued(values@[j]),
            decreases d@.len(),
        {
            let ghost i = values@.len() as int;
            match d.pop_front() {
                Some(x) => {
                    assert(x == orig[i]);
                    let v = x.as_value();
                    let ghost before = values@;
                    values.push(v);
                    assert forall|j: int| 0 <= j < values@.len() implies #[trigger] orig[j].valued(
                        values@[j],
                    ) by {
                        if j < i {
                            assert(values@[j] == before[j]);
                        }
                    }
                    assert(d@ =~= orig.subrange(values@.len() as int, n as int));
                },
                None => {},
            }
        }
        Value::List(Some(values), Box::new(T::as_empty_value()))
    }

    fn try_from_value(value: Value) -> (r: Result<VecDeque<T>, ConversionError>) {
        match value {
            Value::List(Some(items), _) => convert_all_to_deque(items),
            Value::List(None, _) => Ok(VecDeque::new()),
            Value::Array(Some(items), _, _) => convert_all_to_deque(items),
            _ => Err(ConversionError::Incompatible),
        }
    }

    fn extract(input: &mut &str) -> (r: Result<VecDeque<T>, ConversionError>) {
        Err(ConversionError::Unparsable)
    }
}

/// A queue converts back to itself from the value it gives when each of
/// its elements does.
pub proof fn law_deque_round_trip<T: AsValue>(xs: VecDeque<T>, v: Value)
    requires
        forall|i: int, w: Value|
            0 <= i < xs@.len() && #[trigger] xs@[i].valued(w) ==> T::converts(w, Ok(xs@[i])),
        xs.valued(v),
    ensures
        VecDeque::<T>::converts(v, Ok(xs)),
{
    if let Value::List(Some(items), _) = v {
        assert forall|i: int| 0 <= i < items@.len() implies T::converts(
            items@[i],
            Ok(#[trigger] xs@[i]),
        ) by {
            assert(xs@[i].valued(items@[i]));
        }
    }
}

} // verus!
