//! Converting shared pointers: an `Rc` or `Arc` converts as the value it
//! points to.
use vstd::prelude::*;
use std::rc::Rc;
use std::sync::Arc;
use crate::as_value::AsValue;
use crate::parse_int::ConversionError;
use crate::value::Value;

verus! {

/// `Arc::try_unwrap`: the inner value when this is the only strong
/// reference to it, else the same pointer back.
#[verifier::external_body]
fn arc_try_unwrap<T>(a: Arc<T>) -> (r: Result<T, Arc<T>>)
    ensures
        match r {
            Ok(t) => t == *a,
            Err(b) => b == a,
        },
{
    Arc::try_unwrap(a)
}

/// Whether `v` is the SQL value of the pointed-to value or of a clone of
/// it (a pointer shared elsewhere gives up a clone).
pub open spec fn shared_valued<T: AsValue + Clone>(inner: T, v: Value) -> bool {
    exists|t: T| cloned::<T>(inner, t) && #[trigger] t.valued(v)
}

impl<T: AsValue + Clone> AsValue for Rc<T> {
    open spec fn readable(value: Value) -> bool {
        T::readable(value)
    }

    /// The value converted as `T`, then shared.
    open spec fn converts(value: Value, result: Result<Rc<T>, ConversionError>) -> bool {
        match result {
            Ok(p) => T::converts(value, Ok(*p)),
            Err(e) => T::converts(value, Err(e)),
        }
    }

    open spec fn spec_empty() -> Value {
        T::spec_empty()
    }

    open spec fn valued(self, v: Value) -> bool {
        shared_valued(*self, v)
    }

    open spec fn extract_readable(s: Seq<char>) -> bool {
        true
    }

    /// A shared pointer is not read from text directly.
    open spec fn extracts(s: Seq<char>, result: Result<Rc<T>, ConversionError>, rest: Seq<char>) -> bool {
        result == Err::<Rc<T>, ConversionError>(ConversionError::Unparsable) && rest == s
    }

    fn as_empty_value() -> (r: Value) {
        T::as_empty_value()
    }

    fn as_value(self) -> (r: Value) {
        match Rc::try_unwrap(self) {
            Ok(t) => {
                let r = t.as_value();
                assert(cloned::<T>(t, t) && t.valued(r));
                r
            },
            Err(p) => {
                let t = (*p).clone();
                let r = t.as_value();
                assert(cloned::<T>(*p, t) && t.valued(r));
                r
            },
        }
    }

    fn try_from_value(value: Value) -> (r: Result<Rc<T>, ConversionError>) {
        match T::try_from_value(value) {
            Ok(t) => Ok(Rc::new(t)),
            Err(e) => Err(e),
        }
    }

    fn extract(input: &mut &str) -> (r: Result<Rc<T>, ConversionError>) {
        Err(ConversionError::Unparsable)
    }
}

impl<T: AsValue + Clone> AsValue for Arc<T> {
    open spec fn readable(value: Value) -> bool {
        T::readable(value)
    }

    /// The value converted as `T`, then shared.
    open spec fn converts(value: Value, result: Result<Arc<T>, ConversionError>) -> bool {
        match result {
            Ok(p) => T::converts(value, Ok(*p)),
            Err(e) => T::converts(value, Err(e)),
        }
    }

    open spec fn spec_empty() -> Value {
        T::spec_empty()
    }

    open spec fn valued(self, v: Value) -> bool {
        shared_valued(*self, v)
    }

    open spec fn extract_readable(s: Seq<char>) -> bool {
        true
    }

    /// A shared pointer is not read from text directly.
    open spec fn extracts(s: Seq<char>, result: Result<Arc<T>, ConversionError>, rest: Seq<char>) -> bool {
        result == Err::<Arc<T>, ConversionError>(ConversionError::Unparsable) && rest == s
    }

    fn as_empty_value() -> (r: Value) {
        T::as_empty_value()
    }

    fn as_value(self) -> (r: Value) {
        match arc_try_unwrap(self) {
            Ok(t) => {
                let r = t.as_value();
                assert(cloned::<T>(t, t) && t.valued(r));
                r
            },
            Err(p) => {
                let t = (*p).clone();
                let r = t.as_value();
                assert(cloned::<T>(*p, t) && t.valued(r));
                r
            },
        }
    }

    fn try_from_value(value: Value) -> (r: Result<Arc<T>, ConversionError>) {
        match T::try_from_value(value) {
            Ok(t) => Ok(Arc::new(t)),
            Err(e) => Err(e),
        }
    }

    fn extract(input: &mut &str) -> (r: Result<Arc<T>, ConversionError>) {
        Err(ConversionError::Unparsable)
    }
}

/// A shared value converts back to a pointer to the value it gives, or to
/// the clone it gave, when the values of `T` round-trip.
pub proof fn law_shared_round_trip<T: AsValue + Clone>(x: Rc<T>, y: Arc<T>, v: Value, w: Value)
    requires
        forall|t: T, u: Value| #[trigger] t.valued(u) ==> T::converts(u, Ok(t)),
        x.valued(v),
        y.valued(w),
    ensures
        exists|p: Rc<T>| cloned::<T>(*x, *p) && #[trigger] Rc::<T>::converts(v, Ok(p)),
        exists|q: Arc<T>| cloned::<T>(*y, *q) && #[trigger] Arc::<T>::converts(w, Ok(q)),
{
    let t = choose|t: T| cloned::<T>(*x, t) && #[trigger] t.valued(v);
    assert(Rc::<T>::converts(v, Ok(Rc::new(t))));
    let u = choose|u: T| cloned::<T>(*y, u) && #[trigger] u.valued(w);
    assert(Arc::<T>::converts(w, Ok(Arc::new(u))));
}

} // verus!
