//! Small combinators on options, results and values.
use vstd::prelude::*;

verus! {

/// Swapping the layers of an option of a result, or of a result of an option.
pub trait Invert<T, E> {
    type Output;

    fn invert(self) -> Self::Output;
}

/// `None` is `Ok(None)`; `Some(r)` keeps `r`'s error or wraps its value.
pub open spec fn invert_option<T, E>(o: Option<Result<T, E>>) -> Result<Option<T>, E> {
    match o {
        None => Ok(None),
        Some(Ok(v)) => Ok(Some(v)),
        Some(Err(e)) => Err(e),
    }
}

/// An error is `Some(Err(e))`; `Ok(o)` wraps `o`'s value, if any.
pub open spec fn invert_result<T, E>(r: Result<Option<T>, E>) -> Option<Result<T, E>> {
    match r {
        Err(e) => Some(Err(e)),
        Ok(None) => None,
        Ok(Some(v)) => Some(Ok(v)),
    }
}

impl<T, E> Invert<T, E> for Option<Result<T, E>> {
    type Output = Result<Option<T>, E>;

    fn invert(self) -> (r: Result<Option<T>, E>)
        ensures
            r == invert_option(self),
    {
        match self {
            None => Ok(None),
            Some(Ok(v)) => Ok(Some(v)),
            Some(Err(e)) => Err(e),
        }
    }
}

impl<T, E> Invert<T, E> for Result<Option<T>, E> {
    type Output = Option<Result<T, E>>;

    fn invert(self) -> (r: Option<Result<T, E>>)
        ensures
            r == invert_result(self),
    {
        match self {
            Err(e) => Some(Err(e)),
            Ok(None) => None,
            Ok(Some(v)) => Some(Ok(v)),
        }
    }
}

/// Inverting twice gives back what was inverted, either way round.
pub proof fn lemma_invert_involutive<T, E>(o: Option<Result<T, E>>, r: Result<Option<T>, E>)
    ensures
        invert_result(invert_option(o)) == o,
        invert_option(invert_result(r)) == r,
{
}

/// A value kept only where a predicate holds of it.
pub trait WrapWhere<T>: Sized {
    fn wrap_where<F>(self, predicate: F) -> Option<T> where F: FnOnce(&T) -> bool
        requires
            forall|x: &T| predicate.requires((x,)),
    ;
}

impl<T> WrapWhere<T> for T {
    fn wrap_where<F>(self, predicate: F) -> (r: Option<T>) where F: FnOnce(&T) -> bool
        ensures
            r is Some ==> r == Some(self) && predicate.ensures((&self,), true),
            r is None ==> predicate.ensures((&self,), false),
    {
        if predicate(&self) {
            Some(self)
        } else {
            None
        }
    }
}

/// A value replaced by what a function gives for it, if it gives anything.
pub trait MapIf<T>: Sized {
    fn map_if<F>(self, maybe_map: F) -> T where F: FnOnce(&T) -> Option<T>
        requires
            forall|x: &T| maybe_map.requires((x,)),
    ;
}

impl<T> MapIf<T> for T {
    fn map_if<F>(self, maybe_map: F) -> (r: T) where F: FnOnce(&T) -> Option<T>
        ensures
            exists|o: Option<T>|
                maybe_map.ensures((&self,), o) && r == match o {
                    Some(v) => v,
                    None => self,
                },
    {
        let o = maybe_map(&self);
        match o {
            Some(v) => v,
            None => self,
        }
    }
}

/// A value passed through a function.
pub trait Apply<T>: Sized {
    fn apply<F>(self, func: F) -> T where F: FnOnce(T) -> T
        requires
            forall|x: T| func.requires((x,)),
    ;
}

impl<T> Apply<T> for T {
    fn apply<F>(self, func: F) -> (r: T) where F: FnOnce(T) -> T
        ensures
            func.ensures((self,), r),
    {
        func(self)
    }
}

} // verus!
