use vstd::prelude::*;

use crate::errors::CustomError;

verus! {

/// Conveniences on optional values.
pub trait OptionExtensions<T>: Sized {
    spec fn as_option(&self) -> Option<T>;

    /// `f` applied to a reference to the value, if there is one.
    fn map<U, F: FnOnce(&T) -> U>(&self, f: F) -> (r: Option<U>)
        requires
            self.as_option() matches Some(v) ==> call_requires(f, (&v,)),
        ensures
            self.as_option() matches Some(v) ==> (r matches Some(u) && call_ensures(f, (&v,), u)),
            self.as_option() is None ==> r is None,
    ;

    /// `f` applied to a reference to the value, if there is one, its failure kept.
    fn map_result<U, F: FnOnce(&T) -> Result<U, CustomError>>(&self, f: F) -> (r: Result<Option<U>, CustomError>)
        requires
            self.as_option() matches Some(v) ==> call_requires(f, (&v,)),
        ensures
            self.as_option() matches Some(v) ==> exists|o: Result<U, CustomError>| call_ensures(f, (&v,), o) && r == match o {
                Ok(u) => Ok::<Option<U>, CustomError>(Some(u)),
                Err(e) => Err(e),
            },
            self.as_option() is None ==> r == Ok::<Option<U>, CustomError>(None),
    ;

    /// The value, or a failure with the given message.
    fn or_error(self, error_message: &str) -> (r: Result<T, CustomError>)
        ensures
            self.as_option() matches Some(v) ==> r == Ok::<T, CustomError>(v),
            self.as_option() is None ==> (r matches Err(e) && e.kind is ErrorMessage
                && e.kind.spec_message() == error_message@),
    ;

    /// The value, or what `f` gives when there is none.
    fn unwrap_or_else_result<F: FnOnce() -> Result<T, CustomError>>(self, f: F) -> (r: Result<T, CustomError>)
        requires
            self.as_option() is None ==> call_requires(f, ()),
        ensures
            self.as_option() matches Some(v) ==> r == Ok::<T, CustomError>(v),
            self.as_option() is None ==> call_ensures(f, (), r),
    ;
}

impl<T> OptionExtensions<T> for Option<T> {
    open spec fn as_option(&self) -> Option<T> {
        *self
    }

    fn map<U, F: FnOnce(&T) -> U>(&self, f: F) -> (r: Option<U>) {
        match self {
            Some(x) => Some(f(x)),
            None => None,
        }
    }

    fn map_result<U, F: FnOnce(&T) -> Result<U, CustomError>>(&self, f: F) -> (r: Result<Option<U>, CustomError>) {
        match self {
            Some(x) => {
                let o = f(x);
                let ghost g = o;
                let r = match o {
                    Ok(u) => Ok(Some(u)),
                    Err(e) => Err(e),
                };
                assert(call_ensures(f, (x,), g));
                r
            },
            None => Ok(None),
        }
    }

    fn or_error(self, error_message: &str) -> (r: Result<T, CustomError>) {
        match self {
            Some(v) => Ok(v),
            None => Err(CustomError::from_message(error_message)),
        }
    }

    fn unwrap_or_else_result<F: FnOnce() -> Result<T, CustomError>>(self, f: F) -> (r: Result<T, CustomError>) {
        match self {
            Some(x) => Ok(x),
            None => f(),
        }
    }
}

/// Conveniences on outcomes.
pub trait ResultExtensions<T>: Sized {
    spec fn as_result(&self) -> Result<T, CustomError>;

    /// The failure kept, or the value handed to `f`.
    fn map_result<U, F: FnOnce(&T) -> Result<U, CustomError>>(self, f: F) -> (r: Result<U, CustomError>)
        requires
            self.as_result() matches Ok(v) ==> call_requires(f, (&v,)),
        ensures
            self.as_result() matches Ok(v) ==> call_ensures(f, (&v,), r),
            self.as_result() matches Err(e) ==> r == Err::<U, CustomError>(e),
    ;
}

impl<T> ResultExtensions<T> for Result<T, CustomError> {
    open spec fn as_result(&self) -> Result<T, CustomError> {
        *self
    }

    fn map_result<U, F: FnOnce(&T) -> Result<U, CustomError>>(self, f: F) -> (r: Result<U, CustomError>) {
        match self {
            Ok(x) => f(&x),
            Err(err) => Err(err),
        }
    }
}

/// Replacing the failure of an outcome whose failure type says nothing useful.
pub trait ResultExtensionsReplaceError<R>: Sized {
    spec fn ok_value(&self) -> Option<R>;

    /// The value, or the failure that `err_func` makes.
    fn replace_error<ErrFunc: FnOnce() -> CustomError>(self, err_func: ErrFunc) -> (r: Result<R, CustomError>)
        requires
            self.ok_value() is None ==> call_requires(err_func, ()),
        ensures
            self.ok_value() matches Some(v) ==> r == Ok::<R, CustomError>(v),
            self.ok_value() is None ==> (r matches Err(e) && call_ensures(err_func, (), e)),
    ;

    /// The value, or the failure with the given message.
    fn on_error(self, msg: &str) -> (r: Result<R, CustomError>)
        ensures
            self.ok_value() matches Some(v) ==> r == Ok::<R, CustomError>(v),
            self.ok_value() is None ==> (r matches Err(e) && e.kind is ErrorMessage && e.kind.spec_message()
                == msg@),
    ;
}

impl<R, E> ResultExtensionsReplaceError<R> for Result<R, E> {
    open spec fn ok_value(&self) -> Option<R> {
        match self {
            Ok(v) => Some(*v),
            Err(_) => None,
        }
    }

    fn replace_error<ErrFunc: FnOnce() -> CustomError>(self, err_func: ErrFunc) -> (r: Result<R, CustomError>) {
        match self {
            Ok(res) => Ok(res),
            Err(_) => Err(err_func()),
        }
    }

    fn on_error(self, msg: &str) -> (r: Result<R, CustomError>) {
        match self {
            Ok(res) => Ok(res),
            Err(_) => Err(CustomError::from_message(msg)),
        }
    }
}

} // verus!
