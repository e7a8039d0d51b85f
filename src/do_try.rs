use vstd::prelude::*;

use crate::errors::CustomError;

verus! {

/// The outcome of a block, held until its clean-up has run.
pub struct FinStruct<TRes> {
    pub result: Result<TRes, CustomError>,
}

/// The outcome of a block followed by its clean-up: the block's failure
/// first, then the clean-up's, else the block's value.
pub open spec fn after_cleanup<TRes>(result: Result<TRes, CustomError>, cleanup: Result<(), CustomError>) -> Result<TRes, CustomError> {
    match result {
        Err(e) => Err(e),
        Ok(v) => match cleanup {
            Err(e) => Err(e),
            Ok(()) => Ok(v),
        },
    }
}

impl<TRes> FinStruct<TRes> {
    /// Runs the clean-up, whatever the block did, then gives the combined outcome.
    pub fn finally<FFinally>(self, ff: FFinally) -> (r: Result<TRes, CustomError>)
        where
            FFinally: FnOnce() -> Result<(), CustomError>,
        requires
            call_requires(ff, ()),
        ensures
            exists|c: Result<(), CustomError>| call_ensures(ff, (), c) && r == after_cleanup(self.result, c),
    {
        let ghost before = self.result;
        let finally_result = ff();
        let ghost c = finally_result;
        let r = match self.result {
            Err(err) => Err(err),
            Ok(res) => match finally_result {
                Err(finally_err) => Err(finally_err),
                Ok(()) => Ok(res),
            },
        };
        assert(call_ensures(ff, (), c) && r == after_cleanup(before, c));
        r
    }
}

/// Runs a block and holds its outcome for `finally`.
pub fn run<FDo, TRes>(fdo: FDo) -> (r: FinStruct<TRes>)
    where
        FDo: FnOnce() -> Result<TRes, CustomError>,
    requires
        call_requires(fdo, ()),
    ensures
        call_ensures(fdo, (), r.result),
{
    let result = fdo();
    FinStruct { result }
}

} // verus!
