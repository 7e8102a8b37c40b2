//! What the error types of the library have in common.
use vstd::prelude::*;

verus! {

/// An error type with a value that stands for several errors.
pub trait MultiError: Sized {
    /// The single errors that an error stands for, in order.
    spec fn errors(self) -> Seq<Self>;

    /// The single errors that a list of errors stands for, in order.
    spec fn all_errors(errs: Seq<Self>) -> Seq<Self>;

    /// One error that stands for all of `errs`.
    fn new_multi_error(errs: Vec<Self>) -> (res: Self)
        ensures
            res.errors() == Self::all_errors(errs@),
    ;

    /// The single errors that this error stands for.
    fn into_errors(self) -> (res: Vec<Self>)
        ensures
            res@ == self.errors(),
    ;
}

} // verus!
