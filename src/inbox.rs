use vstd::prelude::*;

verus! {

/// Relies on std::sync::mpsc::SendError: a tuple struct whose one public
/// field is the message that was not sent.
#[verifier::external_type_specification]
#[verifier::reject_recursive_types(T)]
pub struct ExMpscSendError<T>(std::sync::mpsc::SendError<T>);

/// What a send into a dropped inbox hands back: the message, so that it can
/// be recovered.
pub struct SendError<T>(pub T);

impl<T> From<std::sync::mpsc::SendError<T>> for SendError<T> {
    fn from(err: std::sync::mpsc::SendError<T>) -> (r: SendError<T>)
        ensures
            r.0 == err.0,
    {
        SendError(err.0)
    }
}

impl<T> vstd::std_specs::convert::FromSpecImpl<std::sync::mpsc::SendError<T>> for SendError<T> {
    open spec fn obeys_from_spec() -> bool {
        true
    }

    open spec fn from_spec(err: std::sync::mpsc::SendError<T>) -> SendError<T> {
        SendError(err.0)
    }
}

} // verus!
