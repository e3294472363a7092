//! The error value that the restore functions report, and its constructors.

use vstd::prelude::*;

verus! {

/// A failure that carries nothing but its message.
#[derive(Debug)]
pub struct Failed {
    details: String,
}

/// The error type of the fallible functions of this crate.
pub type BoxedError = Box<Failed>;

/// A result whose error is a [`BoxedError`].
pub type BoxedResult<T> = Result<T, BoxedError>;

/// The result of an operation that yields nothing on success.
pub type ErrorResult = Result<(), BoxedError>;

impl View for Failed {
    type V = Seq<char>;

    /// A failure is its message.
    closed spec fn view(&self) -> Seq<char> {
        self.details@
    }
}

impl Failed {
    /// A failure with the message `msg`.
    pub fn new(msg: &str) -> (failed: Self)
        ensures
            failed@ == msg@,
    {
        Self { details: msg.to_owned() }
    }

    /// The message, as a new string.
    pub fn say(&self) -> (text: String)
        ensures
            text@ == self@,
    {
        self.details.clone()
    }

    /// The message, borrowed.
    pub fn description(&self) -> (text: &str)
        ensures
            text@ == self@,
    {
        self.details.as_str()
    }
}

/// Fails with `message`: the result is always an error, and its message is
/// `message`.
pub fn throw<T>(message: String) -> (res: Result<T, BoxedError>)
    ensures
        res matches Err(failed) && failed@ == message@,
{
    Err(Box::new(Failed::new(message.as_str())))
}

/// Fails with `message`: the result is always an error, and its message is
/// `message`.
pub fn raise<T>(message: &str) -> (res: Result<T, BoxedError>)
    ensures
        res matches Err(failed) && failed@ == message@,
{
    Err(Box::new(Failed::new(message)))
}

} // verus!
