use vstd::prelude::*;

verus! {

/// The structural kind of a failure met while handling a message.
#[derive(Clone, Copy, Debug, PartialEq, Eq, Structural)]
pub enum ErrorKind {
    /// The addressed document changed while the request was in flight.
    ContentModified,
    /// An inner layer has already shown the failure to the user.
    AlreadyReported,
    /// Any other failure.
    Other,
}

/// How the router treats a failure.
#[derive(Clone, Copy, Debug, PartialEq, Eq, Structural)]
pub enum Classification {
    /// Dropped without logging; a call still gets a void success.
    Ignorable,
    /// Passed on to the caller but not logged again.
    AlreadyReported,
    /// Logged with the message and passed on.
    Unexpected,
}

pub open spec fn classification_of(kind: ErrorKind) -> Classification {
    match kind {
        ErrorKind::ContentModified => Classification::Ignorable,
        ErrorKind::AlreadyReported => Classification::AlreadyReported,
        ErrorKind::Other => Classification::Unexpected,
    }
}

/// Whether a failure is the stale-document condition that is silently dropped.
pub fn is_content_modified_error(err: &ErrorKind) -> (r: bool)
    ensures
        r == (*err == ErrorKind::ContentModified),
{
    match err {
        ErrorKind::ContentModified => true,
        _ => false,
    }
}

/// Classifies a failure by its kind, never by its text.
pub fn classify(err: &ErrorKind) -> (r: Classification)
    ensures
        r == classification_of(*err),
{
    if is_content_modified_error(err) {
        Classification::Ignorable
    } else {
        match err {
            ErrorKind::AlreadyReported => Classification::AlreadyReported,
            _ => Classification::Unexpected,
        }
    }
}

} // verus!
