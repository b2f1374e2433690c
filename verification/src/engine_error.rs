//! Why the engine refuses a command.

use vstd::prelude::*;

verus! {

#[derive(Debug, PartialEq, Eq)]
pub enum MediaEngineError {
    QueueClosed,
    StatePoisoned,
    UnsupportedPlatform,
    Unsupported(String),
    SessionAlreadyActive,
    NoActiveSession,
    NativeCapture(String),
    NativePeer(String),
}

/// What a [`MediaEngineError`] says.
pub enum ErrorModel {
    QueueClosed,
    StatePoisoned,
    UnsupportedPlatform,
    Unsupported(Seq<char>),
    SessionAlreadyActive,
    NoActiveSession,
    NativeCapture(Seq<char>),
    NativePeer(Seq<char>),
}

impl View for MediaEngineError {
    type V = ErrorModel;

    open spec fn view(&self) -> ErrorModel {
        match self {
            MediaEngineError::QueueClosed => ErrorModel::QueueClosed,
            MediaEngineError::StatePoisoned => ErrorModel::StatePoisoned,
            MediaEngineError::UnsupportedPlatform => ErrorModel::UnsupportedPlatform,
            MediaEngineError::Unsupported(message) => ErrorModel::Unsupported(message@),
            MediaEngineError::SessionAlreadyActive => ErrorModel::SessionAlreadyActive,
            MediaEngineError::NoActiveSession => ErrorModel::NoActiveSession,
            MediaEngineError::NativeCapture(message) => ErrorModel::NativeCapture(message@),
            MediaEngineError::NativePeer(message) => ErrorModel::NativePeer(message@),
        }
    }
}

impl Clone for MediaEngineError {
    fn clone(&self) -> (copy: Self)
        ensures
            copy@ == self@,
    {
        match self {
            MediaEngineError::QueueClosed => MediaEngineError::QueueClosed,
            MediaEngineError::StatePoisoned => MediaEngineError::StatePoisoned,
            MediaEngineError::UnsupportedPlatform => MediaEngineError::UnsupportedPlatform,
            MediaEngineError::Unsupported(message) => MediaEngineError::Unsupported(
                message.clone(),
            ),
            MediaEngineError::SessionAlreadyActive => MediaEngineError::SessionAlreadyActive,
            MediaEngineError::NoActiveSession => MediaEngineError::NoActiveSession,
            MediaEngineError::NativeCapture(message) => MediaEngineError::NativeCapture(
                message.clone(),
            ),
            MediaEngineError::NativePeer(message) => MediaEngineError::NativePeer(message.clone()),
        }
    }
}

impl ErrorModel {
    /// The error in words.
    pub open spec fn message(self) -> Seq<char> {
        match self {
            ErrorModel::QueueClosed => "media worker is not available"@,
            ErrorModel::StatePoisoned => "media state is unavailable"@,
            ErrorModel::UnsupportedPlatform =>
                "native media sessions are unsupported on this platform"@,
            ErrorModel::Unsupported(message) => message,
            ErrorModel::SessionAlreadyActive => "a media session is already active"@,
            ErrorModel::NoActiveSession => "no media session is active"@,
            ErrorModel::NativeCapture(message) => message,
            ErrorModel::NativePeer(message) => message,
        }
    }
}

impl MediaEngineError {
    /// The error in words.
    pub fn message(&self) -> (text: String)
        ensures
            text@ == self@.message(),
    {
        match self {
            MediaEngineError::QueueClosed => "media worker is not available".to_owned(),
            MediaEngineError::StatePoisoned => "media state is unavailable".to_owned(),
            MediaEngineError::UnsupportedPlatform => {
                "native media sessions are unsupported on this platform".to_owned()
            },
            MediaEngineError::Unsupported(message) => message.clone(),
            MediaEngineError::SessionAlreadyActive => {
                "a media session is already active".to_owned()
            },
            MediaEngineError::NoActiveSession => "no media session is active".to_owned(),
            MediaEngineError::NativeCapture(message) => message.clone(),
            MediaEngineError::NativePeer(message) => message.clone(),
        }
    }
}

/// What was said of a failure is told as it was said; every other error has words of its own.
pub proof fn law_failures_keep_their_words(message: Seq<char>, a: ErrorModel, b: ErrorModel)
    ensures
        ErrorModel::Unsupported(message).message() == message,
        ErrorModel::NativeCapture(message).message() == message,
        ErrorModel::NativePeer(message).message() == message,
        !(a is Unsupported || a is NativeCapture || a is NativePeer) && !(b is Unsupported || b
            is NativeCapture || b is NativePeer) && a.message() == b.message() ==> a == b,
{
    reveal_strlit("media worker is not available");
    reveal_strlit("media state is unavailable");
    reveal_strlit("native media sessions are unsupported on this platform");
    reveal_strlit("a media session is already active");
    reveal_strlit("no media session is active");
    assert("media worker is not available"@.len() == 29);
    assert("media state is unavailable"@.len() == 26);
    assert("native media sessions are unsupported on this platform"@.len() == 54);
    assert("a media session is already active"@.len() == 33);
    assert("no media session is active"@.len() == 26);
    assert("media state is unavailable"@[0] == 'm');
    assert("no media session is active"@[0] == 'n');
}

} // verus!
