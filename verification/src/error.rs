//! What can go wrong.
use crate::text;
use vstd::prelude::*;

verus! {

/// A failure, with what it says.
#[derive(Debug)]
pub enum NocturnedError {
    Config(String),
    General(String),
    Io(String),
    Iap2Protocol(String),
    MfiDevice(String),
    Json(String),
}

/// What a failure says, apart from how it is stored.
pub enum ErrorModel {
    Config(Seq<char>),
    General(Seq<char>),
    Io(Seq<char>),
    Iap2Protocol(Seq<char>),
    MfiDevice(Seq<char>),
    Json(Seq<char>),
}

impl View for NocturnedError {
    type V = ErrorModel;

    open spec fn view(&self) -> ErrorModel {
        match self {
            NocturnedError::Config(s) => ErrorModel::Config(s@),
            NocturnedError::General(s) => ErrorModel::General(s@),
            NocturnedError::Io(s) => ErrorModel::Io(s@),
            NocturnedError::Iap2Protocol(s) => ErrorModel::Iap2Protocol(s@),
            NocturnedError::MfiDevice(s) => ErrorModel::MfiDevice(s@),
            NocturnedError::Json(s) => ErrorModel::Json(s@),
        }
    }
}

impl ErrorModel {
    /// What a failure says.
    pub open spec fn message(self) -> Seq<char> {
        match self {
            ErrorModel::Config(s) => s,
            ErrorModel::General(s) => s,
            ErrorModel::Io(s) => s,
            ErrorModel::Iap2Protocol(s) => s,
            ErrorModel::MfiDevice(s) => s,
            ErrorModel::Json(s) => s,
        }
    }
}

impl NocturnedError {
    /// What a failure says.
    pub fn message(&self) -> (r: String)
        ensures
            r@ == self@.message(),
    {
        match self {
            NocturnedError::Config(s) => s.clone(),
            NocturnedError::General(s) => s.clone(),
            NocturnedError::Io(s) => s.clone(),
            NocturnedError::Iap2Protocol(s) => s.clone(),
            NocturnedError::MfiDevice(s) => s.clone(),
            NocturnedError::Json(s) => s.clone(),
        }
    }

    /// A failure of the configuration or of what was received.
    pub fn config(message: &str) -> (r: NocturnedError)
        ensures
            r@ == ErrorModel::Config(message@),
    {
        NocturnedError::Config(message.to_owned())
    }

    /// A failure of the configuration or of what was received, with what caused it.
    pub fn config_with(message: &str, cause: &str) -> (r: NocturnedError)
        ensures
            r@ == ErrorModel::Config(message@ + cause@),
    {
        NocturnedError::Config(text::joined(message, cause))
    }
}

} // verus!
