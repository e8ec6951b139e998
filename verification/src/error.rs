//! The library's error type.
use vstd::prelude::*;

verus! {

/// Everything that can go wrong while loading, checking or running evals.
///
/// The underlying error of a failed read or parse is kept as its message.
#[derive(Debug)]
pub enum EvelinError {
    /// A plain message.
    Message(String),
    /// A file could not be read or written.
    Io { path: String, message: String },
    /// A JSON document could not be parsed.
    Json { path: String, message: String },
    /// A YAML document could not be parsed.
    Yaml { path: String, message: String },
    /// A TOML document could not be parsed.
    Toml { path: String, message: String },
    /// A child process failed.
    Process(String),
}

/// The mathematical value of an [`EvelinError`].
pub enum ErrorModel {
    Message(Seq<char>),
    Io(Seq<char>, Seq<char>),
    Json(Seq<char>, Seq<char>),
    Yaml(Seq<char>, Seq<char>),
    Toml(Seq<char>, Seq<char>),
    Process(Seq<char>),
}

impl View for EvelinError {
    type V = ErrorModel;

    open spec fn view(&self) -> ErrorModel {
        match self {
            EvelinError::Message(m) => ErrorModel::Message(m@),
            EvelinError::Io { path, message } => ErrorModel::Io(path@, message@),
            EvelinError::Json { path, message } => ErrorModel::Json(path@, message@),
            EvelinError::Yaml { path, message } => ErrorModel::Yaml(path@, message@),
            EvelinError::Toml { path, message } => ErrorModel::Toml(path@, message@),
            EvelinError::Process(m) => ErrorModel::Process(m@),
        }
    }
}

/// A fallible result of the library, seen through the views of its parts.
pub open spec fn res_view<T: View>(r: Result<T, EvelinError>) -> Result<T::V, ErrorModel> {
    match r {
        Ok(v) => Ok(v@),
        Err(e) => Err(e@),
    }
}

/// A fallible result of a std value, seen through its deep view.
pub open spec fn res_deep<T: DeepView>(r: Result<T, EvelinError>) -> Result<T::V, ErrorModel> {
    match r {
        Ok(v) => Ok(v.deep_view()),
        Err(e) => Err(e@),
    }
}

/// The error that carries just `m`.
pub open spec fn msg(m: Seq<char>) -> ErrorModel {
    ErrorModel::Message(m)
}

impl EvelinError {
    /// An error that carries just `message`.
    pub fn message(message: &str) -> (r: Self)
        ensures
            r@ == msg(message@),
    {
        EvelinError::Message(message.to_owned())
    }
}

} // verus!
