use vstd::prelude::*;

verus! {

/// Every failure the library reports. All errors are fatal to the running
/// operation: the front end prints the diagnostic and exits non-zero.
#[derive(Debug)]
pub enum PlayError {
    /// An explicitly supplied configuration file does not exist.
    ConfigMissing,
    /// The configuration file exists but does not parse.
    ConfigMalformed,
    /// The requested template is neither a template directory nor an
    /// external-command template.
    UnknownTemplate { name: String },
    /// The source of a tree copy does not exist or is not a directory.
    SourceNotFound { path: String },
    /// An I/O operation failed at the given path.
    Io { path: String },
    /// An external command or editor failed to run or exited non-zero.
    Subprocess,
}

impl PlayError {
    /// The user-visible diagnostic for this failure.
    pub fn describe(&self) -> (m: String)
        ensures
            self is ConfigMissing ==> m@ == "the config file does not exist, please create it"@,
            self is ConfigMalformed ==> m@ == "the config file is malformed"@,
            self matches PlayError::UnknownTemplate { name } ==> m@ == "unknown template: "@
                + name@,
            self matches PlayError::SourceNotFound { path } ==> m@
                == "template directory not found: "@ + path@,
            self matches PlayError::Io { path } ==> m@ == "io failure at: "@ + path@,
            self is Subprocess ==> m@ == "the external command failed"@,
    {
        match self {
            PlayError::ConfigMissing => String::from_str(
                "the config file does not exist, please create it",
            ),
            PlayError::ConfigMalformed => String::from_str("the config file is malformed"),
            PlayError::UnknownTemplate { name } => String::from_str("unknown template: ").concat(
                name.as_str(),
            ),
            PlayError::SourceNotFound { path } => String::from_str(
                "template directory not found: ",
            ).concat(path.as_str()),
            PlayError::Io { path } => String::from_str("io failure at: ").concat(path.as_str()),
            PlayError::Subprocess => String::from_str("the external command failed"),
        }
    }
}

} // verus!
