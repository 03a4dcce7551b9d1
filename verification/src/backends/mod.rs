//! Repository backends: where an application's releases are published, and
//! how the latest of them is found.

pub mod helm;

use crate::error::ErrorKind;
use vstd::prelude::*;
use vstd::string::StringExecFns;

verus! {

/// Why a backend gave no version.
#[derive(Clone, Copy, PartialEq, Eq, Debug, Structural)]
pub enum BackendError {
    /// The repository address is no URL.
    InvalidUrl,
    /// The repository is an OCI registry, which is recognized but not
    /// implemented yet.
    NotYetSupported,
    /// The repository is served over anything but HTTPS.
    UnsupportedScheme,
    /// The index is no YAML document.
    MalformedIndex,
    /// An entry of the package has no version, or one that is no semantic
    /// version.
    MalformedVersion,
    /// The index lists no entries for the package.
    ChartNotFound,
    /// None of the package's entries is a release.
    NoVersionsFound,
}

impl BackendError {
    /// The kind of this failure.
    pub open spec fn spec_kind(self) -> ErrorKind {
        match self {
            BackendError::InvalidUrl => ErrorKind::Config,
            BackendError::NotYetSupported => ErrorKind::Config,
            BackendError::UnsupportedScheme => ErrorKind::Config,
            BackendError::MalformedIndex => ErrorKind::Parse,
            BackendError::MalformedVersion => ErrorKind::Parse,
            BackendError::ChartNotFound => ErrorKind::NotFound,
            BackendError::NoVersionsFound => ErrorKind::NotFound,
        }
    }

    /// The kind of this failure.
    #[verifier::when_used_as_spec(spec_kind)]
    pub fn kind(self) -> (r: ErrorKind)
        ensures
            r == self.spec_kind(),
    {
        match self {
            BackendError::InvalidUrl => ErrorKind::Config,
            BackendError::NotYetSupported => ErrorKind::Config,
            BackendError::UnsupportedScheme => ErrorKind::Config,
            BackendError::MalformedIndex => ErrorKind::Parse,
            BackendError::MalformedVersion => ErrorKind::Parse,
            BackendError::ChartNotFound => ErrorKind::NotFound,
            BackendError::NoVersionsFound => ErrorKind::NotFound,
        }
    }

    /// The text that reports this failure.
    pub open spec fn spec_message(self) -> Seq<char> {
        match self {
            BackendError::InvalidUrl => "The repository address is not a valid URL."@,
            BackendError::NotYetSupported => "OCI repositories are not supported yet."@,
            BackendError::UnsupportedScheme => "Only HTTPS repositories are supported."@,
            BackendError::MalformedIndex => "The repository index is malformed."@,
            BackendError::MalformedVersion => "Version not found"@,
            BackendError::ChartNotFound => "Chart not found"@,
            BackendError::NoVersionsFound => "No versions found"@,
        }
    }

    /// The text that reports this failure.
    pub fn message(self) -> (r: String)
        ensures
            r@ == self.spec_message(),
    {
        match self {
            BackendError::InvalidUrl => String::from_str(
                "The repository address is not a valid URL.",
            ),
            BackendError::NotYetSupported => String::from_str(
                "OCI repositories are not supported yet.",
            ),
            BackendError::UnsupportedScheme => String::from_str(
                "Only HTTPS repositories are supported.",
            ),
            BackendError::MalformedIndex => String::from_str("The repository index is malformed."),
            BackendError::MalformedVersion => String::from_str("Version not found"),
            BackendError::ChartNotFound => String::from_str("Chart not found"),
            BackendError::NoVersionsFound => String::from_str("No versions found"),
        }
    }
}

/// Whether `result` is `expected`, text for text.
pub open spec fn gives(
    result: Result<String, BackendError>,
    expected: Result<Seq<char>, BackendError>,
) -> bool {
    match result {
        Ok(text) => expected == Ok::<Seq<char>, BackendError>(text@),
        Err(e) => expected == Err::<Seq<char>, BackendError>(e),
    }
}

/// A source of published versions. A backend validates its own
/// configuration, says where its index is to be fetched from, and reads the
/// latest release out of the fetched document. Fetching is left to the
/// caller, so that a backend never touches the network itself.
pub trait Backend {
    /// What [`Backend::initialize`] returns.
    spec fn validity(&self) -> Result<(), BackendError>;

    /// What [`Backend::index_url`] returns.
    spec fn location(&self) -> Result<Seq<char>, BackendError>;

    /// What [`Backend::latest_version`] returns for `index`.
    spec fn resolution(&self, index: Seq<char>) -> Result<Seq<char>, BackendError>;

    /// Checks the configuration. Nothing is fetched before this succeeds.
    fn initialize(&self) -> (r: Result<(), BackendError>)
        ensures
            r == self.validity(),
    ;

    /// The address of the index document.
    fn index_url(&self) -> (r: Result<String, BackendError>)
        ensures
            gives(r, self.location()),
    ;

    /// The latest release that the fetched `index` offers, as the index
    /// writes it.
    fn latest_version(&self, index: &str) -> (r: Result<String, BackendError>)
        ensures
            gives(r, self.resolution(index@)),
    ;
}

} // verus!
