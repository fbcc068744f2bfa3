//! The ways in which planning fails.

use vstd::prelude::*;

verus! {

/// What went wrong underneath a provider.
#[derive(Clone, Copy, Debug, PartialEq, Eq, Structural)]
pub enum Cause {
    /// A file of the source tree is missing or is not text.
    Io,
    /// A file, a pattern or an entry does not parse.
    Parse,
    /// A path does not lie inside the source root.
    Path,
}

/// The providers that the registry knows.
#[derive(Clone, Copy, Debug, PartialEq, Eq, Structural)]
pub enum ProviderId {
    Deno,
    Node,
}

/// What a provider was reading when it failed.
#[derive(Clone, Copy, Debug, PartialEq, Eq, Structural)]
pub enum Subject {
    /// The file `package.json` at the root of the source tree.
    PackageJson,
    /// A pattern of the provider's own; no file of the tree.
    Pattern,
}

impl Subject {
    /// The relative path of the file that was being read, if it was a file.
    pub open spec fn path(self) -> Option<Seq<char>> {
        match self {
            Subject::PackageJson => Some("package.json"@),
            Subject::Pattern => None,
        }
    }

    /// The relative path of the file that was being read, if it was a file.
    pub fn file(self) -> (r: Option<&'static str>)
        ensures
            r.deep_view() == self.path(),
    {
        match self {
            Subject::PackageJson => Some("package.json"),
            Subject::Pattern => None,
        }
    }
}

/// An error of the planner or of one of its parts.
#[derive(Clone, Copy, Debug, PartialEq, Eq, Structural)]
pub enum Error {
    /// A file of the source tree is missing or is not text.
    Io,
    /// A file, a pattern or an entry does not parse.
    Parse,
    /// A path does not lie inside the source root.
    Path,
    /// A plan file does not have the shape of a build plan.
    Plan,
    /// A provider failed: `cause` says on what, `subject` what it was
    /// reading.
    Provider { provider: ProviderId, cause: Cause, subject: Subject },
}

impl Error {
    /// The error as it is reported when it arises inside `provider` while
    /// that reads `subject`: a plain error becomes that provider's error with
    /// the same cause, a plan error counts as a parse error, and a provider's
    /// error stays as it is.
    pub open spec fn within(self, provider: ProviderId, subject: Subject) -> Error {
        match self {
            Error::Io => Error::Provider { provider, cause: Cause::Io, subject },
            Error::Parse => Error::Provider { provider, cause: Cause::Parse, subject },
            Error::Path => Error::Provider { provider, cause: Cause::Path, subject },
            Error::Plan => Error::Provider { provider, cause: Cause::Parse, subject },
            Error::Provider { provider: inner, cause, subject: read } => Error::Provider {
                provider: inner,
                cause,
                subject: read,
            },
        }
    }

    /// Attributes the error to `provider`, which was reading `subject`.
    pub fn attribute_to(self, provider: ProviderId, subject: Subject) -> (r: Error)
        ensures
            r == self.within(provider, subject),
    {
        match self {
            Error::Io => Error::Provider { provider, cause: Cause::Io, subject },
            Error::Parse => Error::Provider { provider, cause: Cause::Parse, subject },
            Error::Path => Error::Provider { provider, cause: Cause::Path, subject },
            Error::Plan => Error::Provider { provider, cause: Cause::Parse, subject },
            Error::Provider { provider: inner, cause, subject: read } => Error::Provider {
                provider: inner,
                cause,
                subject: read,
            },
        }
    }

    /// The provider that the error arose in, if it arose in one.
    pub fn provider(&self) -> (r: Option<ProviderId>)
        ensures
            r == match *self {
                Error::Provider { provider, cause: _, subject: _ } => Some(provider),
                _ => None,
            },
    {
        match self {
            Error::Provider { provider, cause: _, subject: _ } => Some(*provider),
            _ => None,
        }
    }

    /// The file of the source tree that a provider was reading when the error
    /// arose, if it was reading one.
    pub fn file(&self) -> (r: Option<&'static str>)
        ensures
            r.deep_view() == match *self {
                Error::Provider { provider: _, cause: _, subject } => subject.path(),
                _ => None,
            },
    {
        match self {
            Error::Provider { provider: _, cause: _, subject } => subject.file(),
            _ => None,
        }
    }

    /// A one-line description of the error.
    pub fn describe(&self) -> (r: &'static str)
        ensures
            r@ == describe_spec(*self),
    {
        match self {
            Error::Io => "a file of the source tree is missing or is not text",
            Error::Parse => "a file, a pattern or an entry does not parse",
            Error::Path => "a path does not lie inside the source root",
            Error::Plan => "the plan file does not have the shape of a build plan",
            Error::Provider { provider: _, cause: Cause::Io, subject: _ } => "a provider could not read a file",
            Error::Provider { provider: _, cause: Cause::Parse, subject: _ } => "a provider could not parse what it read",
            Error::Provider { provider: _, cause: Cause::Path, subject: _ } => "a provider met a path outside the source root",
        }
    }
}

/// The text that describes an error.
pub open spec fn describe_spec(e: Error) -> Seq<char> {
    match e {
        Error::Io => "a file of the source tree is missing or is not text"@,
        Error::Parse => "a file, a pattern or an entry does not parse"@,
        Error::Path => "a path does not lie inside the source root"@,
        Error::Plan => "the plan file does not have the shape of a build plan"@,
        Error::Provider { provider: _, cause: Cause::Io, subject: _ } => "a provider could not read a file"@,
        Error::Provider { provider: _, cause: Cause::Parse, subject: _ } => "a provider could not parse what it read"@,
        Error::Provider { provider: _, cause: Cause::Path, subject: _ } => "a provider met a path outside the source root"@,
    }
}

} // verus!
