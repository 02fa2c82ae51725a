use vstd::prelude::*;

verus! {

/// Every failure the library reports. The last four belong to tag patterns and
/// tag-set reconciliation; the others to the surrounding service.
#[derive(Debug, Clone, Copy, PartialEq, Eq, Structural)]
pub enum Error {
    ServerCreate,
    DatabaseConnection,
    DatabaseError,
    MissingCredential,
    WrongCredential,
    InvalidToken,
    MissingField,
    ImageExists,
    ImageNotFound,
    TagExists,
    TagNotFound,
    UserExists,
    UserNotFound,
    Hashing,
    Upload,
    Serialize,
    InvalidId,
    NotImplemented,
    WrongType,
    InvalidPattern,
    ResolutionFailed,
    ReconcileFailed,
    DatabaseInconsistent,
}

impl Error {
    /// Failures that lie with the server rather than with the request.
    pub open spec fn is_server_fault(self) -> bool {
        ||| self is ServerCreate
        ||| self is DatabaseConnection
        ||| self is DatabaseError
        ||| self is Hashing
        ||| self is Serialize
        ||| self is NotImplemented
        ||| self is ResolutionFailed
        ||| self is ReconcileFailed
        ||| self is DatabaseInconsistent
    }

    /// The HTTP status a request that failed this way is answered with.
    pub open spec fn spec_status(self) -> u16 {
        if self.is_server_fault() {
            500
        } else if self is WrongCredential {
            401
        } else {
            400
        }
    }

    /// The text shown to the client for this failure.
    pub open spec fn spec_message(self) -> Seq<char> {
        match self {
            Error::ServerCreate => "Server Creation"@,
            Error::DatabaseConnection => "Database Connection"@,
            Error::DatabaseError => "Database Error"@,
            Error::MissingCredential => "Missing Credential"@,
            Error::WrongCredential => "Wrong Credential"@,
            Error::InvalidToken => "Invalid Token"@,
            Error::MissingField => "Missing Field"@,
            Error::ImageExists => "Image already exists"@,
            Error::ImageNotFound => "Image not found"@,
            Error::TagExists => "Tag already exists"@,
            Error::TagNotFound => "Tag not found"@,
            Error::UserExists => "User already exists"@,
            Error::UserNotFound => "User not found"@,
            Error::Hashing => "Hashing password"@,
            Error::Upload => "Upload Error"@,
            Error::Serialize => "Serialize"@,
            Error::InvalidId => "Invalid Id"@,
            Error::NotImplemented => "Not Implemented"@,
            Error::WrongType => "Wrong Type"@,
            Error::InvalidPattern => "Invalid Pattern"@,
            Error::ResolutionFailed => "Resolution Failed"@,
            Error::ReconcileFailed => "Reconcile Failed"@,
            Error::DatabaseInconsistent => "Database Inconsistent"@,
        }
    }

    pub fn status(&self) -> (r: u16)
        ensures
            r == self.spec_status(),
    {
        match self {
            Error::WrongCredential => 401,
            Error::ServerCreate
            | Error::DatabaseConnection
            | Error::DatabaseError
            | Error::Hashing
            | Error::Serialize
            | Error::NotImplemented
            | Error::ResolutionFailed
            | Error::ReconcileFailed
            | Error::DatabaseInconsistent => 500,
            _ => 400,
        }
    }

    pub fn message(&self) -> (r: &'static str)
        ensures
            r@ == self.spec_message(),
    {
        match self {
            Error::ServerCreate => "Server Creation",
            Error::DatabaseConnection => "Database Connection",
            Error::DatabaseError => "Database Error",
            Error::MissingCredential => "Missing Credential",
            Error::WrongCredential => "Wrong Credential",
            Error::InvalidToken => "Invalid Token",
            Error::MissingField => "Missing Field",
            Error::ImageExists => "Image already exists",
            Error::ImageNotFound => "Image not found",
            Error::TagExists => "Tag already exists",
            Error::TagNotFound => "Tag not found",
            Error::UserExists => "User already exists",
            Error::UserNotFound => "User not found",
            Error::Hashing => "Hashing password",
            Error::Upload => "Upload Error",
            Error::Serialize => "Serialize",
            Error::InvalidId => "Invalid Id",
            Error::NotImplemented => "Not Implemented",
            Error::WrongType => "Wrong Type",
            Error::InvalidPattern => "Invalid Pattern",
            Error::ResolutionFailed => "Resolution Failed",
            Error::ReconcileFailed => "Reconcile Failed",
            Error::DatabaseInconsistent => "Database Inconsistent",
        }
    }
}

} // verus!
