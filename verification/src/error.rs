use vstd::prelude::*;

verus! {

/// Every way an operation of this library can fail.
#[derive(Clone, Copy, Debug, PartialEq, Eq, Structural)]
pub enum ErrorKind {
    /// A container path does not carry the registered suffix.
    InvalidExtension,
    /// A target is neither a file nor a directory.
    InvalidTarget,
    /// The container bytes are too short or their length field is inconsistent.
    MalformedContainer,
    /// A key is not valid PEM of the expected kind.
    KeyParseError,
    /// The wrapped content key could not be recovered with the private key.
    KeyUnwrapError,
    /// The authentication tag does not match the ciphertext.
    AuthenticationFailed,
    /// The public key cannot hold the wrapped content key.
    KeyTooSmall,
    /// The raw archive could not be packed or unpacked.
    InvalidArchive,
    /// The raw archive is longer than one sealing can take.
    ArchiveTooLarge,
    /// An index does not name a registered key.
    InvalidIndex,
}

impl ErrorKind {
    /// A short human-readable description.
    pub fn message(&self) -> (text: &'static str)
        ensures
            text@ == Self::message_of(*self),
    {
        match self {
            ErrorKind::InvalidExtension => "path extension is not \".acrp\"",
            ErrorKind::InvalidTarget => "target path is neither file nor directory",
            ErrorKind::MalformedContainer => "malformed container",
            ErrorKind::KeyParseError => "key could not be parsed",
            ErrorKind::KeyUnwrapError => "content key could not be unwrapped",
            ErrorKind::AuthenticationFailed => "decryption failed: authentication tag mismatch",
            ErrorKind::KeyTooSmall => "public key cannot hold the content key",
            ErrorKind::InvalidArchive => "archive could not be packed or unpacked",
            ErrorKind::ArchiveTooLarge => "archive is too large to encrypt",
            ErrorKind::InvalidIndex => "index does not name a registered key",
        }
    }

    /// The text that [`ErrorKind::message`] returns for each variant.
    pub open spec fn message_of(e: ErrorKind) -> Seq<char> {
        match e {
            ErrorKind::InvalidExtension => "path extension is not \".acrp\""@,
            ErrorKind::InvalidTarget => "target path is neither file nor directory"@,
            ErrorKind::MalformedContainer => "malformed container"@,
            ErrorKind::KeyParseError => "key could not be parsed"@,
            ErrorKind::KeyUnwrapError => "content key could not be unwrapped"@,
            ErrorKind::AuthenticationFailed => "decryption failed: authentication tag mismatch"@,
            ErrorKind::KeyTooSmall => "public key cannot hold the content key"@,
            ErrorKind::InvalidArchive => "archive could not be packed or unpacked"@,
            ErrorKind::ArchiveTooLarge => "archive is too large to encrypt"@,
            ErrorKind::InvalidIndex => "index does not name a registered key"@,
        }
    }
}

} // verus!
