//! The failures that cross back to a mod's script.

use vstd::prelude::*;
use vstd::string::*;

verus! {

/// Trusted: `std::io::Error`, the file system's account of a failure. It is
/// carried through as it came; nothing is known of what it holds.
#[verifier::external_type_specification]
#[verifier::external_body]
pub struct ExIoError(std::io::Error);

/// Trusted: calls `to_string` on a `std::io::Error`. The text is the
/// operating system's; nothing is claimed of it.
#[verifier::external_body]
fn io_error_text(cause: &std::io::Error) -> (text: String) {
    cause.to_string()
}

/// Why a request of a mod's script was turned down or could not be served.
#[derive(Debug)]
pub enum BridgeError {
    /// A privileged operation was asked for by a mod that is not trusted.
    TrustError,
    /// The path leads out of the mod's own directory.
    SandboxViolation,
    /// A write named an archive that the overlay registry does not hold.
    OverlayNotFound { archive: String },
    /// The overlay could not serve the request; `cause` is its own account.
    OverlayIoError { cause: String },
    /// The native loader could not map the image.
    NativeLoadError,
    /// A file of the mod could not be opened or read; `error` is the
    /// file system's own error.
    FileIoError { error: std::io::Error },
}

impl BridgeError {
    /// The text that the mod's author gets to see, where the bridge or the
    /// overlay words it. A failure of the file system is worded by the
    /// operating system.
    ///
    /// For a mod that is not trusted the text says how trust is switched on.
    pub open spec fn text(&self) -> Option<Seq<char>> {
        match self {
            BridgeError::TrustError => Some(
                "cannot call load_mod_dll if mod is not trusted! if you want to trust this mod, add `trusted = true` to the mod's configuration section"@,
            ),
            BridgeError::SandboxViolation => Some("cannot read files outside of mod directory"@),
            BridgeError::OverlayNotFound { archive } => Some("no such dat file: "@ + archive@),
            BridgeError::OverlayIoError { cause } => Some(cause@),
            BridgeError::NativeLoadError => Some("could not load library"@),
            BridgeError::FileIoError { error } => None,
        }
    }

    /// Renders the failure as the message raised in the script.
    pub fn message(&self) -> (msg: String)
        ensures
            self.text() matches Some(text) ==> msg@ == text,
    {
        match self {
            BridgeError::TrustError => String::from_str(
                "cannot call load_mod_dll if mod is not trusted! if you want to trust this mod, add `trusted = true` to the mod's configuration section",
            ),
            BridgeError::SandboxViolation => String::from_str(
                "cannot read files outside of mod directory",
            ),
            BridgeError::OverlayNotFound { archive } => String::from_str(
                "no such dat file: ",
            ).concat(archive.as_str()),
            BridgeError::OverlayIoError { cause } => cause.clone(),
            BridgeError::NativeLoadError => String::from_str("could not load library"),
            BridgeError::FileIoError { error } => io_error_text(error),
        }
    }
}

} // verus!
