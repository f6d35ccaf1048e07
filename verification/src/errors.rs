//! Failure categories of the synchronization engine, one closed variant per
//! category, each carrying the context a diagnostic needs.

use vstd::prelude::*;

use crate::strutil::dec_of;
use crate::strutil::to_decimal;

verus! {

/// What went wrong, by category. Network and filesystem failures are the
/// caller's to report; these are the failures the engine itself decides.
#[derive(Debug, PartialEq, Eq)]
pub enum SyncError {
    /// A manifest line is not `{from},{to},{hash}` with a hash of at least
    /// four characters.
    ManifestParse,
    /// The manifest holds no applicable restore point: the local database is
    /// outside everything the manifest covers.
    NoRestorePoints,
    /// The previous-hash anchor read from the database does not match the
    /// published hash prefix of the restore point starting at that layer.
    HashMismatch { found: String, from: u32, to: u32, hash: String },
    /// The server answered a resumable request with a success status other
    /// than 206 Partial Content.
    NotResumable { status: String },
    /// The server refused a download outright.
    RemoteFailure { url: String, status: String, detail: String },
}

/// The diagnostic line for each failure.
pub open spec fn message_spec(e: SyncError) -> Seq<char> {
    match e {
        SyncError::ManifestParse => "malformed restore point in manifest"@,
        SyncError::NoRestorePoints => "No suitable restore points found, seems that state.sql is too old"@,
        SyncError::HashMismatch { found, from, to, hash } => "unexpected hash: '"@ + found@
            + "' doesn't match restore point "@ + dec_of(from as nat) + ","@ + dec_of(to as nat)
            + ","@ + hash@,
        SyncError::NotResumable { status } => "expected 206 Partial Content, but got "@ + status@,
        SyncError::RemoteFailure { url, status, detail } => "failed to download from "@ + url@
            + ": "@ + status@ + " "@ + detail@,
    }
}

impl SyncError {
    /// Renders the diagnostic line.
    pub fn message(&self) -> (r: String)
        ensures
            r@ == message_spec(*self),
    {
        match self {
            SyncError::ManifestParse => {
                let mut r = String::new();
                r.append("malformed restore point in manifest");
                proof {
                    assert(r@ =~= message_spec(*self));
                }
                r
            },
            SyncError::NoRestorePoints => {
                let mut r = String::new();
                r.append("No suitable restore points found, seems that state.sql is too old");
                proof {
                    assert(r@ =~= message_spec(*self));
                }
                r
            },
            SyncError::HashMismatch { found, from, to, hash } => {
                let mut r = String::new();
                r.append("unexpected hash: '");
                r.append(found.as_str());
                r.append("' doesn't match restore point ");
                let from_str = to_decimal(*from as u64);
                r.append(from_str.as_str());
                r.append(",");
                let to_str = to_decimal(*to as u64);
                r.append(to_str.as_str());
                r.append(",");
                r.append(hash.as_str());
                proof {
                    assert(r@ =~= message_spec(*self));
                }
                r
            },
            SyncError::NotResumable { status } => {
                let mut r = String::new();
                r.append("expected 206 Partial Content, but got ");
                r.append(status.as_str());
                proof {
                    assert(r@ =~= message_spec(*self));
                }
                r
            },
            SyncError::RemoteFailure { url, status, detail } => {
                let mut r = String::new();
                r.append("failed to download from ");
                r.append(url.as_str());
                r.append(": ");
                r.append(status.as_str());
                r.append(" ");
                r.append(detail.as_str());
                proof {
                    assert(r@ =~= message_spec(*self));
                }
                r
            },
        }
    }
}

} // verus!
