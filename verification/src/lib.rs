//! Access-controlled registry of references to encrypted files.
//!
//! An owner registers a file: a content identifier and an encrypted key.
//! The owner grants and revokes time-bounded access to other identities, and
//! a grantee must have a proof verified before the key is released to them.
//!
//! The library reads no clock and authenticates nobody. Every operation
//! takes the caller's identity and the present instant as arguments: they
//! are the host's to supply.

pub mod access;
pub mod bytes;
pub mod codec;
pub mod error;
pub mod file;
pub mod identity;
pub mod laws;
pub mod registry;
pub mod verification;

pub use access::{grant_access, revoke_access, AccessGrant};
pub use error::{DecodeError, Error, Field, Missing};
pub use file::File;
pub use identity::Identity;
pub use registry::{initialize_file, update_file, FileHandle, GrantHandle, Registry};
pub use verification::{record_verdict, verify_proof};
