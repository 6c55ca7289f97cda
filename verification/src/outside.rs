//! Types of other crates that values of this library carry without
//! looking inside them.

use vstd::prelude::*;

verus! {

/// `std::io::Error`, carried by error variants that wrap an I/O failure.
#[verifier::external_type_specification]
#[verifier::external_body]
pub struct ExIoError(std::io::Error);

/// `rtnetlink::Error`, carried by error variants that wrap a netlink failure.
#[verifier::external_type_specification]
#[verifier::external_body]
pub struct ExNetlinkError(rtnetlink::Error);

/// `nix::errno::Errno` (`nix::Error`), carried by error variants that wrap a
/// failed system call.
#[verifier::external_type_specification]
#[verifier::external_body]
pub struct ExErrno(nix::errno::Errno);

/// `rtnetlink::Handle`, the netlink connection handle that managers keep.
#[verifier::external_type_specification]
#[verifier::external_body]
pub struct ExNetlinkHandle(rtnetlink::Handle);

/// `serde_json::Error`, carried by error variants that wrap a failed
/// serialisation.
#[verifier::external_type_specification]
#[verifier::external_body]
pub struct ExJsonError(serde_json::Error);

/// `anyhow::Error`, carried by error variants that wrap a failed export.
#[verifier::external_type_specification]
#[verifier::external_body]
pub struct ExAnyhowError(anyhow::Error);

} // verus!
