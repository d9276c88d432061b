//! Resolution of on-disk locations from a lease identity.
//!
//! A `local:<host>` lease lives under the per-user runtime directory; any
//! other lease under `<home>/runs/`.  The two base directories come from
//! the process environment, which the surrounding program reads; the
//! decisions here work on the values it hands over.

use vstd::prelude::*;
use crate::strutil::append_str;

verus! {

/// Whether a lease identifier names a local (single-host) lease.
pub open spec fn spec_is_local_lease(id: Seq<char>) -> bool {
    "local:"@.is_prefix_of(id)
}

/// Decides whether a lease identifier names a local lease.
pub fn is_local_lease(lease_id: &str) -> (r: bool)
    ensures
        r == spec_is_local_lease(lease_id@),
{
    crate::strutil::str_starts_with(lease_id, "local:")
}

/// The lease identifier of the local lease on a host.
pub open spec fn spec_local_lease_id(hostname: Seq<char>) -> Seq<char> {
    "local:"@ + hostname
}

/// Builds the local lease identifier for a host.
pub fn local_lease_id(hostname: &str) -> (r: String)
    ensures
        r@ == spec_local_lease_id(hostname@),
        spec_is_local_lease(r@),
{
    let mut s = String::new();
    append_str(&mut s, "local:");
    append_str(&mut s, hostname);
    proof {
        assert("local:"@.is_prefix_of(s@)) by {
            assert(s@.subrange(0, "local:"@.len() as int) =~= "local:"@);
        }
    }
    s
}

/// Where a lease's root directory lies: a local lease under the runtime
/// base, any other under `<home>/runs/`.
pub open spec fn spec_lease_root(
    runtime_base: Seq<char>,
    home_base: Seq<char>,
    id: Seq<char>,
) -> Seq<char> {
    if spec_is_local_lease(id) {
        runtime_base + "/"@ + id
    } else {
        home_base + "/runs/"@ + id
    }
}

/// Builds the path of a lease's root directory.
pub fn lease_root_path(runtime_base: &str, home_base: &str, lease_id: &str) -> (r: String)
    ensures
        r@ == spec_lease_root(runtime_base@, home_base@, lease_id@),
{
    let mut s = String::new();
    if is_local_lease(lease_id) {
        append_str(&mut s, runtime_base);
        append_str(&mut s, "/");
    } else {
        append_str(&mut s, home_base);
        append_str(&mut s, "/runs/");
    }
    append_str(&mut s, lease_id);
    s
}

/// The pidfile the daemon supervisor writes, under the runtime base.
pub fn pid_file(runtime_base: &str) -> (r: String)
    ensures
        r@ == runtime_base@ + "/daemon.pid"@,
{
    let mut s = String::new();
    append_str(&mut s, runtime_base);
    append_str(&mut s, "/daemon.pid");
    s
}

/// The logfile the daemon supervisor writes, under the runtime base.
pub fn log_file(runtime_base: &str) -> (r: String)
    ensures
        r@ == runtime_base@ + "/daemon.log"@,
{
    let mut s = String::new();
    append_str(&mut s, runtime_base);
    append_str(&mut s, "/daemon.log");
    s
}

} // verus!
