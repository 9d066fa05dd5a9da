//! A flag shared between threads that asks a search to stop.

use vstd::prelude::*;
use std::sync::Arc;
use std::sync::atomic::{AtomicBool, Ordering};

verus! {

/// A new flag, not raised.
pub(crate) fn new_flag() -> Arc<AtomicBool> {
    Arc::new(AtomicBool::new(false))
}

/// Another handle on the same flag.
///
/// Trusted: calls `Arc::clone`, which std documents as making another
/// pointer to the same allocation; nothing is stated of the result.
#[verifier::external_body]
pub(crate) fn share_flag(flag: &Arc<AtomicBool>) -> Arc<AtomicBool> {
    Arc::clone(flag)
}

/// Whether the flag is raised; another thread may raise it at any time.
///
/// Trusted: calls `AtomicBool::load` through the `Arc`; nothing is stated
/// of the result.
#[verifier::external_body]
pub(crate) fn flag_is_raised(flag: &Arc<AtomicBool>) -> bool {
    flag.load(Ordering::Relaxed)
}

/// Raises the flag.
///
/// Trusted: calls `AtomicBool::store` through the `Arc`.
#[verifier::external_body]
pub(crate) fn raise_flag(flag: &Arc<AtomicBool>) {
    flag.store(true, Ordering::Relaxed);
}

} // verus!
