//! The context as every connection shares it: one lock over the whole
//! map, no per-key locking.

use vstd::prelude::*;

use std::sync::Arc;
use std::sync::Mutex;

use crate::utils::context::Context;

verus! {

/// The Rust standard mutex, declared so that the shared context can be
/// named in signatures. What it guards is opaque to the library: the
/// session loop locks it around one store operation at a time.
#[verifier::external_type_specification]
#[verifier::external_body]
#[verifier::reject_recursive_types(T)]
pub struct ExMutex<T: ?Sized>(Mutex<T>);

/// One context behind one lock, shared by every connection.
pub type SharedContext = Arc<Mutex<Context>>;

/// Relies on std::sync::Arc::new and std::sync::Mutex::new: wraps the
/// context for sharing across connections. Nothing is stated of the
/// wrapped value, which only locking can reach.
#[verifier::external_body]
pub fn create_shared_context(context: Context) -> SharedContext {
    Arc::new(Mutex::new(context))
}

} // verus!
