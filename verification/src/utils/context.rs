//! The per-request context: the store and the configuration, passed by
//! reference to every command execution.

use vstd::prelude::*;

use crate::models::value::EntryVal;
use crate::utils::config::Config;
use crate::utils::config::ConfigVal;
use crate::utils::store::create_store;
use crate::utils::store::Store;

verus! {

/// Everything a command may read or change: the shared store and the
/// startup configuration.
pub struct Context {
    pub store: Store,
    pub config: Config,
}

/// The mathematical abstraction of a `Context`.
pub struct CtxVal {
    pub store: Map<Seq<char>, EntryVal>,
    pub config: ConfigVal,
}

impl View for Context {
    type V = CtxVal;

    open spec fn view(&self) -> CtxVal {
        CtxVal { store: self.store@, config: self.config.deep_view() }
    }
}

impl Context {
    /// Wraps a store and a configuration.
    pub fn new(store: Store, config: Config) -> (r: Self)
        ensures
            r@.store == store@,
            r@.config == config.deep_view(),
    {
        Self { store, config }
    }
}

impl Default for Context {
    /// An empty store under the default configuration.
    fn default() -> (r: Self)
        ensures
            r@.store == Map::<Seq<char>, EntryVal>::empty(),
            r@.config == ConfigVal::spec_default(),
    {
        Self { store: create_store(), config: Config::default() }
    }
}

} // verus!
