//! An engine and what was derived from it, held as one value.

use crate::engine::Store;
use std::ops::Deref;
use std::sync::Arc;
use vstd::prelude::*;

verus! {

/// An engine together with the tables (or whatever else) that were opened from
/// it. The two are released together, the tables first and the engine after
/// them: the fields are dropped in the order in which they stand.
pub struct Tables<S, T> {
    /// What was opened from the engine.
    pub table: T,
    /// The engine, shared with whatever in `table` holds on to it.
    pub store: Arc<S>,
}

impl<S: Store, T> Tables<S, T> {
    /// Takes the engine over, and opens from it what `make` opens. Where `make`
    /// fails, the engine is released and the failure handed on.
    pub fn new<F: FnOnce(&Arc<S>, &S::Config) -> Result<T, S::Error>>(
        store: S,
        cfg: &S::Config,
        make: F,
    ) -> (out: Result<Tables<S, T>, S::Error>)
        requires
            forall|shared: Arc<S>| *shared == store ==> #[trigger] call_requires(make, (&shared, cfg)),
        ensures
            exists|shared: Arc<S>, made: Result<T, S::Error>|
                #![trigger call_ensures(make, (&shared, cfg), made)]
                {
                    &&& *shared == store
                    &&& call_ensures(make, (&shared, cfg), made)
                    &&& match made {
                        Ok(t) => out matches Ok(both) && both.store == shared && both.table == t,
                        Err(e) => out matches Err(x) && x == e,
                    }
                },
    {
        let store = Arc::new(store);
        match make(&store, cfg) {
            Ok(table) => Ok(Tables { table, store }),
            Err(e) => Err(e),
        }
    }
}

impl<S: Store, T> Deref for Tables<S, T> {
    type Target = T;

    fn deref(&self) -> (out: &T)
        ensures
            *out == self.table,
    {
        &self.table
    }
}

} // verus!
