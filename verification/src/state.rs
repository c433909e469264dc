//! The state that the whole server shares.

use crate::cache::RequestCache;
use crate::extensions::ExtensionCache;
use vstd::prelude::*;

verus! {

/// The request cache and the registry of listeners.
pub struct RuntimeState<R> {
    pub req_cache: RequestCache<R>,
    pub ext_cache: ExtensionCache,
}

impl<R> RuntimeState<R> {
    /// The state is sound when its request cache is.
    pub open spec fn wf(&self) -> bool {
        self.req_cache.wf()
    }

    /// The state of a server that has seen no request and no listener.
    pub fn new() -> (state: RuntimeState<R>)
        ensures
            state.wf(),
            state.req_cache@.entries == Map::<Seq<char>, crate::cache::EntryView<R>>::empty(),
            state.req_cache@.next_api_id == 0,
            state.ext_cache@ == Seq::<(u64, Seq<char>)>::empty(),
    {
        RuntimeState { req_cache: RequestCache::new(), ext_cache: ExtensionCache::new() }
    }
}

} // verus!
