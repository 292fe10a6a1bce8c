//! Builder to prepare search execution.

use std::marker::PhantomData;
use vstd::prelude::*;

verus! {

/// Marks the collector of a `Params`.
pub struct Collector<T>(pub T);

/// Marks the handler of a `Params`.
pub struct Handler<T>(pub T);

/// Builder to prepare search execution: a query, the collector that
/// accumulates what the query matches, and the handler that turns what was
/// accumulated into the result.
pub struct Params<Q, C, H> {
    pub query: Q,
    pub collector: C,
    pub handler: H,
}

impl Default for Params<(), (), ()> {
    fn default() -> (params: Params<(), (), ()>)
        ensures
            params == (Params { query: (), collector: (), handler: () }),
    {
        Params { query: (), collector: (), handler: () }
    }
}

impl<Q, C, H> Params<Q, C, H> {
    /// Sets the query; collector and handler stay.
    pub fn with_query<N>(self, query: N) -> (params: Params<N, C, H>)
        ensures
            params.query == query,
            params.collector == self.collector,
            params.handler == self.handler,
    {
        Params { query, collector: self.collector, handler: self.handler }
    }
}

impl<Q> Params<Q, (), ()> {
    /// Sets the handler before the collector, whose type `C` the handler
    /// takes the fruit of; the query stays.
    pub fn with_handler<C, N>(self, handler: N) -> (params: Params<Q, PhantomData<C>, Handler<N>>)
        ensures
            params.query == self.query,
            params.handler.0 == handler,
    {
        Params { query: self.query, collector: PhantomData, handler: Handler(handler) }
    }

    /// Sets the collector; the query stays.
    pub fn with_collector<N>(self, collector: N) -> (params: Params<Q, Collector<N>, ()>)
        ensures
            params.query == self.query,
            params.collector.0 == collector,
    {
        Params { query: self.query, collector: Collector(collector), handler: () }
    }
}

impl<Q, C> Params<Q, Collector<C>, ()> {
    /// Sets the handler; query and collector stay.
    pub fn with_handler<N>(self, handler: N) -> (params: Params<Q, Collector<C>, Handler<N>>)
        ensures
            params.query == self.query,
            params.collector == self.collector,
            params.handler.0 == handler,
    {
        Params { query: self.query, collector: self.collector, handler: Handler(handler) }
    }
}

impl<Q, N, H> Params<Q, PhantomData<N>, Handler<H>> {
    /// Sets the collector that the handler was waiting for; query and
    /// handler stay.
    pub fn with_collector(self, collector: N) -> (params: Params<Q, Collector<N>, Handler<H>>)
        ensures
            params.query == self.query,
            params.collector.0 == collector,
            params.handler == self.handler,
    {
        Params { query: self.query, collector: Collector(collector), handler: self.handler }
    }
}

} // verus!
