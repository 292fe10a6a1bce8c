//! Collectors, and the items that function as search parameters.

use crate::err::StoreError;
use crate::search::params::{Collector, Handler};
use crate::search::scored_ids::ranked;
use crate::search::{AsQuery, Params, QueryContainer, Results, ScoredId, ScoredIds};
use crate::store::model::{undecodable, unparsed};
use crate::store::{DocumentLike, Store};
use tantivy::schema::Field;
use vstd::prelude::*;

verus! {

/// What a search accumulates from the matches of a query.
pub trait Collect {
    /// What the collector returns.
    type Fruit;

    /// What the collector makes of `count` matching documents, of which
    /// `matches` carry an identifier, given in the order of results.
    fn fruit(&self, count: usize, matches: &Vec<ScoredId>) -> Self::Fruit;
}

/// Collects the number of documents that match.
pub struct Count;

impl Collect for Count {
    type Fruit = usize;

    fn fruit(&self, count: usize, matches: &Vec<ScoredId>) -> (fruit: usize)
        ensures
            fruit == count,
    {
        count
    }
}

impl Collect for ScoredIds {
    type Fruit = Vec<ScoredId>;

    fn fruit(&self, count: usize, matches: &Vec<ScoredId>) -> (fruit: Vec<ScoredId>)
        ensures
            fruit@ == matches@,
    {
        matches.clone()
    }
}

impl<A: Collect, B: Collect> Collect for (A, B) {
    type Fruit = (A::Fruit, B::Fruit);

    fn fruit(&self, count: usize, matches: &Vec<ScoredId>) -> (fruit: (A::Fruit, B::Fruit))
        ensures
            call_ensures(A::fruit, (&self.0, count, matches), fruit.0),
            call_ensures(B::fruit, (&self.1, count, matches), fruit.1),
    {
        (self.0.fruit(count, matches), self.1.fruit(count, matches))
    }
}

/// Whether `r` is what `handler` may return for what `collector` may make
/// of some matches that are in the order of results.
pub open spec fn handled<C: Collect, H: Fn(C::Fruit) -> Result<O, E>, O, E>(
    collector: C,
    handler: H,
    r: Result<O, E>,
) -> bool {
    exists|count: usize, matches: Vec<ScoredId>, fruit: C::Fruit|
        ranked(matches@) && #[trigger] call_ensures(C::fruit, (&collector, count, &matches), fruit)
            && call_ensures(handler, (fruit,), r)
}

/// Whether `e` may come out where the store's failure `cause` is turned
/// into a failure of the kind `E`.
pub open spec fn turned<E: From<StoreError>>(cause: StoreError, e: E) -> bool {
    call_ensures(E::from, (cause,), e)
}

/// Whether `r` is the failure of a search that was not answered: the
/// failure with which `query` cannot be built over `index` and the default
/// search fields `fields`, or a failure of the search engine, turned into a
/// failure of the kind `E`.
pub open spec fn unanswered<Q: AsQuery, O, E: From<StoreError>>(
    query: &Q,
    index: tantivy::Index,
    fields: Seq<Field>,
    r: Result<O, E>,
) -> bool {
    r matches Err(e) && exists|cause: StoreError|
        (cause is Tantivy || unparsed(query, index, fields, cause)) && #[trigger] turned(cause, e)
}

impl<Q, C: Collect, H> Params<Q, Collector<C>, Handler<H>> {
    /// What the search answers for what the engine has matched: what the
    /// handler returns for what the collector makes of `count` matching
    /// documents, of which `matches` carry an identifier.
    pub fn answer<O, E>(&self, count: usize, matches: &Vec<ScoredId>) -> (r: Result<O, E>) where
        H: Fn(C::Fruit) -> Result<O, E>,
        requires
            forall|fruit: C::Fruit| call_requires(self.handler.0, (fruit,)),
        ensures
            exists|fruit: C::Fruit|
                call_ensures(C::fruit, (&self.collector.0, count, matches), fruit) && call_ensures(
                    self.handler.0,
                    (fruit,),
                    r,
                ),
    {
        let fruit: C::Fruit = self.collector.0.fruit(count, matches);
        (self.handler.0)(fruit)
    }
}

/// Items that function as search parameters.
pub trait Searcher<T: DocumentLike> {
    /// What the search returns.
    type Item;

    /// How the search fails.
    type Error;

    /// Whether the search can be run: its handler takes whatever its
    /// collector returns.
    open spec fn runnable(&self) -> bool {
        true
    }

    /// Runs the search on `store`.
    fn search(&self, store: &Store<T>) -> (r: Result<Self::Item, Self::Error>)
        requires
            self.runnable(),
    ;
}

impl<Q, C, H, O, E, T> Searcher<T> for Params<Q, Collector<C>, Handler<H>> where
    Q: AsQuery,
    C: Collect,
    H: Fn(C::Fruit) -> Result<O, E>,
    E: From<StoreError>,
    T: DocumentLike,
{
    type Item = O;

    type Error = E;

    open spec fn runnable(&self) -> bool {
        forall|fruit: C::Fruit| call_requires(self.handler.0, (fruit,))
    }

    /// Runs the query, hands what it matches to the collector, and what
    /// the collector returns to the handler. Where the query cannot be
    /// built or the engine fails, the search fails with that failure turned
    /// into the handler's kind of failure, and the handler is not asked.
    /// Else what comes back is what `answer` gives for what the engine has
    /// matched, in the order of results.
    fn search(&self, store: &Store<T>) -> (r: Result<O, E>)
        ensures
            handled(self.collector.0, self.handler.0, r) || unanswered(
                &self.query,
                store.search_index().spec_inner(),
                store.search_index().spec_default_search_fields(),
                r,
            ),
    {
        let query: QueryContainer = match self.query.as_query(
            store.index().inner(),
            store.index().default_search_fields(),
        ) {
            Ok(query) => query,
            Err(e) => {
                let ghost cause = e;
                let converted: E = E::from(e);
                proof {
                    assert(unparsed(
                        &self.query,
                        store.search_index().spec_inner(),
                        store.search_index().spec_default_search_fields(),
                        cause,
                    ));
                    assert(turned(cause, converted));
                    assert(Err::<O, E>(converted) matches Err(e) && e == converted);
                }
                return Err(converted);
            },
        };
        let (count, scored_ids) = match store.index().matches(&query) {
            Ok(found) => found,
            Err(e) => {
                let ghost cause = e;
                let converted: E = E::from(e);
                proof {
                    assert(turned(cause, converted));
                    assert(Err::<O, E>(converted) matches Err(e) && e == converted);
                }
                return Err(converted);
            },
        };
        self.answer(count, &scored_ids)
    }
}

impl<Q, T> Searcher<T> for Q where Q: AsQuery, T: DocumentLike {
    type Item = Results<T>;

    type Error = StoreError;

    /// Runs the query and returns the documents that it matches, as
    /// `Store::query` does. It fails where the query cannot be built, with
    /// the failure that the query gives; where one of the two engines
    /// fails; and where a record that is matched cannot be decoded.
    fn search(&self, store: &Store<T>) -> (r: Result<Results<T>, StoreError>)
        ensures
            Store::searched(*store, r),
            r matches Err(e) ==> e is Sled || e is Tantivy || undecodable::<T>(store.records(), e)
                || unparsed(
                self,
                store.search_index().spec_inner(),
                store.search_index().spec_default_search_fields(),
                e,
            ),
    {
        store.query(self)
    }
}

} // verus!
