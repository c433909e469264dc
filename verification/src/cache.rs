//! The request cache: for each function that has been asked for, the
//! identifier of its control-plane endpoint, whether its process is up, and
//! the requests that wait for it.

use crate::names::{is_valid_function_name, same_text, valid_function_name};
use crate::request::InvokeRequest;
use std::collections::VecDeque;
use vstd::prelude::*;
use vstd::string::*;

verus! {

/// How far the process behind a function has come.
#[derive(Clone, Copy, Debug, PartialEq, Eq, Structural)]
pub enum Liveness {
    /// The cache holds nothing for the function.
    NotStarted,
    /// A process was asked for and has not reported yet.
    Starting,
    /// The process is up.
    Running,
}

/// Why the cache turned a request down.
#[derive(Clone, Copy, Debug, PartialEq, Eq, Structural)]
pub enum CacheError {
    /// The function's name is not well formed.
    InvalidFunction,
    /// The function would need an endpoint identifier and none is left.
    CacheFull,
}

/// What the cache holds for one function.
pub struct EntryView<R> {
    /// Identifier of the function's control-plane endpoint.
    pub api_id: u64,
    /// Whether the process has reported.
    pub running: bool,
    /// The waiting requests, oldest first.
    pub queue: Seq<InvokeRequest<R>>,
}

/// The cache as a map from function names to entries, with the identifier
/// that the next new function gets.
pub struct CacheView<R> {
    pub entries: Map<Seq<char>, EntryView<R>>,
    pub next_api_id: u64,
}

/// The outcome of an upsert, over the characters of the function's name.
pub type UpsertOutcome = Result<Option<(Seq<char>, u64)>, CacheError>;

impl<R> CacheView<R> {
    /// Every name is well formed, and every identifier was handed out
    /// before the next one and belongs to one function only.
    pub open spec fn inv(self) -> bool {
        &&& self.entries.dom().finite()
        &&& forall|n: Seq<char>| #[trigger]
            self.entries.contains_key(n) ==> valid_function_name(n) && self.entries[n].api_id
                < self.next_api_id
        &&& forall|n: Seq<char>, m: Seq<char>|
            #![trigger self.entries[n], self.entries[m]]
            self.entries.contains_key(n) && self.entries.contains_key(m) && self.entries[n].api_id
                == self.entries[m].api_id ==> n == m
    }

    /// How far the function `name` has come.
    pub open spec fn liveness(self, name: Seq<char>) -> Liveness {
        if !self.entries.contains_key(name) {
            Liveness::NotStarted
        } else if self.entries[name].running {
            Liveness::Running
        } else {
            Liveness::Starting
        }
    }

    /// The requests that wait for the function `name`, oldest first.
    pub open spec fn queue(self, name: Seq<char>) -> Seq<InvokeRequest<R>> {
        if self.entries.contains_key(name) {
            self.entries[name].queue
        } else {
            Seq::empty()
        }
    }

    /// What an upsert for the function `name` answers: an error for a
    /// malformed name, and for a new function when no identifier is left;
    /// the name and its fresh identifier for a new function; nothing for a
    /// function that the cache already holds.
    pub open spec fn upsert_outcome(self, name: Seq<char>) -> UpsertOutcome {
        if !valid_function_name(name) {
            Err(CacheError::InvalidFunction)
        } else if self.entries.contains_key(name) {
            Ok(None)
        } else if self.next_api_id == u64::MAX {
            Err(CacheError::CacheFull)
        } else {
            Ok(Some((name, self.next_api_id)))
        }
    }

    /// The cache after an upsert of `req`: unchanged on an error; else the
    /// request stands last in its function's queue, which is new, starting
    /// and under a fresh identifier where the cache did not hold the
    /// function.
    pub open spec fn upsert(self, req: InvokeRequest<R>) -> CacheView<R> {
        let name = req.function_name@;
        match self.upsert_outcome(name) {
            Err(_) => self,
            Ok(None) => CacheView {
                entries: self.entries.insert(
                    name,
                    EntryView { queue: self.entries[name].queue.push(req), ..self.entries[name] },
                ),
                next_api_id: self.next_api_id,
            },
            Ok(Some((_, api_id))) => CacheView {
                entries: self.entries.insert(
                    name,
                    EntryView { api_id, running: false, queue: seq![req] },
                ),
                next_api_id: (self.next_api_id + 1) as u64,
            },
        }
    }

    /// The cache without the function `name`.
    pub open spec fn clean(self, name: Seq<char>) -> CacheView<R> {
        CacheView { entries: self.entries.remove(name), next_api_id: self.next_api_id }
    }

    /// The cache after the function `name` has reported.
    pub open spec fn mark_running(self, name: Seq<char>) -> CacheView<R> {
        if self.entries.contains_key(name) {
            CacheView {
                entries: self.entries.insert(
                    name,
                    EntryView { running: true, ..self.entries[name] },
                ),
                next_api_id: self.next_api_id,
            }
        } else {
            self
        }
    }

    /// The cache after the oldest request for the function `name` was
    /// taken out.
    pub open spec fn pop(self, name: Seq<char>) -> CacheView<R> {
        if self.queue(name).len() > 0 {
            CacheView {
                entries: self.entries.insert(
                    name,
                    EntryView { queue: self.queue(name).drop_first(), ..self.entries[name] },
                ),
                next_api_id: self.next_api_id,
            }
        } else {
            self
        }
    }
}

/// The outcome of an upsert as the cache hands it out, over the characters
/// of the name.
pub open spec fn outcome_view(res: Result<Option<(String, u64)>, CacheError>) -> UpsertOutcome {
    match res {
        Ok(Some((name, api_id))) => Ok(Some((name@, api_id))),
        Ok(None) => Ok(None),
        Err(e) => Err(e),
    }
}

/// One function's entry.
struct CacheEntry<R> {
    name: String,
    api_id: u64,
    running: bool,
    queue: VecDeque<InvokeRequest<R>>,
}

impl<R> View for CacheEntry<R> {
    type V = EntryView<R>;

    closed spec fn view(&self) -> EntryView<R> {
        EntryView { api_id: self.api_id, running: self.running, queue: self.queue@ }
    }
}

/// The request cache. Each function has at most one entry, so at most one
/// process is ever asked for on its behalf until the entry is cleaned.
pub struct RequestCache<R> {
    entries: Vec<CacheEntry<R>>,
    next_api_id: u64,
}

impl<R> View for RequestCache<R> {
    type V = CacheView<R>;

    closed spec fn view(&self) -> CacheView<R> {
        CacheView {
            entries: Map::new(
                |n: Seq<char>| self.holds(n),
                |n: Seq<char>| self.entries[self.position(n)]@,
            ),
            next_api_id: self.next_api_id,
        }
    }
}

impl<R> RequestCache<R> {
    /// Whether some entry is that of the function `name`.
    closed spec fn holds(&self, name: Seq<char>) -> bool {
        exists|i: int| 0 <= i < self.entries.len() && (#[trigger] self.entries[i]).name@ == name
    }

    /// Where the entry of the function `name` stands.
    closed spec fn position(&self, name: Seq<char>) -> int {
        choose|i: int| 0 <= i < self.entries.len() && (#[trigger] self.entries[i]).name@ == name
    }

    /// No two entries share a name or an identifier, every name is well
    /// formed, and every identifier was handed out before the next one.
    pub closed spec fn wf(&self) -> bool {
        &&& forall|i: int, j: int|
            0 <= i < j < self.entries.len() ==> (#[trigger] self.entries[i]).name@ != (
            #[trigger] self.entries[j]).name@
        &&& forall|i: int, j: int|
            0 <= i < j < self.entries.len() ==> (#[trigger] self.entries[i]).api_id != (
            #[trigger] self.entries[j]).api_id
        &&& forall|i: int|
            0 <= i < self.entries.len() ==> valid_function_name(
                (#[trigger] self.entries[i]).name@,
            ) && self.entries[i].api_id < self.next_api_id
    }

    /// The entry of a name is the one entry that carries it.
    proof fn lemma_position(&self, i: int)
        requires
            self.wf(),
            0 <= i < self.entries.len(),
        ensures
            self.holds(self.entries[i].name@),
            self.position(self.entries[i].name@) == i,
            self@.entries.contains_key(self.entries[i].name@),
            self@.entries[self.entries[i].name@] == self.entries[i]@,
    {
        let name = self.entries[i].name@;
        assert(self.holds(name));
        let p = self.position(name);
        assert(0 <= p < self.entries.len() && self.entries[p].name@ == name);
        if p < i {
            assert(self.entries[p].name@ != self.entries[i].name@);
        } else if i < p {
            assert(self.entries[i].name@ != self.entries[p].name@);
        }
    }

    /// Where the cache holds a name, its position is that of an entry with
    /// that name.
    proof fn lemma_holds(&self, name: Seq<char>)
        requires
            self.holds(name),
        ensures
            0 <= self.position(name) < self.entries.len(),
            self.entries[self.position(name)].name@ == name,
    {
    }

    /// A well-formed cache has a view that keeps the view's invariant.
    pub proof fn lemma_view_inv(&self)
        requires
            self.wf(),
        ensures
            self@.inv(),
    {
        let view = self@;
        let names = Set::new(|n: Seq<char>| self.holds(n));
        assert(view.entries.dom() =~= names);
        self.lemma_names_counted(self.entries.len() as int);
        assert(names =~= self.names_below(self.entries.len() as int)) by {
            assert forall|n: Seq<char>| names.contains(n) implies self.names_below(
                self.entries.len() as int,
            ).contains(n) by {
                self.lemma_holds(n);
            }
        }
        assert forall|n: Seq<char>| #[trigger] view.entries.contains_key(n) implies valid_function_name(
            n,
        ) && view.entries[n].api_id < view.next_api_id by {
            self.lemma_holds(n);
        }
        assert forall|n: Seq<char>, m: Seq<char>|
            #![trigger view.entries[n], view.entries[m]]
            view.entries.contains_key(n) && view.entries.contains_key(m) && view.entries[n].api_id
                == view.entries[m].api_id implies n == m by {
            self.lemma_holds(n);
            self.lemma_holds(m);
            let i = self.position(n);
            let j = self.position(m);
            if i < j {
                assert(self.entries[i].api_id != self.entries[j].api_id);
            } else if j < i {
                assert(self.entries[j].api_id != self.entries[i].api_id);
            }
        }
    }

    /// The names of the first `k` entries.
    closed spec fn names_below(&self, k: int) -> Set<Seq<char>> {
        Set::new(
            |n: Seq<char>|
                exists|i: int| 0 <= i < k && i < self.entries.len() && (
                #[trigger] self.entries[i]).name@ == n,
        )
    }

    /// An empty cache, whose first function gets the identifier 0.
    pub fn new() -> (cache: RequestCache<R>)
        ensures
            cache.wf(),
            cache@.entries == Map::<Seq<char>, EntryView<R>>::empty(),
            cache@.next_api_id == 0,
    {
        RequestCache::starting_at(0)
    }

    /// An empty cache, whose first function gets the identifier `first`.
    pub fn starting_at(first: u64) -> (cache: RequestCache<R>)
        ensures
            cache.wf(),
            cache@.entries == Map::<Seq<char>, EntryView<R>>::empty(),
            cache@.next_api_id == first,
    {
        let cache = RequestCache { entries: Vec::new(), next_api_id: first };
        assert(cache@.entries =~= Map::<Seq<char>, EntryView<R>>::empty());
        cache
    }

    /// Where the entry of the function `name` stands, if there is one.
    fn find(&self, name: &str) -> (found: Option<usize>)
        requires
            self.wf(),
        ensures
            match found {
                Some(i) => i < self.entries.len() && self.entries[i as int].name@ == name@
                    && self@.entries.contains_key(name@) && self@.entries[name@]
                    == self.entries[i as int]@,
                None => !self@.entries.contains_key(name@),
            },
    {
        let mut i: usize = 0;
        while i < self.entries.len()
            invariant
                self.wf(),
                i <= self.entries.len(),
                forall|j: int| 0 <= j < i ==> (#[trigger] self.entries[j]).name@ != name@,
            decreases self.entries.len() - i,
        {
            if same_text(self.entries[i].name.as_str(), name) {
                proof {
                    self.lemma_position(i as int);
                }
                return Some(i);
            }
            i += 1;
        }
        assert(!self.holds(name@));
        None
    }
}

impl<R> RequestCache<R> {
    /// Puts `req` into the queue of its function.
    ///
    /// A malformed name is turned down, and so is a new function when no
    /// identifier is left; the cache then stays as it was. For a function
    /// that the cache does not hold yet, the answer is the function's name
    /// with a fresh identifier: the order to start exactly one process for
    /// it. For a function that is starting or running, the request is only
    /// queued and the answer is `None`.
    pub fn upsert(&mut self, req: InvokeRequest<R>) -> (res: Result<
        Option<(String, u64)>,
        CacheError,
    >)
        requires
            old(self).wf(),
        ensures
            final(self).wf(),
            outcome_view(res) == old(self)@.upsert_outcome(req.function_name@),
            final(self)@ == old(self)@.upsert(req),
    {
        match self.offer(req) {
            Ok(directive) => Ok(directive),
            Err((error, _)) => Err(error),
        }
    }

    /// Does what [`RequestCache::upsert`] does, and hands a request that
    /// was turned down back with the error, so that its caller can be
    /// answered.
    pub fn offer(&mut self, req: InvokeRequest<R>) -> (res: Result<
        Option<(String, u64)>,
        (CacheError, InvokeRequest<R>),
    >)
        requires
            old(self).wf(),
        ensures
            final(self).wf(),
            outcome_view(
                match res {
                    Ok(directive) => Ok(directive),
                    Err((error, _)) => Err(error),
                },
            ) == old(self)@.upsert_outcome(req.function_name@),
            res matches Err((_, returned)) ==> returned == req,
            final(self)@ == old(self)@.upsert(req),
    {
        if !is_valid_function_name(req.function_name.as_str()) {
            return Err((CacheError::InvalidFunction, req));
        }
        match self.find(req.function_name.as_str()) {
            Some(i) => {
                let ghost before = *self;
                self.entries[i].queue.push_back(req);
                proof {
                    self.lemma_updated(before, i as int);
                }
                Ok(None)
            },
            None => {
                if self.next_api_id == u64::MAX {
                    return Err((CacheError::CacheFull, req));
                }
                let ghost before = *self;
                let name: String = req.function_name.clone();
                let api_id: u64 = self.next_api_id;
                let mut queue: VecDeque<InvokeRequest<R>> = VecDeque::new();
                queue.push_back(req);
                assert(queue@ =~= seq![req]);
                self.entries.push(CacheEntry { name: name.clone(), api_id, running: false, queue });
                self.next_api_id = api_id + 1;
                proof {
                    let last = before.entries.len() as int;
                    assert(self.entries[last].name@ == name@);
                    assert forall|j: int| 0 <= j < last implies self.entries[j]
                        == before.entries[j] by {}
                    assert(self.wf());
                    assert forall|n: Seq<char>| self.holds(n) <==> before.holds(n) || n
                        == name@ by {
                        if before.holds(n) {
                            before.lemma_holds(n);
                            assert(self.entries[before.position(n)].name@ == n);
                        }
                        if n == name@ {
                            assert(self.entries[last].name@ == n);
                        }
                        if self.holds(n) {
                            self.lemma_holds(n);
                            let p = self.position(n);
                            if p < last {
                                assert(before.entries[p].name@ == n);
                            }
                        }
                    }
                    assert forall|n: Seq<char>| self.holds(n) && n != name@ implies self.entries[self.position(
                        n,
                    )]@ == before.entries[before.position(n)]@ by {
                        before.lemma_holds(n);
                        self.lemma_position(before.position(n));
                    }
                    self.lemma_position(last);
                    assert(self@.entries =~= before@.upsert(req).entries);
                }
                Ok(Some((name, api_id)))
            },
        }
    }

    /// What the view is after the entry at `i` changed and nothing else:
    /// the old map with that entry's new view under its name.
    proof fn lemma_updated(&self, before: RequestCache<R>, i: int)
        requires
            before.wf(),
            0 <= i < before.entries.len(),
            self.entries.len() == before.entries.len(),
            self.next_api_id == before.next_api_id,
            self.entries[i].name == before.entries[i].name,
            self.entries[i].api_id == before.entries[i].api_id,
            forall|j: int|
                0 <= j < before.entries.len() && j != i ==> self.entries[j] == before.entries[j],
        ensures
            self.wf(),
            self@.next_api_id == before@.next_api_id,
            self@.entries == before@.entries.insert(before.entries[i].name@, self.entries[i]@),
    {
        assert forall|j: int| 0 <= j < self.entries.len() implies (#[trigger] self.entries[j]).name
            == before.entries[j].name && self.entries[j].api_id == before.entries[j].api_id by {}
        assert(self.wf());
        let name = before.entries[i].name@;
        assert forall|n: Seq<char>| self.holds(n) <==> before.holds(n) by {
            if before.holds(n) {
                before.lemma_holds(n);
                assert(self.entries[before.position(n)].name@ == n);
            }
            if self.holds(n) {
                self.lemma_holds(n);
                assert(before.entries[self.position(n)].name@ == n);
            }
        }
        before.lemma_position(i);
        self.lemma_position(i);
        assert forall|n: Seq<char>| self.holds(n) && n != name implies self.entries[self.position(
            n,
        )]@ == before.entries[before.position(n)]@ by {
            before.lemma_holds(n);
            self.lemma_position(before.position(n));
        }
        assert(self@.entries =~= before@.entries.insert(name, self.entries[i]@));
    }
}

impl<R> RequestCache<R> {
    /// Forgets the function `name` with whatever still waits for it. A
    /// function that the cache does not hold is left alone.
    pub fn clean(&mut self, name: &str)
        requires
            old(self).wf(),
        ensures
            final(self).wf(),
            final(self)@ == old(self)@.clean(name@),
    {
        match self.find(name) {
            Some(i) => {
                let ghost before = *self;
                let _ = self.entries.remove(i);
                proof {
                    let gone = i as int;
                    assert forall|j: int| 0 <= j < self.entries.len() implies (
                    #[trigger] self.entries[j]) == before.entries[if j < gone {
                        j
                    } else {
                        j + 1
                    }] by {}
                    assert(self.wf()) by {
                        assert forall|a: int, b: int|
                            0 <= a < b < self.entries.len() implies (#[trigger] self.entries[a]).name@
                            != (#[trigger] self.entries[b]).name@ && self.entries[a].api_id
                            != self.entries[b].api_id by {
                            let a0 = if a < gone {
                                a
                            } else {
                                a + 1
                            };
                            let b0 = if b < gone {
                                b
                            } else {
                                b + 1
                            };
                            assert(before.entries[a0].name@ != before.entries[b0].name@);
                            assert(before.entries[a0].api_id != before.entries[b0].api_id);
                        }
                    }
                    assert forall|n: Seq<char>| self.holds(n) <==> before.holds(n) && n
                        != name@ by {
                        if before.holds(n) && n != name@ {
                            before.lemma_holds(n);
                            let p = before.position(n);
                            let q = if p < gone {
                                p
                            } else {
                                p - 1
                            };
                            assert(self.entries[q].name@ == n);
                        }
                        if self.holds(n) {
                            self.lemma_holds(n);
                            let q = self.position(n);
                            let p = if q < gone {
                                q
                            } else {
                                q + 1
                            };
                            assert(before.entries[p].name@ == n);
                            before.lemma_position(p);
                            before.lemma_position(gone);
                        }
                    }
                    assert forall|n: Seq<char>| self.holds(n) implies self.entries[self.position(
                        n,
                    )]@ == before.entries[before.position(n)]@ by {
                        self.lemma_holds(n);
                        let q = self.position(n);
                        let p = if q < gone {
                            q
                        } else {
                            q + 1
                        };
                        before.lemma_position(p);
                    }
                    assert(self@.entries =~= before@.clean(name@).entries);
                }
            },
            None => {
                assert(self@.entries =~= self@.clean(name@).entries);
            },
        }
    }

    /// Records that the process of the function `name` has reported, and
    /// says whether the cache holds the function.
    pub fn mark_running(&mut self, name: &str) -> (held: bool)
        requires
            old(self).wf(),
        ensures
            final(self).wf(),
            held == old(self)@.entries.contains_key(name@),
            final(self)@ == old(self)@.mark_running(name@),
    {
        match self.find(name) {
            Some(i) => {
                let ghost before = *self;
                self.entries[i].running = true;
                proof {
                    self.lemma_updated(before, i as int);
                }
                true
            },
            None => false,
        }
    }

    /// Takes the oldest waiting request of the function `name` out of the
    /// cache, if there is one.
    pub fn pop(&mut self, name: &str) -> (req: Option<InvokeRequest<R>>)
        requires
            old(self).wf(),
        ensures
            final(self).wf(),
            req == if old(self)@.queue(name@).len() > 0 {
                Some(old(self)@.queue(name@).first())
            } else {
                None
            },
            final(self)@ == old(self)@.pop(name@),
    {
        match self.find(name) {
            Some(i) => {
                let ghost before = *self;
                let req = self.entries[i].queue.pop_front();
                proof {
                    self.lemma_updated(before, i as int);
                    if req is Some {
                        assert(self.entries[i as int].queue@ =~= before.entries[i as int].queue@.drop_first());
                    } else {
                        assert(self.entries[i as int]@ == before.entries[i as int]@);
                        assert(self@.entries =~= before@.entries);
                    }
                }
                req
            },
            None => None,
        }
    }

    /// How far the function `name` has come.
    pub fn liveness(&self, name: &str) -> (state: Liveness)
        requires
            self.wf(),
        ensures
            state == self@.liveness(name@),
    {
        match self.find(name) {
            Some(i) => if self.entries[i].running {
                Liveness::Running
            } else {
                Liveness::Starting
            },
            None => Liveness::NotStarted,
        }
    }

    /// The identifier of the endpoint of the function `name`, where the
    /// cache holds the function.
    pub fn api_id(&self, name: &str) -> (id: Option<u64>)
        requires
            self.wf(),
        ensures
            id == if self@.entries.contains_key(name@) {
                Some(self@.entries[name@].api_id)
            } else {
                None
            },
    {
        match self.find(name) {
            Some(i) => Some(self.entries[i].api_id),
            None => None,
        }
    }

    /// How many requests wait for the function `name`.
    pub fn queue_len(&self, name: &str) -> (len: usize)
        requires
            self.wf(),
        ensures
            len == self@.queue(name@).len(),
    {
        match self.find(name) {
            Some(i) => self.entries[i].queue.len(),
            None => 0,
        }
    }

    /// The waiting request of the function `name` that `index` older
    /// requests stand before, if there is one.
    pub fn queued(&self, name: &str, index: usize) -> (req: Option<&InvokeRequest<R>>)
        requires
            self.wf(),
        ensures
            req == if index < self@.queue(name@).len() {
                Some(&self@.queue(name@)[index as int])
            } else {
                None
            },
    {
        match self.find(name) {
            Some(i) => if index < self.entries[i].queue.len() {
                Some(&self.entries[i].queue[index])
            } else {
                None
            },
            None => None,
        }
    }

    /// How many functions the cache holds.
    pub fn len(&self) -> (len: usize)
        requires
            self.wf(),
        ensures
            len == self@.entries.dom().len(),
    {
        proof {
            self.lemma_names_counted(self.entries.len() as int);
            assert(self@.entries.dom() =~= self.names_below(self.entries.len() as int)) by {
                assert forall|n: Seq<char>| self.holds(n) implies self.names_below(
                    self.entries.len() as int,
                ).contains(n) by {
                    self.lemma_holds(n);
                }
            }
        }
        self.entries.len()
    }

    /// The first `k` entries carry `k` names.
    proof fn lemma_names_counted(&self, k: int)
        requires
            self.wf(),
            0 <= k <= self.entries.len(),
        ensures
            self.names_below(k).finite(),
            self.names_below(k).len() == k,
        decreases k,
    {
        if k == 0 {
            assert(self.names_below(0) =~= Set::empty());
        } else {
            self.lemma_names_counted(k - 1);
            let name = self.entries[k - 1].name@;
            assert(self.names_below(k) =~= self.names_below(k - 1).insert(name));
            assert(!self.names_below(k - 1).contains(name)) by {
                if self.names_below(k - 1).contains(name) {
                    let i = choose|i: int|
                        0 <= i < k - 1 && i < self.entries.len() && (#[trigger] self.entries[i]).name@
                            == name;
                    assert(self.entries[i].name@ != self.entries[k - 1].name@);
                }
            }
        }
    }
}

} // verus!
