//! The reactive service: a registry of abort handles keyed by behavior-tree
//! node id. Action nodes register the handles of the asynchronous work they
//! spawn; `abort` signals every handle registered under a node id, and
//! `cleanup_nodes` drops entries so that later `register` or `abort` calls on
//! those ids fail with `AbortEntryNotFound`.
//!
//! The registry itself is a `dashmap::DashMap`; this crate reasons about it
//! through a model that maps each registered node id to the number of handles
//! held under it.

use vstd::prelude::*;
use dashmap::DashMap;
use futures::future::AbortHandle;

verus! {

/// Why a registry operation failed.
///
/// `AbortEntryLockError` is part of the service's error surface for callers
/// that guard per-entry locks; the operations here never produce it, as the
/// ensures clauses state.
#[derive(Clone, PartialEq, Eq, Debug)]
pub enum ReactiveServiceError {
    /// No entry exists under the node id: the id was never initialized, or
    /// was cleaned up.
    AbortEntryNotFound(i32),
    AbortEntryLockError(i32, String),
}

#[verifier::external_type_specification]
#[verifier::external_body]
#[verifier::reject_recursive_types(K)]
#[verifier::reject_recursive_types(V)]
#[verifier::reject_recursive_types(S)]
pub struct ExDashMap<K, V, S>(DashMap<K, V, S>);

#[verifier::external_type_specification]
#[verifier::external_body]
pub struct ExAbortHandle(AbortHandle);

/// The concrete registry collection.
pub type RegistryMap = DashMap<i32, Vec<AbortHandle>>;

/// What the registry holds: the number of handles under each present id.
pub uninterp spec fn registry_model(m: RegistryMap) -> Map<i32, nat>;

/// Relies on `dashmap::DashMap::new`: a new map is empty.
#[verifier::external_body]
fn dm_new() -> (r: RegistryMap)
    ensures
        registry_model(r).dom() == Set::<i32>::empty(),
{
    DashMap::new()
}

/// Relies on `dashmap::DashMap::insert`: binds the key to the new value,
/// replacing any previous binding; other keys are untouched.
#[verifier::external_body]
fn dm_insert_vec(m: &mut RegistryMap, id: i32, v: Vec<AbortHandle>)
    ensures
        registry_model(*final(m)) == registry_model(*old(m)).insert(id, v@.len() as nat),
{
    m.insert(id, v);
}

/// Relies on `dashmap::DashMap::remove`: takes the binding of the key out of
/// the map and returns it, `None` when the key is absent.
#[verifier::external_body]
fn dm_remove_take(m: &mut RegistryMap, id: i32) -> (r: Option<Vec<AbortHandle>>)
    ensures
        r is Some <==> registry_model(*old(m)).contains_key(id),
        r is Some ==> r->Some_0@.len() as nat == registry_model(*old(m))[id],
        registry_model(*final(m)) == registry_model(*old(m)).remove(id),
{
    m.remove(&id).map(|kv| kv.1)
}

/// Relies on `dashmap::DashMap::get`: returns the binding of the key, here
/// cloned out of the guard, `None` when the key is absent. Cloned
/// `AbortHandle`s signal the same registrations as the originals.
#[verifier::external_body]
fn dm_get_cloned(m: &RegistryMap, id: i32) -> (r: Option<Vec<AbortHandle>>)
    ensures
        r is Some <==> registry_model(*m).contains_key(id),
        r is Some ==> r->Some_0@.len() as nat == registry_model(*m)[id],
{
    m.get(&id).map(|entry| entry.value().clone())
}

/// Relies on `futures::future::AbortHandle::abort`: signals cancellation to
/// the task the handle was registered for. Signalling is idempotent and
/// leaves the handle usable.
#[verifier::external_body]
fn abort_handle_signal(h: &AbortHandle) {
    h.abort();
}

/// The registry of abort handles, keyed by behavior-tree node id.
pub struct ReactiveService {
    abort_handles: RegistryMap,
}

impl ReactiveService {
    /// The id-to-handle-count model of the registry.
    pub closed spec fn model(self) -> Map<i32, nat> {
        registry_model(self.abort_handles)
    }

    pub fn new() -> (r: ReactiveService)
        ensures
            r.model() == Map::<i32, nat>::empty(),
    {
        let r = ReactiveService { abort_handles: dm_new() };
        proof {
            assert(r.model() =~= Map::<i32, nat>::empty());
        }
        r
    }

    /// Creates an empty entry for every id in the list; an id that already
    /// has an entry is reset to an empty one. Whether any other id has an
    /// entry is unchanged.
    pub fn initialize_nodes(&mut self, bt_node_ids: &Vec<i32>)
        ensures
            forall|t: int|
                0 <= t < bt_node_ids@.len() ==> final(self).model().contains_key(
                    #[trigger] bt_node_ids@[t],
                ) && final(self).model()[bt_node_ids@[t]] == 0,
            forall|k: i32|
                !(#[trigger] bt_node_ids@.contains(k)) ==> final(self).model().contains_key(k)
                    == old(self).model().contains_key(k) && (old(self).model().contains_key(k)
                    ==> final(self).model()[k] == old(self).model()[k]),
    {
        let ghost init = self.model();
        let mut j: usize = 0;
        while j < bt_node_ids.len()
            invariant
                0 <= j <= bt_node_ids@.len(),
                init == old(self).model(),
                forall|k: i32| #![trigger self.model().contains_key(k)]
                    (exists|t: int| 0 <= t < j && bt_node_ids@[t] == k) ==> self.model(
                    ).contains_key(k) && self.model()[k] == 0,
                forall|k: i32| #![trigger self.model().contains_key(k)]
                    !(exists|t: int| 0 <= t < j && bt_node_ids@[t] == k) ==> self.model(
                    ).contains_key(k) == init.contains_key(k),
                forall|k: i32| #![trigger self.model()[k]]
                    !(exists|t: int| 0 <= t < j && bt_node_ids@[t] == k) && init.contains_key(k)
                        ==> self.model()[k] == init[k],
            decreases bt_node_ids@.len() - j,
        {
            let ghost pre = self.model();
            let id = bt_node_ids[j];
            dm_insert_vec(&mut self.abort_handles, id, Vec::new());
            proof {
                assert(self.model() == pre.insert(id, 0nat));
                assert forall|k: i32| #![trigger self.model().contains_key(k)]
                    (exists|t: int|
                        0 <= t < j + 1 && bt_node_ids@[t] == k) implies self.model().contains_key(
                    k,
                ) && self.model()[k] == 0 by {
                    if k != id {
                        let t = choose|t: int| 0 <= t < j + 1 && bt_node_ids@[t] == k;
                        assert(0 <= t < j && bt_node_ids@[t] == k);
                        assert(pre.contains_key(k) && pre[k] == 0);
                        assert(self.model()[k] == pre.insert(id, 0nat)[k]);
                    }
                }
                assert forall|k: i32| #![trigger self.model().contains_key(k)]
                    !(exists|t: int|
                        0 <= t < j + 1 && bt_node_ids@[t] == k) implies self.model().contains_key(
                    k,
                ) == init.contains_key(k) by {
                    assert(bt_node_ids@[j as int] == id);
                    assert(k != id);
                    assert(!(exists|t: int| 0 <= t < j && bt_node_ids@[t] == k));
                    assert(pre.contains_key(k) == init.contains_key(k));
                }
                assert forall|k: i32| #![trigger self.model()[k]]
                    !(exists|t: int| 0 <= t < j + 1 && bt_node_ids@[t] == k)
                        && init.contains_key(k) implies self.model()[k] == init[k] by {
                    assert(bt_node_ids@[j as int] == id);
                    assert(k != id);
                    assert(!(exists|t: int| 0 <= t < j && bt_node_ids@[t] == k));
                    assert(pre.contains_key(k) == init.contains_key(k) && pre[k] == init[k]);
                    assert(self.model()[k] == pre.insert(id, 0nat)[k]);
                }
            }
            j += 1;
        }
        proof {
            assert forall|t: int|
                0 <= t < bt_node_ids@.len() implies self.model().contains_key(
                #[trigger] bt_node_ids@[t],
            ) && self.model()[bt_node_ids@[t]] == 0 by {
                let k = bt_node_ids@[t];
                assert(exists|u: int| 0 <= u < j && bt_node_ids@[u] == k);
                assert(self.model().contains_key(k) && self.model()[k] == 0);
            }
            assert forall|k: i32|
                !(#[trigger] bt_node_ids@.contains(k)) implies self.model().contains_key(k) == old(
                self,
            ).model().contains_key(k) && (old(self).model().contains_key(k) ==> self.model()[k]
                == old(self).model()[k]) by {
                assert(!(exists|t: int| 0 <= t < j && bt_node_ids@[t] == k));
                assert(self.model().contains_key(k) == init.contains_key(k));
                if init.contains_key(k) {
                    assert(self.model()[k] == init[k]);
                }
            }
        }
    }

    /// Removes the entry of every id in the list; whether any other id has
    /// an entry is unchanged. A removed id makes later `register` and
    /// `abort` calls on it fail.
    pub fn cleanup_nodes(&mut self, bt_node_ids: &Vec<i32>)
        ensures
            forall|t: int|
                0 <= t < bt_node_ids@.len() ==> !final(self).model().contains_key(
                    #[trigger] bt_node_ids@[t],
                ),
            forall|k: i32|
                !(#[trigger] bt_node_ids@.contains(k)) ==> final(self).model().contains_key(k)
                    == old(self).model().contains_key(k) && (old(self).model().contains_key(k)
                    ==> final(self).model()[k] == old(self).model()[k]),
    {
        let ghost init = self.model();
        let mut j: usize = 0;
        while j < bt_node_ids.len()
            invariant
                0 <= j <= bt_node_ids@.len(),
                init == old(self).model(),
                forall|k: i32| #![trigger self.model().contains_key(k)]
                    (exists|t: int| 0 <= t < j && bt_node_ids@[t] == k) ==> !self.model(
                    ).contains_key(k),
                forall|k: i32| #![trigger self.model().contains_key(k)]
                    !(exists|t: int| 0 <= t < j && bt_node_ids@[t] == k) ==> self.model(
                    ).contains_key(k) == init.contains_key(k),
                forall|k: i32| #![trigger self.model()[k]]
                    !(exists|t: int| 0 <= t < j && bt_node_ids@[t] == k) && init.contains_key(k)
                        ==> self.model()[k] == init[k],
            decreases bt_node_ids@.len() - j,
        {
            let ghost pre = self.model();
            let id = bt_node_ids[j];
            let _removed = dm_remove_take(&mut self.abort_handles, id);
            proof {
                assert(self.model() == pre.remove(id));
                assert forall|k: i32| #![trigger self.model().contains_key(k)]
                    (exists|t: int|
                        0 <= t < j + 1 && bt_node_ids@[t] == k) implies !self.model().contains_key(
                    k,
                ) by {
                    if k != id {
                        let t = choose|t: int| 0 <= t < j + 1 && bt_node_ids@[t] == k;
                        assert(0 <= t < j && bt_node_ids@[t] == k);
                        assert(!pre.contains_key(k));
                    }
                }
                assert forall|k: i32| #![trigger self.model().contains_key(k)]
                    !(exists|t: int|
                        0 <= t < j + 1 && bt_node_ids@[t] == k) implies self.model().contains_key(
                    k,
                ) == init.contains_key(k) by {
                    assert(bt_node_ids@[j as int] == id);
                    assert(k != id);
                    assert(!(exists|t: int| 0 <= t < j && bt_node_ids@[t] == k));
                    assert(pre.contains_key(k) == init.contains_key(k));
                }
                assert forall|k: i32| #![trigger self.model()[k]]
                    !(exists|t: int| 0 <= t < j + 1 && bt_node_ids@[t] == k)
                        && init.contains_key(k) implies self.model()[k] == init[k] by {
                    assert(bt_node_ids@[j as int] == id);
                    assert(k != id);
                    assert(!(exists|t: int| 0 <= t < j && bt_node_ids@[t] == k));
                    assert(pre.contains_key(k) == init.contains_key(k) && pre[k] == init[k]);
                    assert(self.model()[k] == pre.remove(id)[k]);
                }
            }
            j += 1;
        }
        proof {
            assert forall|t: int|
                0 <= t < bt_node_ids@.len() implies !self.model().contains_key(
                #[trigger] bt_node_ids@[t],
            ) by {
                let k = bt_node_ids@[t];
                assert(exists|u: int| 0 <= u < j && bt_node_ids@[u] == k);
                assert(!self.model().contains_key(k));
            }
            assert forall|k: i32|
                !(#[trigger] bt_node_ids@.contains(k)) implies self.model().contains_key(k) == old(
                self,
            ).model().contains_key(k) by {
                assert(!(exists|t: int| 0 <= t < j && bt_node_ids@[t] == k));
                assert(self.model().contains_key(k) == init.contains_key(k));
            }
        }
    }

    /// Appends the handle under the node's entry. Fails with
    /// `AbortEntryNotFound` iff the id has no entry; on success the entry
    /// holds one handle more and nothing else changes.
    pub fn register(&mut self, bt_node_id: &i32, handle: AbortHandle) -> (res: Result<
        (),
        ReactiveServiceError,
    >)
        ensures
            old(self).model().contains_key(*bt_node_id) ==> res is Ok && final(self).model()
                == old(self).model().insert(
                *bt_node_id,
                (old(self).model()[*bt_node_id] + 1) as nat,
            ),
            !old(self).model().contains_key(*bt_node_id) ==> res == Err::<
                (),
                ReactiveServiceError,
            >(ReactiveServiceError::AbortEntryNotFound(*bt_node_id)) && final(self).model() == old(self).model(),
    {
        match dm_remove_take(&mut self.abort_handles, *bt_node_id) {
            None => {
                proof {
                    assert(old(self).model().remove(*bt_node_id) =~= old(self).model());
                }
                Err(ReactiveServiceError::AbortEntryNotFound(*bt_node_id))
            },
            Some(mut handles) => {
                handles.push(handle);
                dm_insert_vec(&mut self.abort_handles, *bt_node_id, handles);
                proof {
                    assert(old(self).model().remove(*bt_node_id).insert(
                        *bt_node_id,
                        (old(self).model()[*bt_node_id] + 1) as nat,
                    ) =~= old(self).model().insert(
                        *bt_node_id,
                        (old(self).model()[*bt_node_id] + 1) as nat,
                    ));
                }
                Ok(())
            },
        }
    }

    /// Signals every handle currently registered under the node id, in
    /// registration (FIFO) order; the handles stay registered, so aborting
    /// again merely re-signals. Fails with `AbortEntryNotFound` iff the id
    /// has no entry.
    pub fn abort(&self, bt_node_id: &i32) -> (res: Result<(), ReactiveServiceError>)
        ensures
            res is Ok <==> self.model().contains_key(*bt_node_id),
            res is Err ==> res == Err::<(), ReactiveServiceError>(
                ReactiveServiceError::AbortEntryNotFound(*bt_node_id),
            ),
    {
        match dm_get_cloned(&self.abort_handles, *bt_node_id) {
            None => Err(ReactiveServiceError::AbortEntryNotFound(*bt_node_id)),
            Some(handles) => {
                let mut j: usize = 0;
                while j < handles.len()
                    decreases handles@.len() - j,
                {
                    abort_handle_signal(&handles[j]);
                    j += 1;
                }
                Ok(())
            },
        }
    }
}

impl Default for ReactiveService {
    fn default() -> (r: Self)
        ensures
            r.model() == Map::<i32, nat>::empty(),
    {
        ReactiveService::new()
    }
}

} // verus!
