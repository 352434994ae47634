//! The swarm registry: the binding of remote identifiers to live
//! transports, and the pending area for half-open connections.
//!
//! A transport is modelled by the handle the registry minted for it and its
//! connection state; the runtime maps handles to real peer connections. At
//! most one transport is bound to an identifier, and a transport waits in
//! `pending` only until it is promoted into the table.
use vstd::prelude::*;

verus! {

use crate::did::Did;
use crate::err::Error;
use crate::did::lemma_did_val_injective;

/// The lifecycle of a peer connection.
#[derive(Clone, Copy, Debug, PartialEq, Eq, Structural)]
pub enum TransportState {
    /// Created, not yet started.
    New,
    /// Negotiation under way.
    Connecting,
    /// The data channel is usable.
    Connected,
    /// The connection was lost.
    Disconnected,
    /// Negotiation or the connection failed.
    Failed,
    /// Closed on purpose.
    Closed,
}

/// A handle to one peer connection with one data channel.
#[derive(Clone, Copy, Debug, PartialEq, Eq, Structural)]
pub struct Transport {
    /// The registry-minted identity of the connection.
    pub handle: u64,
    /// Last known connection state.
    pub state: TransportState,
}

/// Does the table bind `did` to some transport?
pub open spec fn table_has(t: Seq<(Did, Transport)>, did: Did) -> bool {
    exists|i: int| 0 <= i < t.len() && (#[trigger] t[i]).0.val() == did.val()
}

/// The transport the table binds `did` to, if any.
pub open spec fn table_lookup(t: Seq<(Did, Transport)>, did: Did) -> Option<Transport>
    decreases t.len(),
{
    if t.len() == 0 {
        None
    } else if t[0].0.val() == did.val() {
        Some(t[0].1)
    } else {
        table_lookup(t.drop_first(), did)
    }
}

/// Does some pending transport carry this handle?
pub open spec fn pending_has(p: Seq<Transport>, handle: u64) -> bool {
    exists|i: int| 0 <= i < p.len() && (#[trigger] p[i]).handle == handle
}

/// The registry of one node's transports.
pub struct Swarm {
    /// Bindings of remote identifiers to transports; at most one per
    /// identifier.
    pub table: Vec<(Did, Transport)>,
    /// Half-open transports, not yet bound to an identifier.
    pub pending: Vec<Transport>,
    /// The next handle to mint; larger than every handle given out.
    pub next_handle: u64,
}

impl Swarm {
    /// Identifiers are well formed and bound at most once, and every
    /// handle the registry holds was minted below `next_handle`.
    pub open spec fn wf(self) -> bool {
        &&& forall|i: int| 0 <= i < self.table@.len() ==> (#[trigger] self.table@[i]).0.wf()
        &&& forall|i: int, j: int|
            0 <= i < j < self.table@.len() ==> (#[trigger] self.table@[i]).0.val() != (
            #[trigger] self.table@[j]).0.val()
        &&& forall|i: int|
            0 <= i < self.table@.len() ==> (#[trigger] self.table@[i]).1.handle
                < self.next_handle
        &&& forall|i: int|
            0 <= i < self.pending@.len() ==> (#[trigger] self.pending@[i]).handle
                < self.next_handle
        &&& forall|i: int, j: int|
            0 <= i < j < self.pending@.len() ==> (#[trigger] self.pending@[i]).handle != (
            #[trigger] self.pending@[j]).handle
    }

    /// An empty registry.
    pub fn new() -> (r: Swarm)
        ensures
            r.wf(),
            r.table@.len() == 0,
            r.pending@.len() == 0,
    {
        Swarm { table: Vec::new(), pending: Vec::new(), next_handle: 0 }
    }

    /// Mint a pending transport under a fresh handle. The runtime starts
    /// the underlying peer connection for it.
    pub fn new_transport(&mut self) -> (r: Result<Transport, Error>)
        requires
            old(self).wf(),
        ensures
            final(self).wf(),
            final(self).table == old(self).table,
            old(self).next_handle == u64::MAX ==> r == Err::<Transport, Error>(
                Error::InvalidTransportUuid,
            ) && *final(self) == *old(self),
            old(self).next_handle < u64::MAX ==> match r {
                Ok(t) => t.handle == old(self).next_handle && t.state == TransportState::New
                    && final(self).pending@ == old(self).pending@.push(t) && final(
                self).next_handle == old(self).next_handle + 1 && !pending_has(
                    old(self).pending@,
                    t.handle,
                ),
                Err(_) => false,
            },
    {
        if self.next_handle == u64::MAX {
            return Err(Error::InvalidTransportUuid);
        }
        let t = Transport { handle: self.next_handle, state: TransportState::New };
        self.next_handle = self.next_handle + 1;
        self.pending.push(t);
        Ok(t)
    }

    /// The transport bound to `did`, if any.
    pub fn get_transport(&self, did: &Did) -> (r: Option<Transport>)
        requires
            self.wf(),
            did.wf(),
        ensures
            r == table_lookup(self.table@, *did),
            r is Some <==> table_has(self.table@, *did),
    {
        proof {
            lemma_table_lookup_has(self.table@, *did);
            assert(self.table@.skip(0) =~= self.table@);
        }
        let mut i: usize = 0;
        while i < self.table.len()
            invariant
                self.wf(),
                did.wf(),
                i <= self.table@.len(),
                table_lookup(self.table@, *did) == table_lookup(
                    self.table@.skip(i as int),
                    *did,
                ),
            decreases self.table@.len() - i,
        {
            proof {
                lemma_did_val_injective(self.table@[i as int].0, *did);
                assert(self.table@.skip(i as int).drop_first() =~= self.table@.skip(i as int + 1));
                assert(self.table@.skip(i as int)[0] == self.table@[i as int]);
            }
            if self.table[i].0 == *did {
                return Some(self.table[i].1);
            }
            i += 1;
        }
        proof {
            assert(self.table@.skip(self.table@.len() as int).len() == 0);
        }
        None
    }

    /// The pending transport with this handle, if any.
    pub fn get_pending(&self, handle: u64) -> (r: Option<Transport>)
        requires
            self.wf(),
        ensures
            match r {
                Some(t) => t.handle == handle && pending_has(self.pending@, handle),
                None => !pending_has(self.pending@, handle),
            },
    {
        let mut i: usize = 0;
        while i < self.pending.len()
            invariant
                self.wf(),
                i <= self.pending@.len(),
                forall|k: int| 0 <= k < i ==> (#[trigger] self.pending@[k]).handle != handle,
            decreases self.pending@.len() - i,
        {
            if self.pending[i].handle == handle {
                return Some(self.pending[i]);
            }
            i += 1;
        }
        None
    }

    /// Take the pending transport with this handle out of the pending area.
    pub fn pop_pending(&mut self, handle: u64) -> (r: Result<Transport, Error>)
        requires
            old(self).wf(),
        ensures
            final(self).wf(),
            final(self).table == old(self).table,
            final(self).next_handle == old(self).next_handle,
            !pending_has(final(self).pending@, handle),
            forall|h: u64|
                h != handle ==> (pending_has(final(self).pending@, h) <==> pending_has(
                    old(self).pending@,
                    h,
                )),
            match r {
                Ok(t) => t.handle == handle && pending_has(old(self).pending@, handle),
                Err(e) => e == Error::SwarmPendingTransNotFound && !pending_has(
                    old(self).pending@,
                    handle,
                ),
            },
    {
        let mut i: usize = 0;
        while i < self.pending.len()
            invariant
                self == old(self),
                self.wf(),
                i <= self.pending@.len(),
                forall|k: int| 0 <= k < i ==> (#[trigger] self.pending@[k]).handle != handle,
            decreases self.pending@.len() - i,
        {
            if self.pending[i].handle == handle {
                let t = self.pending.remove(i);
                proof {
                    lemma_remove_keeps_others(old(self).pending@, i as int, handle);
                }
                return Ok(t);
            }
            i += 1;
        }
        Err(Error::SwarmPendingTransNotFound)
    }
    /// Bind `did` to `t`, atomically. If `did` already has a transport the
    /// existing one wins and `t` must be closed by the caller; either way
    /// `t` leaves the pending area. After success the table binds `did` to
    /// exactly the returned transport and no copy of `t` waits in pending.
    pub fn get_or_register(&mut self, did: &Did, t: Transport) -> (r: Result<
        (Transport, Option<Transport>),
        Error,
    >)
        requires
            old(self).wf(),
            did.wf(),
            t.handle < old(self).next_handle,
        ensures
            final(self).wf(),
            final(self).next_handle == old(self).next_handle,
            !pending_has(final(self).pending@, t.handle),
            forall|h: u64|
                h != t.handle ==> (pending_has(final(self).pending@, h) <==> pending_has(
                    old(self).pending@,
                    h,
                )),
            match r {
                Ok((reg, to_close)) => {
                    &&& table_lookup(final(self).table@, *did) == Some(reg)
                    &&& match table_lookup(old(self).table@, *did) {
                        Some(existing) => reg == existing && to_close == Some(t) && final(
                        self).table == old(self).table,
                        None => reg == t && to_close == None::<Transport> && final(self).table@
                            == old(self).table@.push((*did, t)),
                    }
                },
                Err(_) => false,
            },
    {
        match self.pop_pending(t.handle) {
            Ok(_) => {},
            Err(_) => {},
        }
        let ghost pend = self.pending@;
        match self.get_transport(did) {
            Some(existing) => {
                Ok((existing, Some(t)))
            },
            None => {
                proof {
                    lemma_table_lookup_has(self.table@, *did);
                }
                self.table.push((*did, t));
                proof {
                    lemma_table_lookup_push(old(self).table@, *did, t);
                    assert forall|i: int, j: int|
                        0 <= i < j < self.table@.len() implies (#[trigger] self.table@[i]).0.val()
                        != (#[trigger] self.table@[j]).0.val() by {
                        if j == self.table@.len() - 1 {
                            assert(!table_has(old(self).table@, *did));
                            assert(self.table@[i] == old(self).table@[i]);
                        }
                    }
                }
                Ok((t, None))
            },
        }
    }

    /// Unbind `did` and hand its transport back so the runtime can close
    /// it. Fails exactly when `did` is not bound.
    pub fn disconnect(&mut self, did: &Did) -> (r: Result<Transport, Error>)
        requires
            old(self).wf(),
            did.wf(),
        ensures
            final(self).wf(),
            final(self).pending == old(self).pending,
            final(self).next_handle == old(self).next_handle,
            !table_has(final(self).table@, *did),
            forall|x: Did|
                x.val() != did.val() ==> (table_lookup(final(self).table@, x) == table_lookup(
                    old(self).table@,
                    x,
                )),
            match r {
                Ok(t) => table_lookup(old(self).table@, *did) == Some(t),
                Err(e) => e == Error::SwarmMissAddressInTable && !table_has(
                    old(self).table@,
                    *did,
                ) && final(self).table == old(self).table,
            },
    {
        proof {
            lemma_table_lookup_has(self.table@, *did);
        }
        let mut i: usize = 0;
        while i < self.table.len()
            invariant
                self == old(self),
                self.wf(),
                did.wf(),
                i <= self.table@.len(),
                forall|k: int| 0 <= k < i ==> (#[trigger] self.table@[k]).0.val() != did.val(),
            decreases self.table@.len() - i,
        {
            proof {
                lemma_did_val_injective(self.table@[i as int].0, *did);
            }
            if self.table[i].0 == *did {
                let entry = self.table.remove(i);
                proof {
                    lemma_table_remove(old(self).table@, i as int, *did);
                }
                return Ok(entry.1);
            }
            i += 1;
        }
        Err(Error::SwarmMissAddressInTable)
    }
}

/// Looking up any identifier after a push: the pushed binding answers for
/// its own key, every other key is unchanged.
proof fn lemma_table_lookup_push(t: Seq<(Did, Transport)>, did: Did, tr: Transport)
    requires
        !table_has(t, did),
    ensures
        table_lookup(t.push((did, tr)), did) == Some(tr),
        forall|x: Did|
            x.val() != did.val() ==> table_lookup(t.push((did, tr)), x) == table_lookup(t, x),
    decreases t.len(),
{
    if t.len() == 0 {
        assert(t.push((did, tr))[0] == (did, tr));
        assert forall|x: Did| x.val() != did.val() implies table_lookup(t.push((did, tr)), x)
            == table_lookup(t, x) by {
            assert(t.push((did, tr)).drop_first() =~= t);
        }
    } else {
        assert(forall|i: int|
            0 <= i < t.drop_first().len() ==> (#[trigger] t.drop_first()[i]) == t[i + 1]);
        lemma_table_lookup_push(t.drop_first(), did, tr);
        assert(t.push((did, tr)).drop_first() =~= t.drop_first().push((did, tr)));
        assert(t.push((did, tr))[0] == t[0]);
        assert(t[0].0.val() != did.val());
    }
}

/// Removing the binding at `i` unbinds its key and keeps every other key.
proof fn lemma_table_remove(t: Seq<(Did, Transport)>, i: int, did: Did)
    requires
        0 <= i < t.len(),
        t[i].0.val() == did.val(),
        forall|a: int, b: int|
            0 <= a < b < t.len() ==> (#[trigger] t[a]).0.val() != (#[trigger] t[b]).0.val(),
    ensures
        !table_has(t.remove(i), did),
        forall|x: Did| x.val() != did.val() ==> table_lookup(t.remove(i), x) == table_lookup(t, x),
        table_lookup(t, did) == Some(t[i].1),
    decreases t.len(),
{
    if i == 0 {
        assert(t.remove(0) =~= t.drop_first());
        if table_has(t.drop_first(), did) {
            let k = choose|k: int|
                0 <= k < t.drop_first().len() && (#[trigger] t.drop_first()[k]).0.val()
                    == did.val();
            assert(t[k + 1].0.val() == did.val());
        }
        assert forall|x: Did| x.val() != did.val() implies table_lookup(t.remove(0), x)
            == table_lookup(t, x) by {
            lemma_table_lookup_skip_head(t, x);
        }
    } else {
        assert(forall|a: int|
            0 <= a < t.drop_first().len() ==> (#[trigger] t.drop_first()[a]) == t[a + 1]);
        lemma_table_remove(t.drop_first(), i - 1, did);
        assert(t.remove(i).drop_first() =~= t.drop_first().remove(i - 1));
        assert(t.remove(i)[0] == t[0]);
        assert(t[0].0.val() != did.val());
        if table_has(t.remove(i), did) {
            let k = choose|k: int|
                0 <= k < t.remove(i).len() && (#[trigger] t.remove(i)[k]).0.val() == did.val();
            assert(k != 0);
            assert(t.remove(i).drop_first()[k - 1].0.val() == did.val());
        }
    }
}

/// When the head's key differs from `x`, dropping the head does not change
/// the answer for `x`.
proof fn lemma_table_lookup_skip_head(t: Seq<(Did, Transport)>, x: Did)
    requires
        t.len() > 0,
        t[0].0.val() != x.val(),
    ensures
        table_lookup(t, x) == table_lookup(t.drop_first(), x),
{
}

/// `table_lookup` answers exactly when `table_has` does.
pub proof fn lemma_table_lookup_has(t: Seq<(Did, Transport)>, did: Did)
    ensures
        table_lookup(t, did) is Some <==> table_has(t, did),
    decreases t.len(),
{
    if t.len() > 0 {
        lemma_table_lookup_has(t.drop_first(), did);
        assert forall|i: int| 0 <= i < t.len() && (#[trigger] t[i]).0.val() == did.val() implies
            table_lookup(t, did) is Some by {
            if i > 0 {
                assert(t.drop_first()[i - 1].0.val() == did.val());
            }
        }
        if table_has(t.drop_first(), did) {
            let i = choose|i: int|
                0 <= i < t.drop_first().len() && (#[trigger] t.drop_first()[i]).0.val()
                    == did.val();
            assert(t[i + 1].0.val() == did.val());
        }
    }
}

/// Removing one pending entry keeps every other handle.
proof fn lemma_remove_keeps_others(p: Seq<Transport>, i: int, handle: u64)
    requires
        0 <= i < p.len(),
        p[i].handle == handle,
        forall|a: int, b: int|
            0 <= a < b < p.len() ==> (#[trigger] p[a]).handle != (#[trigger] p[b]).handle,
    ensures
        !pending_has(p.remove(i), handle),
        forall|h: u64| h != handle ==> (pending_has(p.remove(i), h) <==> pending_has(p, h)),
{
    assert forall|h: u64| h != handle implies (pending_has(p.remove(i), h) <==> pending_has(
        p,
        h,
    )) by {
        if pending_has(p.remove(i), h) {
            let k = choose|k: int|
                0 <= k < p.remove(i).len() && (#[trigger] p.remove(i)[k]).handle == h;
            if k < i {
                assert(p[k].handle == h);
            } else {
                assert(p[k + 1].handle == h);
            }
        }
        if pending_has(p, h) {
            let k = choose|k: int| 0 <= k < p.len() && (#[trigger] p[k]).handle == h;
            if k < i {
                assert(p.remove(i)[k].handle == h);
            } else {
                assert(k > i);
                assert(p.remove(i)[k - 1].handle == h);
            }
        }
    }
    if pending_has(p.remove(i), handle) {
        let k = choose|k: int|
            0 <= k < p.remove(i).len() && (#[trigger] p.remove(i)[k]).handle == handle;
        if k < i {
            assert(p[k].handle == handle);
        } else {
            assert(p[k + 1].handle == handle);
        }
    }
}

} // verus!
