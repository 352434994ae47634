//! The Chord ring state of one node: successor list, predecessor and the
//! 160-entry finger table, with the local routing decisions over them.
use vstd::prelude::*;

verus! {

use crate::did::Did;
use crate::did::in_arc_open_closed;
use crate::did::in_arc_open_open;
use crate::did::did_in_arc_open_closed;
use crate::did::did_in_arc_open_open;
use crate::did::lemma_did_val_injective;
use crate::err::Error;
use crate::successor::SuccessorList;
use crate::successor::seq_contains_val;
use crate::successor::updated_list;

/// Work a remote node is asked to do on this node's behalf.
#[derive(Clone, Copy, Debug, PartialEq, Eq, Structural)]
pub enum PeerRingRemoteAction {
    /// Ask the remote node for the successor of the identifier.
    FindSuccessor(Did),
}

/// The outcome of a local routing decision.
#[derive(Clone, Copy, Debug, PartialEq, Eq, Structural)]
pub enum PeerRingAction {
    /// Nothing to do.
    NoAction,
    /// The answer is known locally.
    Found(Did),
    /// The named node must be asked to carry on.
    RemoteAction(Did, PeerRingRemoteAction),
}

/// A finger entry is either empty or a well-formed identifier other than
/// the owner's.
pub open spec fn finger_entry_ok(e: Option<Did>, id: Did) -> bool {
    match e {
        Some(f) => f.wf() && f.val() != id.val(),
        None => true,
    }
}

/// Does the finger entry name `d`?
pub open spec fn finger_entry_is(e: Option<Did>, d: Did) -> bool {
    match e {
        Some(f) => f.val() == d.val(),
        None => false,
    }
}

/// Does the finger entry lie strictly between `id` and `target` clockwise?
pub open spec fn finger_entry_precedes(e: Option<Did>, id: Did, target: Did) -> bool {
    match e {
        Some(f) => in_arc_open_open(f.val(), id.val(), target.val()),
        None => false,
    }
}

/// Does any finger entry name `d`?
pub open spec fn finger_contains(f: Seq<Option<Did>>, d: Did) -> bool {
    exists|i: int| 0 <= i < f.len() && finger_entry_is(#[trigger] f[i], d)
}

/// The closest preceding node for `target` among the first `n` finger
/// entries: the highest entry strictly between the owner and `target`,
/// or the owner itself when there is none.
pub open spec fn cpn_spec(f: Seq<Option<Did>>, id: Did, target: Did, n: int) -> Did
    decreases n,
{
    if n <= 0 {
        id
    } else if finger_entry_precedes(f[n - 1], id, target) {
        match f[n - 1] {
            Some(x) => x,
            None => id,
        }
    } else {
        cpn_spec(f, id, target, n - 1)
    }
}

/// When no finger entry precedes `target`, the closest preceding node is
/// the owner itself.
pub proof fn lemma_cpn_none(f: Seq<Option<Did>>, id: Did, target: Did, n: int)
    requires
        n <= f.len(),
        forall|i: int| 0 <= i < n ==> !finger_entry_precedes(#[trigger] f[i], id, target),
    ensures
        cpn_spec(f, id, target, n) == id,
    decreases n,
{
    if n > 0 {
        lemma_cpn_none(f, id, target, n - 1);
    }
}

/// The number of filled entries among the first `n` finger entries.
pub open spec fn count_fingers(f: Seq<Option<Did>>, n: int) -> nat
    decreases n,
{
    if n <= 0 {
        0
    } else {
        count_fingers(f, n - 1) + if f[n - 1] is Some {
            1nat
        } else {
            0nat
        }
    }
}

/// The Chord state of one node.
pub struct PeerRing {
    /// The node's own identifier; never changes.
    pub id: Did,
    /// Entry `i` should resolve the node responsible for `id + 2^i`.
    pub finger: Vec<Option<Did>>,
    /// The nearest clockwise neighbours.
    pub successor: SuccessorList,
    /// The most recently accepted predecessor candidate.
    pub predecessor: Option<Did>,
    /// Cursor over the finger table, advanced once per stabilization tick.
    pub fix_finger_index: usize,
}

impl PeerRing {
    /// The ring state is internally consistent.
    pub open spec fn wf(self) -> bool {
        &&& self.id.wf()
        &&& self.finger@.len() == 160
        &&& forall|i: int| 0 <= i < 160 ==> finger_entry_ok(#[trigger] self.finger@[i], self.id)
        &&& self.successor.wf()
        &&& self.successor.id == self.id
        &&& self.successor.max == 3
        &&& match self.predecessor {
            Some(p) => p.wf(),
            None => true,
        }
        &&& self.fix_finger_index < 160
    }

    /// A fresh ring state: empty fingers and successors, no predecessor.
    pub fn new(id: Did) -> (r: PeerRing)
        requires
            id.wf(),
        ensures
            r.wf(),
            r.id == id,
            r.successor.list@.len() == 0,
            r.predecessor is None,
            r.fix_finger_index == 0,
            forall|i: int| 0 <= i < 160 ==> (#[trigger] r.finger@[i]) is None,
    {
        let mut finger: Vec<Option<Did>> = Vec::new();
        let mut i: usize = 0;
        while i < 160
            invariant
                i <= 160,
                finger@.len() == i,
                forall|k: int| 0 <= k < i ==> (#[trigger] finger@[k]) is None,
            decreases 160 - i,
        {
            finger.push(None);
            i += 1;
        }
        PeerRing {
            id,
            finger,
            successor: SuccessorList::new(id, 3),
            predecessor: None,
            fix_finger_index: 0,
        }
    }

    /// How many finger entries are filled.
    pub fn number_of_fingers(&self) -> (r: usize)
        requires
            self.wf(),
        ensures
            r == count_fingers(self.finger@, 160),
    {
        let mut n: usize = 0;
        let mut i: usize = 0;
        while i < 160
            invariant
                i <= 160,
                self.wf(),
                n == count_fingers(self.finger@, i as int),
                n <= i,
            decreases 160 - i,
        {
            if self.finger[i].is_some() {
                n += 1;
            }
            i += 1;
        }
        n
    }

    /// Does any finger entry name `d`?
    fn finger_holds(&self, d: &Did) -> (r: bool)
        requires
            self.wf(),
            d.wf(),
        ensures
            r == finger_contains(self.finger@, *d),
    {
        let mut i: usize = 0;
        while i < 160
            invariant
                i <= 160,
                self.wf(),
                d.wf(),
                forall|k: int| 0 <= k < i ==> !finger_entry_is(#[trigger] self.finger@[k], *d),
            decreases 160 - i,
        {
            match self.finger[i] {
                Some(f) => {
                    proof {
                        lemma_did_val_injective(f, *d);
                    }
                    if f == *d {
                        return true;
                    }
                },
                None => {},
            }
            i += 1;
        }
        false
    }

    /// The highest finger entry strictly between this node and `target`,
    /// or this node itself when no entry precedes `target`.
    pub fn closest_preceding_node(&self, target: &Did) -> (r: Did)
        requires
            self.wf(),
            target.wf(),
        ensures
            r == cpn_spec(self.finger@, self.id, *target, 160),
            r.wf(),
            (forall|i: int|
                0 <= i < 160 ==> !finger_entry_precedes(#[trigger] self.finger@[i], self.id,
                *target)) ==> r == self.id,
    {
        proof {
            if forall|i: int|
                0 <= i < 160 ==> !finger_entry_precedes(#[trigger] self.finger@[i], self.id,
                *target) {
                lemma_cpn_none(self.finger@, self.id, *target, 160);
            }
        }
        let mut i: usize = 160;
        while i > 0
            invariant
                i <= 160,
                self.wf(),
                target.wf(),
                cpn_spec(self.finger@, self.id, *target, 160) == cpn_spec(self.finger@, self.id,
                *target, i as int),
            decreases i,
        {
            i -= 1;
            match self.finger[i] {
                Some(f) => {
                    if did_in_arc_open_open(&f, &self.id, target) {
                        return f;
                    }
                },
                None => {},
            }
        }
        self.id
    }

    /// Classic Chord routing: if `target` lies in `(id, successor.head]`
    /// the successor answers; otherwise the closest preceding finger is
    /// asked to carry on.
    pub fn find_successor(&self, target: &Did) -> (r: Result<PeerRingAction, Error>)
        requires
            self.wf(),
            target.wf(),
        ensures
            r == Ok::<PeerRingAction, Error>(
                if in_arc_open_closed(target.val(), self.id.val(), self.successor.head_spec().val()) {
                    PeerRingAction::Found(self.successor.head_spec())
                } else {
                    PeerRingAction::RemoteAction(
                        cpn_spec(self.finger@, self.id, *target, 160),
                        PeerRingRemoteAction::FindSuccessor(*target),
                    )
                },
            ),
            match r {
                Ok(a) => match a {
                    PeerRingAction::Found(n) => n.wf(),
                    PeerRingAction::RemoteAction(n, _) => n.wf(),
                    PeerRingAction::NoAction => true,
                },
                Err(_) => true,
            },
    {
        let head = self.successor.head();
        if did_in_arc_open_closed(target, &self.id, &head) {
            Ok(PeerRingAction::Found(head))
        } else {
            Ok(PeerRingAction::RemoteAction(
                self.closest_preceding_node(target),
                PeerRingRemoteAction::FindSuccessor(*target),
            ))
        }
    }

    /// Learn of `did`. A known or own identifier is ignored; a new one is
    /// offered to the successor list when it lies in `(id, successor.head]`,
    /// and the caller is told whom to ask for its successor.
    pub fn join(&mut self, did: &Did) -> (r: PeerRingAction)
        requires
            old(self).wf(),
            did.wf(),
        ensures
            final(self).wf(),
            final(self).id == old(self).id,
            final(self).finger == old(self).finger,
            final(self).predecessor == old(self).predecessor,
            final(self).fix_finger_index == old(self).fix_finger_index,
            final(self).successor.id == old(self).successor.id,
            final(self).successor.max == old(self).successor.max,
            match r {
                PeerRingAction::RemoteAction(n, _) => n.wf(),
                _ => true,
            },
            if did.val() == old(self).id.val() || finger_contains(old(self).finger@, *did)
                || seq_contains_val(old(self).successor.list@, *did) {
                r == PeerRingAction::NoAction && final(self).successor == old(self).successor
            } else {
                r == PeerRingAction::RemoteAction(
                    cpn_spec(old(self).finger@, old(self).id, *did, 160),
                    PeerRingRemoteAction::FindSuccessor(*did),
                ) && if in_arc_open_closed(did.val(), old(self).id.val(),
                    old(self).successor.head_spec().val()) {
                    updated_list(old(self).successor, final(self).successor, *did)
                } else {
                    final(self).successor == old(self).successor
                }
            },
    {
        proof {
            lemma_did_val_injective(*did, self.id);
        }
        if *did == self.id || self.finger_holds(did) || self.successor.contains(did) {
            return PeerRingAction::NoAction;
        }
        let next = self.closest_preceding_node(did);
        let head = self.successor.head();
        if did_in_arc_open_closed(did, &self.id, &head) {
            self.successor.update(*did);
        }
        PeerRingAction::RemoteAction(next, PeerRingRemoteAction::FindSuccessor(*did))
    }

    /// Accept `did` as predecessor when there is none yet or it lies
    /// between the current predecessor and this node.
    pub fn notify(&mut self, did: &Did)
        requires
            old(self).wf(),
            did.wf(),
        ensures
            final(self).wf(),
            final(self).id == old(self).id,
            final(self).finger == old(self).finger,
            final(self).successor == old(self).successor,
            final(self).fix_finger_index == old(self).fix_finger_index,
            final(self).predecessor == match old(self).predecessor {
                None => Some(*did),
                Some(p) => if in_arc_open_open(did.val(), p.val(), old(self).id.val()) {
                    Some(*did)
                } else {
                    Some(p)
                },
            },
    {
        match self.predecessor {
            None => {
                self.predecessor = Some(*did);
            },
            Some(p) => {
                if did_in_arc_open_open(did, &p, &self.id) {
                    self.predecessor = Some(*did);
                }
            },
        }
    }

    /// Write the finger entry the fix-finger cursor points at.
    pub fn set_fix_finger(&mut self, did: &Did)
        requires
            old(self).wf(),
            did.wf(),
        ensures
            final(self).wf(),
            final(self).id == old(self).id,
            final(self).successor == old(self).successor,
            final(self).predecessor == old(self).predecessor,
            final(self).fix_finger_index == old(self).fix_finger_index,
            final(self).finger@ == if did.val() == old(self).id.val() {
                old(self).finger@
            } else {
                old(self).finger@.update(old(self).fix_finger_index as int, Some(*did))
            },
    {
        proof {
            lemma_did_val_injective(*did, self.id);
        }
        if *did == self.id {
            return ;
        }
        let i = self.fix_finger_index;
        self.finger[i] = Some(*did);
    }

    /// Drop every trace of `did`: its finger entries and its place in the
    /// successor list. Used when the node's transport has died.
    pub fn remove(&mut self, did: &Did)
        requires
            old(self).wf(),
            did.wf(),
        ensures
            final(self).wf(),
            final(self).id == old(self).id,
            final(self).predecessor == old(self).predecessor,
            final(self).fix_finger_index == old(self).fix_finger_index,
            final(self).successor.id == old(self).successor.id,
            final(self).successor.max == old(self).successor.max,
            forall|i: int|
                0 <= i < 160 ==> (#[trigger] final(self).finger@[i]) == (if finger_entry_is(
                    old(self).finger@[i], *did) {
                    None::<Did>
                } else {
                    old(self).finger@[i]
                }),
            forall|x: Did|
                seq_contains_val(final(self).successor.list@, x) <==> (seq_contains_val(
                    old(self).successor.list@, x) && x.val() != did.val()),
    {
        let mut i: usize = 0;
        while i < 160
            invariant
                i <= 160,
                did.wf(),
                self.id == old(self).id,
                self.finger@.len() == 160,
                self.successor == old(self).successor,
                self.predecessor == old(self).predecessor,
                self.fix_finger_index == old(self).fix_finger_index,
                old(self).wf(),
                self.id.wf(),
                forall|k: int| 0 <= k < 160 ==> finger_entry_ok(#[trigger] self.finger@[k], self.id),
                forall|k: int|
                    i <= k < 160 ==> (#[trigger] self.finger@[k]) == old(self).finger@[k],
                forall|k: int|
                    0 <= k < i ==> (#[trigger] self.finger@[k]) == (if finger_entry_is(
                        old(self).finger@[k], *did) {
                        None::<Did>
                    } else {
                        old(self).finger@[k]
                    }),
            decreases 160 - i,
        {
            let clear = match self.finger[i] {
                Some(f) => {
                    proof {
                        lemma_did_val_injective(f, *did);
                    }
                    f == *did
                },
                None => false,
            };
            if clear {
                self.finger[i] = None;
            }
            i += 1;
        }
        self.successor.remove(did);
    }
}

} // verus!
