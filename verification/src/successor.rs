//! The successor list of a ring node: the node's nearest clockwise
//! neighbours, ordered by clockwise distance from the node's own identifier.
//!
//! All entries are distinct, none equals the owner's identifier, and the
//! list is kept sorted by ring distance so that the first entry is the
//! authoritative successor.
use vstd::prelude::*;

verus! {

use crate::did::Did;
use crate::did::ring_dist;
use crate::did::ring_sub;
use crate::did::did_lt;
use crate::did::lemma_did_val_injective;

/// Does `s` hold an entry with the value of `d`?
pub open spec fn seq_contains_val(s: Seq<Did>, d: Did) -> bool {
    exists|i: int| 0 <= i < s.len() && s[i].val() == d.val()
}

/// How a successor list changes when `d` is offered to it: nothing moves if
/// `d` is the owner or already present; otherwise `d` is inserted at its
/// clockwise position and the list is capped at its capacity.
pub open spec fn updated_list(pre: SuccessorList, post: SuccessorList, d: Did) -> bool {
    &&& ((d.val() == pre.id.val() || seq_contains_val(pre.list@, d)) ==> post.list@ == pre.list@)
    &&& ((d.val() != pre.id.val() && !seq_contains_val(pre.list@, d)) ==> exists|p: int|
        0 <= p <= pre.list@.len() && (forall|k: int|
            0 <= k < p ==> ring_dist(pre.id.val(), (#[trigger] pre.list@[k]).val()) < ring_dist(
                pre.id.val(), d.val())) && (forall|k: int|
            p <= k < pre.list@.len() ==> ring_dist(pre.id.val(), (#[trigger] pre.list@[k]).val())
                > ring_dist(pre.id.val(), d.val())) && post.list@ == pre.list@.insert(p, d).take(
            vstd::math::min(pre.max as int, pre.list@.len() as int + 1)))
}

/// An ordered list of nearest clockwise neighbours of `id`, at most `max`
/// entries long.
pub struct SuccessorList {
    /// The owner's identifier; never an entry of the list.
    pub id: Did,
    /// Capacity of the list.
    pub max: usize,
    /// Entries, sorted by clockwise distance from `id`, strictly increasing.
    pub list: Vec<Did>,
}

impl SuccessorList {
    /// Entries are well formed, distinct from the owner and from each other,
    /// sorted by clockwise distance, and within capacity.
    pub open spec fn wf(self) -> bool {
        &&& self.id.wf()
        &&& self.max >= 1
        &&& self.list@.len() <= self.max
        &&& forall|i: int|
            0 <= i < self.list@.len() ==> (#[trigger] self.list@[i]).wf()
        &&& forall|i: int|
            0 <= i < self.list@.len() ==> (#[trigger] self.list@[i]).val() != self.id.val()
        &&& forall|i: int, j: int|
            0 <= i < j < self.list@.len() ==> ring_dist(self.id.val(), (#[trigger] self.list@[i]).val())
                < ring_dist(self.id.val(), (#[trigger] self.list@[j]).val())
    }

    /// The authoritative successor: the nearest clockwise entry, or the
    /// owner's own identifier while the list is empty.
    pub open spec fn head_spec(self) -> Did {
        if self.list@.len() == 0 {
            self.id
        } else {
            self.list@[0]
        }
    }

    /// A fresh, empty list for the node `id`.
    pub fn new(id: Did, max: usize) -> (r: SuccessorList)
        requires
            id.wf(),
            max >= 1,
        ensures
            r.wf(),
            r.id == id,
            r.max == max,
            r.list@.len() == 0,
    {
        SuccessorList { id, max, list: Vec::new() }
    }

    /// The authoritative successor.
    pub fn head(&self) -> (r: Did)
        requires
            self.wf(),
        ensures
            r == self.head_spec(),
            r.wf(),
    {
        if self.list.len() == 0 {
            self.id
        } else {
            self.list[0]
        }
    }

    /// Is the list empty?
    pub fn is_empty(&self) -> (r: bool)
        ensures
            r == (self.list@.len() == 0),
    {
        self.list.len() == 0
    }

    /// Does the list hold an entry equal to `d`?
    pub fn contains(&self, d: &Did) -> (r: bool)
        requires
            self.wf(),
            d.wf(),
        ensures
            r == seq_contains_val(self.list@, *d),
    {
        let mut i: usize = 0;
        while i < self.list.len()
            invariant
                0 <= i <= self.list@.len(),
                self.wf(),
                d.wf(),
                forall|k: int| 0 <= k < i ==> (#[trigger] self.list@[k]).val() != d.val(),
            decreases self.list@.len() - i,
        {
            proof {
                lemma_did_val_injective(self.list@[i as int], *d);
            }
            if self.list[i] == *d {
                return true;
            }
            i += 1;
        }
        false
    }

    /// The position where `d` belongs in the sorted list: every earlier
    /// entry is nearer to the owner, every later one farther.
    fn insert_pos(&self, d: &Did, dist_d: &Did) -> (p: usize)
        requires
            self.wf(),
            d.wf(),
            dist_d.wf(),
            dist_d.val() == ring_dist(self.id.val(), d.val()),
            !seq_contains_val(self.list@, *d),
        ensures
            0 <= p <= self.list@.len(),
            forall|k: int|
                0 <= k < p ==> ring_dist(self.id.val(), (#[trigger] self.list@[k]).val())
                    < dist_d.val(),
            forall|k: int|
                p <= k < self.list@.len() ==> ring_dist(self.id.val(), (
                #[trigger] self.list@[k]).val()) > dist_d.val(),
    {
        let mut p: usize = 0;
        while p < self.list.len()
            invariant
                0 <= p <= self.list@.len(),
                self.wf(),
                d.wf(),
                dist_d.wf(),
                dist_d.val() == ring_dist(self.id.val(), d.val()),
                !seq_contains_val(self.list@, *d),
                forall|k: int|
                    0 <= k < p ==> ring_dist(self.id.val(), (#[trigger] self.list@[k]).val())
                        < dist_d.val(),
            decreases self.list@.len() - p,
        {
            let dist_e = ring_sub(&self.list[p], &self.id);
            if !did_lt(&dist_e, &dist_d) {
                proof {
                    // the entry differs from d, so its distance differs too
                    assert(self.list@[p as int].val() != d.val());
                    lemma_dist_injective(self.id, self.list@[p as int], *d);
                }
                return p;
            }
            p += 1;
        }
        p
    }

    /// Insert `d` in clockwise order, unless it is the owner itself or
    /// already present; drop the farthest entry if the list would overflow.
    pub fn update(&mut self, d: Did)
        requires
            old(self).wf(),
            d.wf(),
        ensures
            final(self).wf(),
            final(self).id == old(self).id,
            final(self).max == old(self).max,
            updated_list(*old(self), *final(self), d),
    {
        proof {
            lemma_did_val_injective(d, self.id);
        }
        if d == self.id || self.contains(&d) {
            return ;
        }
        let dist_d = ring_sub(&d, &self.id);
        let ghost old_list = self.list@;
        let p = self.insert_pos(&d, &dist_d);
        self.list.insert(p, d);
        if self.list.len() > self.max {
            self.list.pop();
            proof {
                assert(self.list@ =~= old_list.insert(p as int, d).take(
                    vstd::math::min(self.max as int, old_list.len() as int + 1)));
            }
        } else {
            proof {
                assert(self.list@ =~= old_list.insert(p as int, d).take(
                    vstd::math::min(self.max as int, old_list.len() as int + 1)));
            }
        }
    }
}

impl SuccessorList {
    /// Drop every entry with the value of `d`, keeping the rest in order.
    #[verifier::rlimit(50)]
    pub fn remove(&mut self, d: &Did)
        requires
            old(self).wf(),
            d.wf(),
        ensures
            final(self).wf(),
            final(self).id == old(self).id,
            final(self).max == old(self).max,
            forall|x: Did|
                seq_contains_val(final(self).list@, x) <==> (seq_contains_val(old(self).list@, x)
                    && x.val() != d.val()),
    {
        let mut kept: Vec<Did> = Vec::new();
        let mut i: usize = 0;
        while i < self.list.len()
            invariant
                self == old(self),
                self.wf(),
                d.wf(),
                i <= self.list@.len(),
                kept@.len() <= i,
                forall|k: int| 0 <= k < kept@.len() ==> (#[trigger] kept@[k]).wf(),
                forall|k: int|
                    0 <= k < kept@.len() ==> (#[trigger] kept@[k]).val() != self.id.val(),
                forall|k: int| 0 <= k < kept@.len() ==> (#[trigger] kept@[k]).val() != d.val(),
                forall|k: int, j: int|
                    0 <= k < j < kept@.len() ==> ring_dist(self.id.val(), (#[trigger] kept@[k]).val())
                        < ring_dist(self.id.val(), (#[trigger] kept@[j]).val()),
                forall|k: int, j: int|
                    0 <= k < kept@.len() && i <= j < self.list@.len() ==> ring_dist(self.id.val(), (
                    #[trigger] kept@[k]).val()) < ring_dist(self.id.val(), (
                    #[trigger] self.list@[j]).val()),
                forall|x: Did| seq_contains_val(kept@, x) ==> seq_contains_val(self.list@, x),
                forall|k: int|
                    0 <= k < i ==> ((#[trigger] self.list@[k]).val() == d.val()
                        || seq_contains_val(kept@, self.list@[k])),
            decreases self.list@.len() - i,
        {
            let e = self.list[i];
            proof {
                lemma_did_val_injective(e, *d);
            }
            if e != *d {
                let ghost kept_pre = kept@;
                kept.push(e);
                proof {
                    assert(kept@[kept@.len() - 1] == e);
                    assert forall|x: Did|
                        seq_contains_val(kept@, x) implies seq_contains_val(
                        self.list@,
                        x,
                    ) by {
                        let k = choose|k: int|
                            0 <= k < kept@.len() && (#[trigger] kept@[k]).val() == x.val();
                        if k < kept_pre.len() {
                            assert(kept_pre[k] == kept@[k]);
                            assert(seq_contains_val(kept_pre, x));
                        } else {
                            assert(self.list@[i as int].val() == x.val());
                        }
                    }
                    assert forall|k: int|
                        0 <= k < i + 1 implies ((#[trigger] self.list@[k]).val() == d.val()
                        || seq_contains_val(kept@, self.list@[k])) by {
                        if k < i {
                            if self.list@[k].val() != d.val() {
                                let m = choose|m: int|
                                    0 <= m < kept_pre.len() && (#[trigger] kept_pre[m]).val()
                                        == self.list@[k].val();
                                assert(kept@[m].val() == self.list@[k].val());
                            }
                        } else {
                            assert(kept@[kept@.len() - 1].val() == self.list@[k].val());
                        }
                    }
                }
            } else {
                proof {
                    assert(self.list@[i as int].val() == d.val());
                }
            }
            i += 1;
        }
        let ghost orig = self.list@;
        self.list = kept;
        proof {
            assert forall|x: Did|
                seq_contains_val(self.list@, x) <==> (seq_contains_val(orig, x) && x.val()
                    != d.val()) by {
                if seq_contains_val(self.list@, x) {
                    let k = choose|k: int|
                        0 <= k < self.list@.len() && (#[trigger] self.list@[k]).val() == x.val();
                }
                if seq_contains_val(orig, x) && x.val() != d.val() {
                    let k = choose|k: int| 0 <= k < orig.len() && (#[trigger] orig[k]).val() == x.val();
                    assert(orig[k].val() == d.val() || seq_contains_val(self.list@, orig[k]));
                }
            }
        }
    }
}

/// Distinct points have distinct distances from a common origin.
pub proof fn lemma_dist_injective(o: Did, a: Did, b: Did)
    requires
        o.wf(),
        a.wf(),
        b.wf(),
        a.val() != b.val(),
    ensures
        ring_dist(o.val(), a.val()) != ring_dist(o.val(), b.val()),
{
    crate::did::lemma_did_val_bound(o);
    crate::did::lemma_did_val_bound(a);
    crate::did::lemma_did_val_bound(b);
}

/// Law: a well-formed, non-empty successor list never names the owner as its
/// head, and the head is the nearest clockwise entry.
pub proof fn lemma_successor_head(s: SuccessorList)
    requires
        s.wf(),
        s.list@.len() > 0,
    ensures
        s.head_spec().val() != s.id.val(),
        forall|i: int|
            0 < i < s.list@.len() ==> ring_dist(s.id.val(), s.head_spec().val()) < ring_dist(
                s.id.val(), (#[trigger] s.list@[i]).val()),
{
}

} // verus!
