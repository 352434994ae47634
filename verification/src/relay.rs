//! The source-routed relay envelope wrapped around every overlay message.
//!
//! A SEND records the nodes it traverses in `from_path`; a REPORT walks the
//! recorded path backwards, consuming `to_path` from its tail. No two
//! adjacent entries of either path may be equal.
use vstd::prelude::*;

verus! {

use crate::did::Did;
use crate::did::lemma_did_val_injective;
use crate::err::Error;
use crate::message::Message;

/// Relay envelopes travel outward as SEND and back as REPORT.
#[derive(Clone, Copy, Debug, PartialEq, Eq, Structural)]
pub enum MessageRelayMethod {
    /// Outbound query, extending `from_path` at every hop.
    SEND,
    /// Path-retracing response, consuming `to_path` from its tail.
    REPORT,
}

/// No two adjacent entries of the path are equal.
pub open spec fn adjacent_distinct(s: Seq<Did>) -> bool {
    forall|i: int| 0 <= i && i + 1 < s.len() ==> (#[trigger] s[i]).val() != s[i + 1].val()
}

/// All entries of the path are well formed.
pub open spec fn path_wf(s: Seq<Did>) -> bool {
    forall|i: int| 0 <= i < s.len() ==> (#[trigger] s[i]).wf()
}

/// The envelope wrapped around every overlay message.
#[derive(Clone, Debug, PartialEq, Eq)]
pub struct MessageRelay {
    /// SEND or REPORT.
    pub method: MessageRelayMethod,
    /// Nodes the message has traversed, oldest first.
    pub from_path: Vec<Did>,
    /// For a REPORT, the remaining route back; consumed from the tail.
    pub to_path: Vec<Did>,
    /// Hops the envelope may still take; decremented on every forward.
    pub ttl: u32,
    /// The payload.
    pub data: Message,
    /// Compact 65-byte signature over the canonical encoding, or empty
    /// while the envelope is not yet sealed.
    pub signature: Vec<u8>,
    /// The 20-byte address the signature must recover to, or empty while
    /// the envelope is not yet sealed.
    pub signer_address: Vec<u8>,
}

impl MessageRelay {
    /// Identifiers in the paths and the payload are well formed.
    pub open spec fn wf(self) -> bool {
        &&& path_wf(self.from_path@)
        &&& path_wf(self.to_path@)
        &&& self.data.wf()
    }

    /// Neither path holds two equal adjacent entries.
    pub open spec fn paths_valid(self) -> bool {
        adjacent_distinct(self.from_path@) && adjacent_distinct(self.to_path@)
    }

    /// A fresh, unsealed SEND envelope with empty paths.
    pub fn new_send(data: Message, ttl: u32) -> (r: MessageRelay)
        requires
            data.wf(),
        ensures
            r.wf(),
            r.paths_valid(),
            r.method == MessageRelayMethod::SEND,
            r.from_path@.len() == 0,
            r.to_path@.len() == 0,
            r.ttl == ttl,
            r.data == data,
            r.signature@.len() == 0,
            r.signer_address@.len() == 0,
    {
        MessageRelay {
            method: MessageRelayMethod::SEND,
            from_path: Vec::new(),
            to_path: Vec::new(),
            ttl,
            data,
            signature: Vec::new(),
            signer_address: Vec::new(),
        }
    }

    /// Decide whether both paths are free of equal adjacent entries.
    pub fn check_paths(&self) -> (r: bool)
        requires
            self.wf(),
        ensures
            r == self.paths_valid(),
    {
        path_adjacent_distinct(&self.from_path) && path_adjacent_distinct(&self.to_path)
    }

    /// The next receiver on the way back: the tail of `to_path`, or nothing
    /// when this node is the origin and must consume the message locally.
    pub fn find_prev(&self) -> (r: Option<Did>)
        ensures
            r == if self.to_path@.len() > 0 {
                Some(self.to_path@.last())
            } else {
                None::<Did>
            },
    {
        if self.to_path.len() > 0 {
            Some(self.to_path[self.to_path.len() - 1])
        } else {
            None
        }
    }

    /// Record the hop just taken. A SEND appends the sender to `from_path`;
    /// a REPORT pops this node off the tail of `to_path` and prepends the
    /// sender to `from_path`. Fails rather than create an envelope with
    /// equal adjacent entries or consume a path not addressed to this node.
    pub fn push_prev(&mut self, self_id: &Did, sender: &Did) -> (r: Result<(), Error>)
        requires
            old(self).wf(),
            self_id.wf(),
            sender.wf(),
        ensures
            final(self).method == old(self).method,
            final(self).ttl == old(self).ttl,
            final(self).data == old(self).data,
            final(self).signature == old(self).signature,
            final(self).signer_address == old(self).signer_address,
            final(self).wf(),
            old(self).paths_valid() && r is Ok ==> final(self).paths_valid(),
            match old(self).method {
                MessageRelayMethod::SEND => {
                    if old(self).from_path@.len() > 0 && old(self).from_path@.last().val()
                        == sender.val() {
                        r == Err::<(), Error>(Error::InvalidRelayPath) && *final(self) == *old(self)
                    } else {
                        r is Ok && final(self).from_path@ == old(self).from_path@.push(*sender)
                            && final(self).to_path@ == old(self).to_path@
                    }
                },
                MessageRelayMethod::REPORT => {
                    if old(self).to_path@.len() == 0 || old(self).to_path@.last().val()
                        != self_id.val() {
                        r == Err::<(), Error>(Error::InvalidRelayDestination) && *final(self)
                            == *old(self)
                    } else if old(self).from_path@.len() > 0 && old(self).from_path@[0].val()
                        == sender.val() {
                        r == Err::<(), Error>(Error::InvalidRelayPath) && *final(self) == *old(self)
                    } else {
                        r is Ok && final(self).from_path@ == seq![*sender] + old(self).from_path@
                            && final(self).to_path@ == old(self).to_path@.drop_last()
                    }
                },
            },
    {
        match self.method {
            MessageRelayMethod::SEND => {
                if self.from_path.len() > 0 {
                    proof {
                        lemma_did_val_injective(self.from_path@.last(), *sender);
                    }
                    if self.from_path[self.from_path.len() - 1] == *sender {
                        return Err(Error::InvalidRelayPath);
                    }
                }
                self.from_path.push(*sender);
                Ok(())
            },
            MessageRelayMethod::REPORT => {
                if self.to_path.len() == 0 {
                    return Err(Error::InvalidRelayDestination);
                }
                proof {
                    lemma_did_val_injective(self.to_path@.last(), *self_id);
                }
                if self.to_path[self.to_path.len() - 1] != *self_id {
                    return Err(Error::InvalidRelayDestination);
                }
                if self.from_path.len() > 0 {
                    proof {
                        lemma_did_val_injective(self.from_path@[0], *sender);
                    }
                    if self.from_path[0] == *sender {
                        return Err(Error::InvalidRelayPath);
                    }
                }
                self.to_path.pop();
                self.from_path.insert(0, *sender);
                proof {
                    assert(self.from_path@ =~= seq![*sender] + old(self).from_path@);
                }
                Ok(())
            },
        }
    }

    /// Invert a SEND into its REPORT: the recorded forward path becomes the
    /// return route and the forward record starts afresh, so the answer
    /// retraces the query's hops in reverse.
    pub fn make_report(&self, data: Message, ttl: u32) -> (r: MessageRelay)
        requires
            self.wf(),
            data.wf(),
        ensures
            r.wf(),
            r.method == MessageRelayMethod::REPORT,
            r.to_path@ == self.from_path@,
            r.from_path@ == Seq::<Did>::empty(),
            r.ttl == ttl,
            r.data == data,
            r.signature@.len() == 0,
            r.signer_address@.len() == 0,
            self.paths_valid() ==> r.paths_valid(),
    {
        let r = MessageRelay {
            method: MessageRelayMethod::REPORT,
            from_path: Vec::new(),
            to_path: self.from_path.clone(),
            ttl,
            data,
            signature: Vec::new(),
            signer_address: Vec::new(),
        };
        proof {
            assert(r.from_path@ =~= Seq::<Did>::empty());
        }
        r
    }
}

/// Decide whether a single path is free of equal adjacent entries.
fn path_adjacent_distinct(path: &Vec<Did>) -> (r: bool)
    requires
        path_wf(path@),
    ensures
        r == adjacent_distinct(path@),
{
    if path.len() == 0 {
        return true;
    }
    let mut i: usize = 1;
    while i < path.len()
        invariant
            path_wf(path@),
            1 <= i,
            forall|k: int| 0 <= k && k + 1 < i ==> (#[trigger] path@[k]).val() != path@[k + 1].val(),
        decreases path@.len() - i,
    {
        proof {
            lemma_did_val_injective(path@[i as int - 1], path@[i as int]);
        }
        if path[i - 1] == path[i] {
            return false;
        }
        i += 1;
    }
    true
}

/// The nodes a REPORT with return path `p` will visit, in delivery order:
/// the tail of the path first.
pub open spec fn hops_back(p: Seq<Did>) -> Seq<Did>
    decreases p.len(),
{
    if p.len() == 0 {
        Seq::empty()
    } else {
        seq![p.last()] + hops_back(p.drop_last())
    }
}

/// Law: a REPORT whose return path is the forward path a SEND recorded is
/// delivered to exactly the SEND's nodes, in reverse order. The return
/// route of the REPORT that `make_report` builds is the SEND's `from_path`,
/// and `push_prev` consumes it from the tail, so the visit order is the
/// reversal of the recorded path.
pub proof fn lemma_report_retraces(p: Seq<Did>)
    ensures
        hops_back(p) == p.reverse(),
    decreases p.len(),
{
    if p.len() == 0 {
        assert(hops_back(p) =~= p.reverse());
    } else {
        lemma_report_retraces(p.drop_last());
        assert(hops_back(p) =~= p.reverse()) by {
            assert(forall|i: int|
                0 < i < p.len() ==> (seq![p.last()] + hops_back(p.drop_last()))[i]
                    == p.drop_last().reverse()[i - 1]);
            assert(forall|i: int|
                0 <= i < p.len() - 1 ==> p.drop_last().reverse()[i] == p.drop_last()[p.len() - 2
                    - i]);
        }
    }
}

} // verus!
