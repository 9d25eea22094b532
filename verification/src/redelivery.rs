//! Who was handed the current secret and ticket already.
//!
//! Announcements of members stay in the log and come again whenever the log is
//! replayed. A host that answered each of them would send everything to
//! everybody over and over; one that answered a member once per epoch would
//! leave out a member that has come back. So an announcement is answered when
//! the member was not served at this epoch, or when it is a later one than
//! those that were seen.
use vstd::prelude::*;

use crate::ids::PeerId;
use crate::table::Table;

verus! {

/// Whether a member has yet to be served at an epoch.
pub open spec fn is_claimable(seen: Map<Seq<u8>, u64>, peer: Seq<u8>, epoch: u64) -> bool {
    !(seen.dom().contains(peer) && seen[peer] >= epoch)
}

/// What is known after an attempt to claim an epoch for a member.
pub open spec fn after_claim(seen: Map<Seq<u8>, u64>, peer: Seq<u8>, epoch: u64) -> Map<Seq<u8>, u64> {
    if is_claimable(seen, peer, epoch) {
        seen.insert(peer, epoch)
    } else {
        seen
    }
}

/// What is known after a claim was taken back. What was claimed since stays.
pub open spec fn after_rollback(seen: Map<Seq<u8>, u64>, peer: Seq<u8>, epoch: u64) -> Map<Seq<u8>, u64> {
    if seen.dom().contains(peer) && seen[peer] == epoch {
        seen.remove(peer)
    } else {
        seen
    }
}

/// Claims an epoch for a member, and says whether the member has yet to be
/// served.
pub fn claim_redelivery_epoch(seen: &mut Table<PeerId, u64>, peer: PeerId, epoch: u64) -> (proceed: bool)
    ensures
        proceed == is_claimable(old(seen)@, peer@, epoch),
        final(seen)@ == after_claim(old(seen)@, peer@, epoch),
{
    let served = match seen.get(&peer) {
        Some(e) => *e >= epoch,
        None => false,
    };
    if served {
        return false;
    }
    seen.insert(peer, epoch);
    true
}

/// Takes a claim back, so that the next announcement is answered.
pub fn rollback_redelivery_epoch(seen: &mut Table<PeerId, u64>, peer: PeerId, epoch: u64)
    ensures
        final(seen)@ == after_rollback(old(seen)@, peer@, epoch),
{
    let current = match seen.get(&peer) {
        Some(e) => *e == epoch,
        None => false,
    };
    if current {
        seen.remove(&peer);
    }
}

/// What a host knows of its deliveries, over maps.
pub struct RedeliveryView {
    /// The epoch at which each member was last served.
    pub epochs: Map<Seq<u8>, u64>,
    /// The latest announcement of each member.
    pub announces: Map<Seq<u8>, u64>,
}

/// What a host knows of its deliveries.
pub struct Redelivery {
    epochs: Table<PeerId, u64>,
    announces: Table<PeerId, u64>,
}

impl View for Redelivery {
    type V = RedeliveryView;

    closed spec fn view(&self) -> RedeliveryView {
        RedeliveryView { epochs: self.epochs@, announces: self.announces@ }
    }
}

/// Whether an announcement is later than those of the member that were seen.
pub open spec fn is_fresh(view: RedeliveryView, peer: Seq<u8>, seq: u64) -> bool {
    !(view.announces.dom().contains(peer) && view.announces[peer] >= seq)
}

/// Whether an announcement is answered.
pub open spec fn is_answered(view: RedeliveryView, peer: Seq<u8>, seq: u64, epoch: u64) -> bool {
    is_claimable(view.epochs, peer, epoch) || is_fresh(view, peer, seq)
}

/// What is known after an announcement.
pub open spec fn after_announce(view: RedeliveryView, peer: Seq<u8>, seq: u64, epoch: u64) -> RedeliveryView {
    RedeliveryView {
        epochs: after_claim(view.epochs, peer, epoch),
        announces: if is_fresh(view, peer, seq) {
            view.announces.insert(peer, seq)
        } else {
            view.announces
        },
    }
}

/// What is known after a delivery that failed.
pub open spec fn after_failure(view: RedeliveryView, peer: Seq<u8>, epoch: u64) -> RedeliveryView {
    RedeliveryView { epochs: after_rollback(view.epochs, peer, epoch), announces: view.announces }
}

impl Redelivery {
    /// Nobody was served.
    pub fn new() -> (redelivery: Redelivery)
        ensures
            redelivery@.epochs == Map::<Seq<u8>, u64>::empty(),
            redelivery@.announces == Map::<Seq<u8>, u64>::empty(),
    {
        Redelivery { epochs: Table::new(), announces: Table::new() }
    }

    /// Takes note of the announcement of a member at a place of the log, and
    /// says whether to answer it at the current epoch.
    pub fn on_announce(&mut self, peer: PeerId, seq: u64, epoch: u64) -> (answer: bool)
        ensures
            answer == is_answered(old(self)@, peer@, seq, epoch),
            final(self)@ == after_announce(old(self)@, peer@, seq, epoch),
    {
        let claimed = claim_redelivery_epoch(&mut self.epochs, peer, epoch);
        let seen = match self.announces.get(&peer) {
            Some(last) => *last >= seq,
            None => false,
        };
        if !seen {
            self.announces.insert(peer, seq);
        }
        claimed || !seen
    }

    /// Takes note of how the two deliveries that answer an announcement went.
    pub fn on_delivered(&mut self, peer: PeerId, epoch: u64, upgraded: bool, rotated: bool)
        ensures
            final(self)@ == if upgraded && rotated {
                old(self)@
            } else {
                after_failure(old(self)@, peer@, epoch)
            },
    {
        if !(upgraded && rotated) {
            rollback_redelivery_epoch(&mut self.epochs, peer, epoch);
        }
    }
}

/// An announcement that comes again is not answered again at the same epoch or
/// an earlier one.
pub proof fn law_replays_are_not_answered(view: RedeliveryView, peer: Seq<u8>, seq: u64, again: u64, epoch: u64, later: u64)
    requires
        again <= seq,
        later <= epoch,
    ensures
        !is_answered(after_announce(view, peer, seq, epoch), peer, again, later),
{
}

/// A member that announces itself anew is answered, at whatever epoch, and one
/// that announced itself before is answered again at a later epoch.
pub proof fn law_fresh_announces_are_answered(view: RedeliveryView, peer: Seq<u8>, seq: u64, fresh: u64, epoch: u64, later: u64)
    ensures
        is_fresh(view, peer, fresh) && fresh > seq ==> is_answered(
            after_announce(view, peer, seq, epoch),
            peer,
            fresh,
            later,
        ),
        is_claimable(view.epochs, peer, later) && later > epoch ==> is_answered(
            after_announce(view, peer, seq, epoch),
            peer,
            seq,
            later,
        ),
{
}

/// After a delivery that failed the same announcement is answered again.
pub proof fn law_failed_deliveries_are_retried(view: RedeliveryView, peer: Seq<u8>, seq: u64, epoch: u64)
    requires
        is_claimable(view.epochs, peer, epoch),
    ensures
        is_answered(after_failure(after_announce(view, peer, seq, epoch), peer, epoch), peer, seq, epoch),
{
}

/// A failure at one epoch does not undo a claim at another.
pub proof fn law_failure_keeps_later_claims(seen: Map<Seq<u8>, u64>, peer: Seq<u8>, epoch: u64, later: u64)
    requires
        is_claimable(seen, peer, epoch),
        later > epoch,
    ensures
        ({
            let both = after_claim(after_claim(seen, peer, epoch), peer, later);
            &&& after_rollback(both, peer, epoch) == both
            &&& !is_claimable(after_rollback(both, peer, epoch), peer, later)
        }),
{
}

/// An announcement is answered exactly where the member was not served at this
/// epoch or a later one, or where it announced itself at no place of the log
/// that is this one or behind it.
pub proof fn law_announces_are_answered_once(view: RedeliveryView, peer: Seq<u8>, seq: u64, epoch: u64)
    ensures
        is_answered(view, peer, seq, epoch) <==> {
            ||| !view.epochs.dom().contains(peer)
            ||| view.epochs[peer] < epoch
            ||| !view.announces.dom().contains(peer)
            ||| view.announces[peer] < seq
        },
{
}

/// After an announcement the host knows the member as served at this epoch and
/// announced at this place, or at later ones where it knew those already.
/// Nothing is known of anybody else that was not known before.
pub proof fn law_announces_are_remembered(view: RedeliveryView, peer: Seq<u8>, seq: u64, epoch: u64, other: Seq<u8>)
    ensures
        ({
            let after = after_announce(view, peer, seq, epoch);
            &&& after.epochs.dom().contains(peer)
            &&& after.epochs[peer] == (if view.epochs.dom().contains(peer) && view.epochs[peer] > epoch {
                view.epochs[peer]
            } else {
                epoch
            })
            &&& after.announces.dom().contains(peer)
            &&& after.announces[peer] == (if view.announces.dom().contains(peer) && view.announces[peer] > seq {
                view.announces[peer]
            } else {
                seq
            })
            &&& other != peer ==> {
                &&& after.epochs.dom().contains(other) == view.epochs.dom().contains(other)
                &&& view.epochs.dom().contains(other) ==> after.epochs[other] == view.epochs[other]
                &&& after.announces.dom().contains(other) == view.announces.dom().contains(other)
                &&& view.announces.dom().contains(other) ==> after.announces[other] == view.announces[other]
            }
        }),
{
}

/// A delivery that failed takes back what is known of the member at that epoch,
/// and neither what is known at another one, nor its announcements, nor
/// anything of anybody else.
pub proof fn law_failures_take_back_one_claim(view: RedeliveryView, peer: Seq<u8>, epoch: u64, other: Seq<u8>)
    ensures
        ({
            let after = after_failure(view, peer, epoch);
            &&& after.epochs.dom().contains(peer) <==> view.epochs.dom().contains(peer) && view.epochs[peer] != epoch
            &&& after.epochs.dom().contains(peer) ==> after.epochs[peer] == view.epochs[peer]
            &&& after.announces == view.announces
            &&& other != peer ==> {
                &&& after.epochs.dom().contains(other) == view.epochs.dom().contains(other)
                &&& view.epochs.dom().contains(other) ==> after.epochs[other] == view.epochs[other]
            }
        }),
{
}

/// One who is served at an epoch is not to be served there or at an earlier
/// one, and everybody else is: claiming says which, and marks the first kind.
pub proof fn law_claims_follow_the_epoch(seen: Map<Seq<u8>, u64>, peer: Seq<u8>, epoch: u64, asked: u64)
    ensures
        is_claimable(seen, peer, epoch) <==> !seen.dom().contains(peer) || seen[peer] < epoch,
        is_claimable(after_claim(seen, peer, epoch), peer, asked) <==> asked > epoch && is_claimable(seen, peer, asked),
{
}

/// A delivery of which either half failed is owed again, and one of which both
/// went through is not.
pub proof fn law_failed_halves_are_owed(redelivery: &mut Redelivery, peer: PeerId, epoch: u64, upgraded: bool, rotated: bool)
    requires
        call_ensures(Redelivery::on_delivered, (redelivery, peer, epoch, upgraded, rotated), ()),
        old(redelivery)@.epochs.dom().contains(peer@),
        old(redelivery)@.epochs[peer@] == epoch,
    ensures
        is_claimable(final(redelivery)@.epochs, peer@, epoch) <==> !(upgraded && rotated),
        final(redelivery)@.announces == old(redelivery)@.announces,
{
}

} // verus!
