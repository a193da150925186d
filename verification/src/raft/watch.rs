//! The watch channel that carries the current topology to its readers.

use super::topology::{ClusterTopology, TopologyView};
use std::sync::Arc;
use vstd::prelude::*;

verus! {

/// `tokio::sync::watch::Sender`: the write half of a watch channel.
#[verifier::external_type_specification]
#[verifier::external_body]
#[verifier::reject_recursive_types(T)]
pub struct ExSender<T>(tokio::sync::watch::Sender<T>);

/// `tokio::sync::watch::Receiver`: a read half of a watch channel.
#[verifier::external_type_specification]
#[verifier::external_body]
#[verifier::reject_recursive_types(T)]
pub struct ExReceiver<T>(tokio::sync::watch::Receiver<T>);

/// The value that a watch channel holds, by its only sender.
pub uninterp spec fn held(tx: tokio::sync::watch::Sender<Arc<ClusterTopology>>) -> TopologyView;

/// Whether the channel of a receiver holds a value at some time, so that the
/// receiver can read it.
pub uninterp spec fn shows(
    rx: tokio::sync::watch::Receiver<Arc<ClusterTopology>>,
    t: TopologyView,
) -> bool;

/// Whether a receiver reads from the channel of a sender.
pub uninterp spec fn reads_from(
    rx: tokio::sync::watch::Receiver<Arc<ClusterTopology>>,
    tx: tokio::sync::watch::Sender<Arc<ClusterTopology>>,
) -> bool;

/// `tokio::sync::watch::channel` makes a channel that holds `initial`, with
/// its two halves.
#[verifier::external_body]
fn channel(initial: Arc<ClusterTopology>) -> (r: (
    tokio::sync::watch::Sender<Arc<ClusterTopology>>,
    tokio::sync::watch::Receiver<Arc<ClusterTopology>>,
))
    ensures
        held(r.0) == initial@,
        shows(r.1, initial@),
        reads_from(r.1, r.0),
{
    tokio::sync::watch::channel(initial)
}

/// `Receiver::clone` makes another read half of the same channel.
#[verifier::external_body]
fn another_receiver(rx: &tokio::sync::watch::Receiver<Arc<ClusterTopology>>) -> (r:
    tokio::sync::watch::Receiver<Arc<ClusterTopology>>)
    ensures
        forall|t: TopologyView| #[trigger] shows(r, t) == shows(*rx, t),
        forall|tx: tokio::sync::watch::Sender<Arc<ClusterTopology>>| #[trigger]
            reads_from(r, tx) == reads_from(*rx, tx),
{
    rx.clone()
}

/// `Sender::send_replace` replaces the value that the channel holds, whether
/// or not there is a receiver, and hands the previous value back. From then on
/// the receivers of the channel can read the value.
#[verifier::external_body]
fn send_replace(
    tx: &mut tokio::sync::watch::Sender<Arc<ClusterTopology>>,
    value: Arc<ClusterTopology>,
) -> (previous: Arc<ClusterTopology>)
    ensures
        held(*final(tx)) == value@,
        previous@ == held(*old(tx)),
        forall|rx: tokio::sync::watch::Receiver<Arc<ClusterTopology>>| #[trigger]
            reads_from(rx, *final(tx)) == reads_from(rx, *old(tx)),
        forall|rx: tokio::sync::watch::Receiver<Arc<ClusterTopology>>| #[trigger]
            reads_from(rx, *final(tx)) ==> shows(rx, value@),
{
    tx.send_replace(value)
}

/// `Sender::borrow` reads the value that the channel holds.
#[verifier::external_body]
fn sent(tx: &tokio::sync::watch::Sender<Arc<ClusterTopology>>) -> (r: Arc<ClusterTopology>)
    ensures
        r@ == held(*tx),
{
    Arc::clone(&*tx.borrow())
}

/// `Receiver::borrow` reads the value that the channel holds at the time.
/// Between two reads the sender may have replaced it, so which of the values
/// of the channel it is, is not said.
#[verifier::external_body]
fn received(rx: &tokio::sync::watch::Receiver<Arc<ClusterTopology>>) -> (r: Arc<ClusterTopology>)
    ensures
        shows(*rx, r@),
{
    Arc::clone(&*rx.borrow())
}

/// A cheap, cloneable handle for reading the current cluster topology.
///
/// Backed by a `tokio::sync::watch` channel so readers always see the latest
/// snapshot without contention.
pub struct TopologyWatch {
    rx: tokio::sync::watch::Receiver<Arc<ClusterTopology>>,
}

impl Clone for TopologyWatch {
    fn clone(&self) -> (r: Self)
        ensures
            forall|t: TopologyView| #[trigger] shows(r.receiver(), t) == shows(self.receiver(), t),
            forall|s: TopologySender| #[trigger] s.feeds(r) == s.feeds(*self),
    {
        TopologyWatch { rx: another_receiver(&self.rx) }
    }
}

impl TopologyWatch {
    /// Create a watch pair seeded with `initial`.
    pub fn new(initial: ClusterTopology) -> (r: (TopologySender, Self))
        ensures
            r.0@ == initial@,
            r.0.feeds(r.1),
            shows(r.1.receiver(), initial@),
    {
        let (tx, rx) = channel(Arc::new(initial));
        (TopologySender { tx }, TopologyWatch { rx })
    }

    /// The receiver that the handle reads from.
    pub closed spec fn receiver(&self) -> tokio::sync::watch::Receiver<Arc<ClusterTopology>> {
        self.rx
    }

    /// A handle on the given receiver.
    pub fn from_receiver(rx: tokio::sync::watch::Receiver<Arc<ClusterTopology>>) -> (r: Self)
        ensures
            r.receiver() == rx,
    {
        TopologyWatch { rx }
    }

    /// Return a snapshot of the current topology (cheap `Arc` clone).
    pub fn current(&self) -> (r: Arc<ClusterTopology>)
        ensures
            shows(self.receiver(), r@),
    {
        received(&self.rx)
    }

    /// Return a clone of the current topology.
    pub fn borrow(&self) -> (r: ClusterTopology)
        ensures
            shows(self.receiver(), r@),
    {
        let current = received(&self.rx);
        (*current).clone()
    }
}

/// The write half of the topology watch — held by the Raft state machine.
pub struct TopologySender {
    tx: tokio::sync::watch::Sender<Arc<ClusterTopology>>,
}

impl View for TopologySender {
    type V = TopologyView;

    /// The topology that readers see.
    closed spec fn view(&self) -> TopologyView {
        held(self.tx)
    }
}

impl TopologySender {
    /// Whether a watch reads what this sender publishes.
    pub closed spec fn feeds(&self, watch: TopologyWatch) -> bool {
        reads_from(watch.rx, self.tx)
    }

    /// Publish a new topology snapshot to all [`TopologyWatch`] receivers.
    pub fn publish(&mut self, topology: ClusterTopology)
        ensures
            final(self)@ == topology@,
            forall|w: TopologyWatch| #[trigger] final(self).feeds(w) == old(self).feeds(w),
            forall|w: TopologyWatch| #[trigger]
                final(self).feeds(w) ==> shows(w.receiver(), topology@),
    {
        send_replace(&mut self.tx, Arc::new(topology));
    }

    /// The topology that readers see.
    pub fn latest(&self) -> (r: Arc<ClusterTopology>)
        ensures
            r@ == self@,
    {
        sent(&self.tx)
    }
}

} // verus!
