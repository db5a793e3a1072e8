use vstd::prelude::*;

use crate::error::Error;
use crate::wire::EthernetFrame;

verus! {

/// A link-layer device as a pair of frame queues: frames waiting to be
/// received, and frames transmitted, up to a bound. A driver moves frames
/// between these queues and the wire.
#[derive(Debug)]
pub struct FrameQueue {
    rx: Vec<EthernetFrame>,
    tx: Vec<EthernetFrame>,
    tx_limit: usize,
    mtu: usize,
}

impl FrameQueue {
    pub closed spec fn rx_view(&self) -> Seq<EthernetFrame> {
        self.rx@
    }

    pub closed spec fn tx_view(&self) -> Seq<EthernetFrame> {
        self.tx@
    }

    pub closed spec fn spec_tx_limit(&self) -> nat {
        self.tx_limit as nat
    }

    pub closed spec fn spec_mtu(&self) -> usize {
        self.mtu
    }

    /// Room for one more transmitted frame.
    pub open spec fn can_transmit(&self) -> bool {
        self.tx_view().len() < self.spec_tx_limit()
    }

    /// A device with empty queues that holds up to `tx_limit` transmitted
    /// frames and carries `mtu` bytes of Ethernet payload per frame.
    pub fn new(tx_limit: usize, mtu: usize) -> (r: FrameQueue)
        ensures
            r.rx_view().len() == 0,
            r.tx_view().len() == 0,
            r.spec_tx_limit() == tx_limit,
            r.spec_mtu() == mtu,
    {
        FrameQueue { rx: Vec::new(), tx: Vec::new(), tx_limit, mtu }
    }

    /// The Ethernet payload size the device carries.
    pub fn mtu(&self) -> (r: usize)
        ensures
            r == self.spec_mtu(),
    {
        self.mtu
    }

    /// Queue a frame for reception.
    pub fn inject(&mut self, frame: EthernetFrame)
        ensures
            final(self).rx_view() == old(self).rx_view().push(frame),
            final(self).tx_view() == old(self).tx_view(),
            final(self).spec_tx_limit() == old(self).spec_tx_limit(),
            final(self).spec_mtu() == old(self).spec_mtu(),
    {
        self.rx.push(frame);
    }

    /// Take the oldest frame waiting for reception. `Exhausted` when none is.
    pub fn receive(&mut self) -> (r: Result<EthernetFrame, Error>)
        ensures
            final(self).tx_view() == old(self).tx_view(),
            final(self).spec_tx_limit() == old(self).spec_tx_limit(),
            final(self).spec_mtu() == old(self).spec_mtu(),
            old(self).rx_view().len() == 0 ==> r == Err::<EthernetFrame, Error>(Error::Exhausted)
                && final(self).rx_view() == old(self).rx_view(),
            old(self).rx_view().len() > 0 ==> r == Ok::<EthernetFrame, Error>(old(self).rx_view()[0])
                && final(self).rx_view() == old(self).rx_view().drop_first(),
    {
        if self.rx.len() == 0 {
            Err(Error::Exhausted)
        } else {
            let f = self.rx.remove(0);
            assert(self.rx@ =~= old(self).rx@.drop_first());
            Ok(f)
        }
    }

    /// Whether a frame can be transmitted now.
    pub fn has_room(&self) -> (r: bool)
        ensures
            r == self.can_transmit(),
    {
        self.tx.len() < self.tx_limit
    }

    /// Transmit a frame. `Exhausted` when the transmit queue is full.
    pub fn transmit(&mut self, frame: EthernetFrame) -> (r: Result<(), Error>)
        ensures
            final(self).rx_view() == old(self).rx_view(),
            final(self).spec_tx_limit() == old(self).spec_tx_limit(),
            final(self).spec_mtu() == old(self).spec_mtu(),
            !old(self).can_transmit() ==> r == Err::<(), Error>(Error::Exhausted) && final(self).tx_view() == old(self).tx_view(),
            old(self).can_transmit() ==> r is Ok && final(self).tx_view() == old(self).tx_view().push(
                frame,
            ),
    {
        if self.tx.len() < self.tx_limit {
            self.tx.push(frame);
            Ok(())
        } else {
            Err(Error::Exhausted)
        }
    }

    /// Hand out the transmitted frames, oldest first, and empty the queue.
    pub fn take_transmitted(&mut self) -> (r: Vec<EthernetFrame>)
        ensures
            r@ == old(self).tx_view(),
            final(self).tx_view().len() == 0,
            final(self).rx_view() == old(self).rx_view(),
            final(self).spec_tx_limit() == old(self).spec_tx_limit(),
            final(self).spec_mtu() == old(self).spec_mtu(),
    {
        let mut out: Vec<EthernetFrame> = Vec::new();
        std::mem::swap(&mut out, &mut self.tx);
        out
    }
}

} // verus!
