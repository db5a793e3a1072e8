use vstd::prelude::*;

verus! {

/// An identifier of an interface: its class and its number within the class.
#[derive(Debug, Clone, Copy, PartialEq, Eq, Structural, PartialOrd, Ord)]
pub struct IfaceId {
    pub iface_class: u16,
    pub iface_no: u16,
}

/// The size a layer asks for when it allocates a packet buffer.
#[derive(Debug, Clone, Copy, PartialEq, Eq, Structural)]
pub enum SizeReq {
    /// Exactly this many bytes.
    Exactly(u16),
    /// At least this many bytes; as many as fit.
    AtLeast(u16),
    /// Between the two bounds; as many as fit.
    Range(u16, u16),
    /// As many bytes as fit.
    Max,
}

impl SizeReq {
    /// The size to allocate under `mtu`, or `None` when the request cannot
    /// be met.
    pub open spec fn spec_optimal_size(&self, mtu: usize) -> Option<usize> {
        match *self {
            SizeReq::Exactly(v) => if v as usize <= mtu {
                Some(v as usize)
            } else {
                None
            },
            SizeReq::AtLeast(v) => if v as usize > mtu {
                None
            } else {
                Some(mtu)
            },
            SizeReq::Range(from, to) => if from as usize > mtu {
                None
            } else if mtu < to as usize {
                Some(mtu)
            } else {
                Some(to as usize)
            },
            SizeReq::Max => Some(mtu),
        }
    }

    /// The size to allocate under `mtu`: the exact size if it fits, the
    /// whole `mtu` for a lower bound it meets, `mtu` capped at the upper end
    /// of a range whose lower end it meets, or `mtu` itself.
    pub fn optimal_size(&self, mtu: usize) -> (r: Option<usize>)
        ensures
            r == self.spec_optimal_size(mtu),
    {
        match *self {
            SizeReq::Exactly(v) => {
                if v as usize <= mtu {
                    Some(v as usize)
                } else {
                    None
                }
            },
            SizeReq::AtLeast(v) => {
                if v as usize > mtu {
                    None
                } else {
                    Some(mtu)
                }
            },
            SizeReq::Range(from, to) => {
                if from as usize > mtu {
                    None
                } else if mtu < to as usize {
                    Some(mtu)
                } else {
                    Some(to as usize)
                }
            },
            SizeReq::Max => Some(mtu),
        }
    }
}

} // verus!
