//! Turning the attached HID interfaces into connection candidates.
use vstd::prelude::*;
use vstd::string::*;
use crate::kind::{generation, identifies, suffix_of, Kind, USAGE_ID, USAGE_PAGE};

verus! {

/// What the scan reads of one attached HID interface.
#[derive(Debug, Clone)]
pub struct HidInterface {
    pub usage_page: u16,
    pub usage_id: u16,
    pub vendor_id: u16,
    pub product_id: u16,
    /// Serial number the hardware reports, or its path where it reports none.
    pub serial: String,
}

/// An interface that matched the catalog, ready for a session to be started on it.
#[derive(Debug, Clone)]
pub struct CandidateDevice {
    /// Logical id under which the device is known to the host.
    pub id: String,
    /// Position of the interface in the scanned list.
    pub dev: usize,
    pub kind: Kind,
}

/// Whether an interface answers one of the catalog's queries.
pub open spec fn matches_catalog(i: HidInterface) -> bool {
    &&& i.usage_page == USAGE_PAGE
    &&& i.usage_id == USAGE_ID
    &&& exists|k: Kind| #[trigger] identifies(k, i.vendor_id, i.product_id)
}

/// Logical id of a device: its serial, followed by the kind's suffix on
/// first-generation kinds, whose units all report the same serial.
pub open spec fn logical_id(serial: Seq<char>, k: Kind) -> Seq<char> {
    if generation(k) == 1 {
        serial + suffix_of(k).unwrap()
    } else {
        serial
    }
}

/// Computes the logical id of a device of the given kind.
pub fn candidate_id(serial: &String, kind: Kind) -> (r: String)
    ensures
        r@ == logical_id(serial@, kind),
{
    let mut id = serial.clone();
    if kind.protocol_version() == 1 {
        let suffix = kind.id_suffix();
        id.append(suffix.as_str());
    }
    id
}

/// Whether a candidate stands for the interface at its position, resolved and named.
pub open spec fn describes(c: CandidateDevice, ifaces: Seq<HidInterface>) -> bool {
    &&& c.dev < ifaces.len()
    &&& matches_catalog(ifaces[c.dev as int])
    &&& identifies(c.kind, ifaces[c.dev as int].vendor_id, ifaces[c.dev as int].product_id)
    &&& c.id@ == logical_id(ifaces[c.dev as int].serial@, c.kind)
}

/// Keeps the interfaces that answer a catalog query, in their order, each
/// resolved to its kind and given its logical id.
pub fn scan(interfaces: &Vec<HidInterface>) -> (r: Vec<CandidateDevice>)
    ensures
        forall|j: int| 0 <= j < r.len() ==> describes(#[trigger] r@[j], interfaces@),
        forall|j: int, l: int| 0 <= j < l < r.len() ==> #[trigger] r@[j].dev < #[trigger] r@[l].dev,
        forall|i: int|
            0 <= i < interfaces.len() && #[trigger] matches_catalog(interfaces@[i]) ==> exists|
                j: int,
            |
                0 <= j < r.len() && #[trigger] r@[j].dev == i,
{
    let mut out: Vec<CandidateDevice> = Vec::new();
    let n = interfaces.len();
    for i in 0..n
        invariant
            n == interfaces.len(),
            forall|j: int| 0 <= j < out.len() ==> describes(#[trigger] out@[j], interfaces@),
            forall|j: int, l: int|
                0 <= j < l < out.len() ==> #[trigger] out@[j].dev < #[trigger] out@[l].dev,
            forall|j: int| 0 <= j < out.len() ==> #[trigger] out@[j].dev < i,
            forall|m: int|
                0 <= m < i && #[trigger] matches_catalog(interfaces@[m]) ==> exists|j: int|
                    0 <= j < out.len() && #[trigger] out@[j].dev == m,
    {
        let iface = &interfaces[i];
        if iface.usage_page == USAGE_PAGE && iface.usage_id == USAGE_ID {
            match Kind::from_vid_pid(iface.vendor_id, iface.product_id) {
                Some(kind) => {
                    assert(identifies(kind, iface.vendor_id, iface.product_id));
                    let id = candidate_id(&iface.serial, kind);
                    let c = CandidateDevice { id, dev: i, kind };
                    let ghost old_out = out@;
                    out.push(c);
                    proof {
                        assert(describes(out@[out.len() - 1], interfaces@));
                        assert forall|m: int|
                            0 <= m < i + 1 && #[trigger] matches_catalog(
                                interfaces@[m],
                            ) implies exists|j: int|
                            0 <= j < out.len() && #[trigger] out@[j].dev == m by {
                            if m < i {
                                let j = choose|j: int|
                                    0 <= j < old_out.len() && #[trigger] old_out[j].dev == m;
                                assert(out@[j] == old_out[j]);
                            } else {
                                assert(out@[out.len() - 1].dev == m);
                            }
                        }
                    }
                },
                None => {
                    proof {
                        assert(!matches_catalog(interfaces@[i as int]));
                    }
                },
            }
        }
    }
    out
}

} // verus!
