//! The PHY on the management bus: finding its address, starting
//! autonegotiation, and watching the link for changes.
use crate::mdio::{MiimFrame, Operation};
use ieee802_3_miim::phy::lan87xxa::registers::Ssr;
use ieee802_3_miim::phy::PhySpeed;
use vstd::prelude::*;

verus! {

/// Basic control register.
pub const BASIC_CONTROL_REG: u8 = 0;

/// Basic control: restart autonegotiation (bit 9).
pub const BASIC_CONTROL_REG_REST_AUTO_NEG: u16 = 0x0200;

/// Basic control: enable autonegotiation (bit 12).
pub const BASIC_CONTROL_REG_AUTO_NEG_ENABLE: u16 = 0x1000;

/// Basic status register.
pub const BASIC_STATUS_REG: u8 = 1;

/// Basic status: the link is up (bit 2).
pub const BASIC_STATUS_REG_LINK_STATUS: u16 = 0x0004;

/// Basic status: autonegotiation is complete (bit 5).
pub const BASIC_STATUS_REG_AUTO_NEGO_COMPLETE: u16 = 0x0020;

/// Autonegotiation advertisement register.
pub const AUTO_NEGO_REG: u8 = 4;

/// What this board advertises: 10BASE-T and 100BASE-TX, half and full
/// duplex (bits 5 to 8), with the IEEE 802.3 selector field (1).
pub const ADVERTISEMENT: u16 = 0x01E1;

/// The LAN8720A special control/status register, which holds the speed and
/// duplex that autonegotiation settled on.
pub const SPECIAL_STATUS_REG: u8 = 31;

/// What an address with no PHY behind it reads: the idle-high line.
pub const NO_RESPONSE: u16 = 0xFFFF;

/// The register read at each address during discovery.
pub const PROBE_REGISTER: u8 = 0;

/// Number of PHY addresses on the bus.
pub const PHY_ADDRESSES: usize = 32;

/// The index of the first response that is not [`NO_RESPONSE`].
pub open spec fn first_responder(responses: Seq<u16>) -> Option<u8>
    decreases responses.len(),
{
    if responses.len() == 0 {
        None
    } else {
        match first_responder(responses.drop_last()) {
            Some(a) => Some(a),
            None => if responses.last() != NO_RESPONSE {
                Some((responses.len() - 1) as u8)
            } else {
                None
            },
        }
    }
}

/// One pass of discovery: addresses are probed from 0 upward, and the first
/// one whose probe register does not read [`NO_RESPONSE`] is the PHY's.
pub struct PhyScan {
    next: usize,
    found: Option<u8>,
    responses: Ghost<Seq<u16>>,
}

impl PhyScan {
    /// What the probes have read so far, by address.
    pub closed spec fn responses(&self) -> Seq<u16> {
        self.responses@
    }

    pub closed spec fn wf(&self) -> bool {
        &&& self.next == self.responses@.len()
        &&& self.next <= PHY_ADDRESSES
        &&& self.found == first_responder(self.responses@)
    }

    /// A pass that has probed nothing yet.
    pub fn new() -> (r: PhyScan)
        ensures
            r.wf(),
            r.responses() == Seq::<u16>::empty(),
    {
        PhyScan { next: 0, found: None, responses: Ghost(Seq::empty()) }
    }

    /// The address to probe next, or `None` once the PHY is found or every
    /// address has been probed.
    pub fn next_probe(&self) -> (r: Option<u8>)
        requires
            self.wf(),
        ensures
            r == (if first_responder(self.responses()) is None && self.responses().len()
                < PHY_ADDRESSES {
                Some(self.responses().len() as u8)
            } else {
                None
            }),
    {
        if self.found.is_none() && self.next < PHY_ADDRESSES {
            Some(self.next as u8)
        } else {
            None
        }
    }

    /// Records what the probe handed out by `next_probe` read.
    pub fn record(&mut self, response: u16)
        requires
            old(self).wf(),
            first_responder(old(self).responses()) is None,
            old(self).responses().len() < PHY_ADDRESSES,
        ensures
            final(self).wf(),
            final(self).responses() == old(self).responses().push(response),
            first_responder(final(self).responses()) == (if response != NO_RESPONSE {
                Some(old(self).responses().len() as u8)
            } else {
                None
            }),
    {
        let ghost next_responses = self.responses@.push(response);
        proof {
            assert(next_responses.drop_last() =~= self.responses@);
        }
        if response != NO_RESPONSE {
            self.found = Some(self.next as u8);
        }
        self.next = self.next + 1;
        self.responses = Ghost(next_responses);
    }

    /// The address of the PHY, once found.
    pub fn found(&self) -> (r: Option<u8>)
        requires
            self.wf(),
        ensures
            r == first_responder(self.responses()),
    {
        self.found
    }

    /// Whether every address was probed and none answered.
    pub fn exhausted(&self) -> (r: bool)
        requires
            self.wf(),
        ensures
            r == (first_responder(self.responses()) is None && self.responses().len()
                == PHY_ADDRESSES),
    {
        self.found.is_none() && self.next == PHY_ADDRESSES
    }
}

/// The writes that start autonegotiation on the PHY at `phy_address`, given
/// the current value of its basic control register: first the advertisement,
/// then the control register with autonegotiation enabled and restarted.
pub fn negotiate(phy_address: u8, control: u16) -> (r: Vec<MiimFrame>)
    requires
        phy_address < 32,
    ensures
        r@ == seq![
            MiimFrame {
                phy_address,
                register: AUTO_NEGO_REG,
                op: Operation::Write,
                data: ADVERTISEMENT,
            },
            MiimFrame {
                phy_address,
                register: BASIC_CONTROL_REG,
                op: Operation::Write,
                data: control | BASIC_CONTROL_REG_AUTO_NEG_ENABLE | BASIC_CONTROL_REG_REST_AUTO_NEG,
            },
        ],
        forall|i: int| 0 <= i < r@.len() ==> (#[trigger] r@[i]).wf(),
{
    let mut frames: Vec<MiimFrame> = Vec::new();
    frames.push(MiimFrame::write(phy_address, AUTO_NEGO_REG, ADVERTISEMENT));
    let restarted = control | BASIC_CONTROL_REG_AUTO_NEG_ENABLE | BASIC_CONTROL_REG_REST_AUTO_NEG;
    frames.push(MiimFrame::write(phy_address, BASIC_CONTROL_REG, restarted));
    proof {
        assert(frames@ =~= seq![
            MiimFrame {
                phy_address,
                register: AUTO_NEGO_REG,
                op: Operation::Write,
                data: ADVERTISEMENT,
            },
            MiimFrame {
                phy_address,
                register: BASIC_CONTROL_REG,
                op: Operation::Write,
                data: control | BASIC_CONTROL_REG_AUTO_NEG_ENABLE | BASIC_CONTROL_REG_REST_AUTO_NEG,
            },
        ]);
    }
    frames
}

/// Speed and duplex of an established link.
#[derive(Clone, Copy, Debug, PartialEq, Eq, Structural)]
pub enum SpeedDuplex {
    Half10,
    Full10,
    Half100,
    Full100,
}

/// The speed and duplex in a LAN8720A special status value: bit 4 is full
/// duplex, bit 2 is 10 Mb/s and bit 3 is 100 Mb/s, the first taking
/// precedence; with neither speed bit there is no speed to report.
pub open spec fn ssr_speed(ssr: u16) -> Option<SpeedDuplex> {
    let full = ssr & 0x0010 != 0;
    let mbit10 = ssr & 0x0004 != 0;
    let mbit100 = ssr & 0x0008 != 0;
    if mbit10 {
        Some(
            if full {
                SpeedDuplex::Full10
            } else {
                SpeedDuplex::Half10
            },
        )
    } else if mbit100 {
        Some(
            if full {
                SpeedDuplex::Full100
            } else {
                SpeedDuplex::Half100
            },
        )
    } else {
        None
    }
}

/// Relies on ieee802_3_miim's `Ssr::from_bits_truncate` and its conversion
/// `From<Ssr> for Option<PhySpeed>`, which read the speed and duplex bits of
/// the LAN8720A special status register as `ssr_speed` states.
#[verifier::external_body]
fn decode_special_status(ssr: u16) -> (r: Option<SpeedDuplex>)
    ensures
        r == ssr_speed(ssr),
{
    match Option::<PhySpeed>::from(Ssr::from_bits_truncate(ssr)) {
        Some(PhySpeed::HalfDuplexBase10T) => Some(SpeedDuplex::Half10),
        Some(PhySpeed::FullDuplexBase10T) => Some(SpeedDuplex::Full10),
        Some(PhySpeed::HalfDuplexBase100Tx) => Some(SpeedDuplex::Half100),
        Some(PhySpeed::FullDuplexBase100Tx) => Some(SpeedDuplex::Full100),
        None => None,
    }
}

/// The speed and duplex that a special status value reports.
pub fn link_speed(special_status: u16) -> (r: Option<SpeedDuplex>)
    ensures
        r == ssr_speed(special_status),
{
    decode_special_status(special_status)
}

/// A change the link monitor reports.
#[derive(Clone, Copy, Debug, PartialEq, Eq, Structural)]
pub enum LinkEvent {
    LinkUp,
    LinkDown,
    /// Autonegotiation completed, at this speed if the PHY reports one.
    NegotiationDone(Option<SpeedDuplex>),
    /// Autonegotiation is no longer complete.
    NegotiationPending,
}

/// What one poll reports: a change of the link, and a change of the
/// negotiation, each when there is one.
#[derive(Clone, Copy, Debug, PartialEq, Eq, Structural)]
pub struct LinkEvents {
    pub link: Option<LinkEvent>,
    pub negotiation: Option<LinkEvent>,
}

/// The PHY's link as last polled.
#[derive(Clone, Copy, Debug, PartialEq, Eq, Structural)]
pub struct LinkState {
    pub link_up: bool,
    pub autoneg_done: bool,
    pub speed_duplex: Option<SpeedDuplex>,
}

/// The link bit of a basic status value.
pub open spec fn status_link_up(status: u16) -> bool {
    status & BASIC_STATUS_REG_LINK_STATUS != 0
}

/// The autonegotiation-complete bit of a basic status value.
pub open spec fn status_autoneg_done(status: u16) -> bool {
    status & BASIC_STATUS_REG_AUTO_NEGO_COMPLETE != 0
}

/// The snapshot after a poll that read these two registers.
pub open spec fn snapshot(status: u16, special_status: u16) -> LinkState {
    LinkState {
        link_up: status_link_up(status),
        autoneg_done: status_autoneg_done(status),
        speed_duplex: if status_autoneg_done(status) {
            ssr_speed(special_status)
        } else {
            None
        },
    }
}

/// The events of a poll that moves the snapshot from `prev` to `next`.
pub open spec fn edges(prev: LinkState, next: LinkState) -> LinkEvents {
    LinkEvents {
        link: if next.link_up == prev.link_up {
            None
        } else if next.link_up {
            Some(LinkEvent::LinkUp)
        } else {
            Some(LinkEvent::LinkDown)
        },
        negotiation: if next.autoneg_done == prev.autoneg_done {
            None
        } else if next.autoneg_done {
            Some(LinkEvent::NegotiationDone(next.speed_duplex))
        } else {
            Some(LinkEvent::NegotiationPending)
        },
    }
}

/// An edge detector over the basic status register: each poll compares the
/// link and negotiation bits with the previous poll and reports what changed.
pub struct LinkMonitor {
    last: LinkState,
}

impl LinkMonitor {
    /// The snapshot of the last poll.
    pub closed spec fn last_spec(&self) -> LinkState {
        self.last
    }

    /// A monitor that has seen the link down and negotiation not done.
    pub fn new() -> (r: LinkMonitor)
        ensures
            r.last_spec() == (LinkState { link_up: false, autoneg_done: false, speed_duplex: None }),
    {
        LinkMonitor { last: LinkState { link_up: false, autoneg_done: false, speed_duplex: None } }
    }

    /// The snapshot of the last poll.
    pub fn last(&self) -> (r: LinkState)
        ensures
            r == self.last_spec(),
    {
        self.last
    }

    /// Takes the basic status and special status values just read, reports
    /// the edges since the previous poll, and keeps the new snapshot whether
    /// or not anything changed.
    pub fn poll(&mut self, status: u16, special_status: u16) -> (r: LinkEvents)
        ensures
            final(self).last_spec() == snapshot(status, special_status),
            r == edges(old(self).last_spec(), snapshot(status, special_status)),
    {
        let link_up = status & BASIC_STATUS_REG_LINK_STATUS != 0;
        let autoneg_done = status & BASIC_STATUS_REG_AUTO_NEGO_COMPLETE != 0;
        let speed_duplex = if autoneg_done {
            link_speed(special_status)
        } else {
            None
        };
        let next = LinkState { link_up, autoneg_done, speed_duplex };
        let link = if link_up == self.last.link_up {
            None
        } else if link_up {
            Some(LinkEvent::LinkUp)
        } else {
            Some(LinkEvent::LinkDown)
        };
        let negotiation = if autoneg_done == self.last.autoneg_done {
            None
        } else if autoneg_done {
            Some(LinkEvent::NegotiationDone(speed_duplex))
        } else {
            Some(LinkEvent::NegotiationPending)
        };
        self.last = next;
        LinkEvents { link, negotiation }
    }
}

} // verus!
