use eth_phy::mdio::MiimFrame;
use eth_phy::phy::{
    link_speed, negotiate, LinkEvent, LinkEvents, LinkMonitor, PhyScan, SpeedDuplex,
    ADVERTISEMENT, NO_RESPONSE,
};

/// Runs one discovery pass against `respond`; returns the probed addresses and the result.
fn scan(respond: impl Fn(u8) -> u16) -> (Vec<u8>, Option<u8>, bool) {
    let mut pass = PhyScan::new();
    let mut probed = Vec::new();
    while let Some(address) = pass.next_probe() {
        probed.push(address);
        pass.record(respond(address));
    }
    (probed, pass.found(), pass.exhausted())
}

#[test]
fn discovery_finds_address_seven() {
    let (probed, found, exhausted) = scan(|a| if a == 7 { 0x3100 } else { NO_RESPONSE });
    assert_eq!(found, Some(7));
    assert_eq!(probed, (0..=7).collect::<Vec<u8>>());
    assert!(!exhausted);
}

#[test]
fn discovery_takes_the_lowest_address() {
    let (probed, found, _) = scan(|a| if a >= 3 { 0x0000 } else { NO_RESPONSE });
    assert_eq!(found, Some(3));
    assert_eq!(probed.len(), 4);
    let (probed, found, _) = scan(|_| 0x1234);
    assert_eq!(found, Some(0));
    assert_eq!(probed, vec![0]);
}

#[test]
fn discovery_pass_without_phy_is_exhausted() {
    let (probed, found, exhausted) = scan(|_| NO_RESPONSE);
    assert_eq!(found, None);
    assert!(exhausted);
    assert_eq!(probed, (0..32).collect::<Vec<u8>>());
    let (_, found, _) = scan(|a| if a == 31 { 0x7809 } else { NO_RESPONSE });
    assert_eq!(found, Some(31));
}

#[test]
fn negotiation_writes_advertisement_then_restart() {
    assert_eq!(ADVERTISEMENT, 0x01E1);
    let frames = negotiate(1, 0x3000);
    assert_eq!(frames, vec![MiimFrame::write(1, 4, 0x01E1), MiimFrame::write(1, 0, 0x3200)]);
    let frames = negotiate(31, 0x0200);
    assert_eq!(frames[1], MiimFrame::write(31, 0, 0x1200));
    let frames = negotiate(2, 0x0000);
    assert_eq!(frames[1], MiimFrame::write(2, 0, 0x1200));
}

#[test]
fn link_edge_detection() {
    let mut monitor = LinkMonitor::new();
    let statuses = [0x0000u16, 0x0000, 0x0004, 0x0004, 0x0000];
    let events: Vec<LinkEvents> = statuses.iter().map(|&s| monitor.poll(s, 0)).collect();
    let link: Vec<Option<LinkEvent>> = events.iter().map(|e| e.link).collect();
    assert_eq!(link, vec![None, None, Some(LinkEvent::LinkUp), None, Some(LinkEvent::LinkDown)]);
    assert!(events.iter().all(|e| e.negotiation.is_none()));
    assert!(!monitor.last().link_up);
}

#[test]
fn negotiation_edges_carry_speed() {
    let mut monitor = LinkMonitor::new();
    let first = monitor.poll(0x0024, 0x1018);
    assert_eq!(first.link, Some(LinkEvent::LinkUp));
    assert_eq!(first.negotiation, Some(LinkEvent::NegotiationDone(Some(SpeedDuplex::Full100))));
    assert_eq!(monitor.last().speed_duplex, Some(SpeedDuplex::Full100));
    let same = monitor.poll(0x0024, 0x1018);
    assert_eq!(same, LinkEvents { link: None, negotiation: None });
    let lost = monitor.poll(0x0004, 0x1018);
    assert_eq!(lost.negotiation, Some(LinkEvent::NegotiationPending));
    assert_eq!(lost.link, None);
    assert_eq!(monitor.last().speed_duplex, None);
    let unknown = monitor.poll(0x0020, 0x1000);
    assert_eq!(unknown.negotiation, Some(LinkEvent::NegotiationDone(None)));
    assert_eq!(unknown.link, Some(LinkEvent::LinkDown));
}

#[test]
fn special_status_speed_decoding() {
    assert_eq!(link_speed(0x0004), Some(SpeedDuplex::Half10));
    assert_eq!(link_speed(0x0014), Some(SpeedDuplex::Full10));
    assert_eq!(link_speed(0x0008), Some(SpeedDuplex::Half100));
    assert_eq!(link_speed(0x1018), Some(SpeedDuplex::Full100));
    assert_eq!(link_speed(0x000C), Some(SpeedDuplex::Half10));
    assert_eq!(link_speed(0x0000), None);
    assert_eq!(link_speed(0x1010), None);
}
