use eth_phy::mdio::{encode_frame, BitCell, MdioBus, MiimFrame, Operation, PinRole};
use std::collections::HashMap;

/// A PHY on the simulated bus: it decodes the levels on the data line and
/// keeps a register file; registers never written read as all ones.
struct SimTarget {
    regs: HashMap<(u8, u8), u16>,
}

fn field(levels: &[bool]) -> u16 {
    levels.iter().fold(0u16, |acc, &b| (acc << 1) | (b as u16))
}

impl SimTarget {
    fn new() -> SimTarget {
        SimTarget { regs: HashMap::new() }
    }

    fn register(&self, phy: u8, reg: u8) -> u16 {
        *self.regs.get(&(phy, reg)).unwrap_or(&0xFFFF)
    }

    /// Runs one frame on `bus`. Returns the levels the line carried, cell by cell.
    fn transact(&mut self, bus: &mut MdioBus, frame: MiimFrame) -> Vec<bool> {
        bus.start(&frame);
        let mut line: Vec<bool> = Vec::new();
        let mut reply: Option<u16> = None;
        let mut sampled = 0;
        while let Some(step) = bus.next_step() {
            let level = match step.cell {
                BitCell::Drive(b) => b,
                BitCell::Release => true,
                BitCell::Sample => {
                    if reply.is_none() {
                        assert!(line[..32].iter().all(|&b| b));
                        assert_eq!(&line[32..36], &[false, true, true, false]);
                        let phy = field(&line[36..41]) as u8;
                        let reg = field(&line[41..46]) as u8;
                        reply = Some(self.register(phy, reg));
                    }
                    let bit = (reply.unwrap() >> (15 - sampled)) & 1 == 1;
                    sampled += 1;
                    bit
                }
            };
            line.push(level);
            bus.finish_cell(level);
        }
        if line.len() == 64 && line[34..36] == [false, true] {
            let phy = field(&line[36..41]) as u8;
            let reg = field(&line[41..46]) as u8;
            self.regs.insert((phy, reg), field(&line[48..64]));
        }
        line
    }
}

fn bits(s: &str) -> Vec<bool> {
    s.chars().filter(|c| *c == '0' || *c == '1').map(|c| c == '1').collect()
}

#[test]
fn literal_framing_check() {
    let cells = encode_frame(&MiimFrame::write(0, 4, 0x01E1));
    let mut expected = vec![true; 32];
    expected.extend(bits("01 01 00000 00100 10 0000000111100001"));
    let driven: Vec<BitCell> = expected.into_iter().map(BitCell::Drive).collect();
    assert_eq!(cells, driven);
}

#[test]
fn read_frame_layout() {
    let cells = encode_frame(&MiimFrame::read(0x11, 0x1F));
    assert_eq!(cells.len(), 64);
    let mut header = vec![true; 32];
    header.extend(bits("01 10 10001 11111"));
    let driven: Vec<BitCell> = header.into_iter().map(BitCell::Drive).collect();
    assert_eq!(&cells[..46], &driven[..]);
    assert_eq!(&cells[46..48], &[BitCell::Release, BitCell::Release]);
    assert!(cells[48..].iter().all(|c| *c == BitCell::Sample));
}

#[test]
fn write_then_read_round_trip() {
    let cases: [(u8, u8, u16); 6] = [
        (0, 0, 0x0000),
        (31, 31, 0xFFFF),
        (7, 4, 0x01E1),
        (1, 0, 0x8000),
        (16, 17, 0x0001),
        (5, 30, 0xA55A),
    ];
    let mut bus = MdioBus::new();
    let mut target = SimTarget::new();
    for (phy, reg, value) in cases {
        target.transact(&mut bus, MiimFrame::write(phy, reg, value));
        target.transact(&mut bus, MiimFrame::read(phy, reg));
        assert_eq!(bus.read_data(), value);
    }
}

#[test]
fn round_trip_over_many_values() {
    let mut bus = MdioBus::new();
    let mut target = SimTarget::new();
    for i in 0..2048u32 {
        let phy = (i % 32) as u8;
        let reg = ((i / 32) % 32) as u8;
        let value = (i.wrapping_mul(40503) & 0xFFFF) as u16;
        target.transact(&mut bus, MiimFrame::write(phy, reg, value));
        target.transact(&mut bus, MiimFrame::read(phy, reg));
        assert_eq!(bus.read_data(), value);
    }
}

#[test]
fn unwritten_register_reads_all_ones() {
    let mut bus = MdioBus::new();
    let mut target = SimTarget::new();
    target.transact(&mut bus, MiimFrame::read(3, 1));
    assert_eq!(bus.read_data(), 0xFFFF);
}

#[test]
fn data_line_role_switches_at_turnaround_only() {
    let mut bus = MdioBus::new();
    bus.start(&MiimFrame::read(2, 1));
    let mut switches: Vec<(usize, PinRole)> = Vec::new();
    let mut i = 0;
    while let Some(step) = bus.next_step() {
        if let Some(role) = step.switch_to {
            switches.push((i, role));
        }
        bus.finish_cell(false);
        i += 1;
    }
    assert_eq!(switches, vec![(0, PinRole::PushPullOutput), (46, PinRole::FloatingInput)]);
    assert!(bus.is_done());
    assert_eq!(bus.read_data(), 0);

    bus.start(&MiimFrame::write(2, 0, 0x1200));
    let first = bus.next_step().unwrap();
    assert_eq!(first.switch_to, Some(PinRole::PushPullOutput));
    assert_eq!(first.cell, BitCell::Drive(true));
}

#[test]
fn sampled_bits_shift_in_msb_first() {
    let mut bus = MdioBus::new();
    bus.start(&MiimFrame::read(0, 0));
    let pattern = bits("1011000000000001");
    let mut k = 0;
    while let Some(step) = bus.next_step() {
        let level = if step.cell == BitCell::Sample {
            k += 1;
            pattern[k - 1]
        } else {
            false
        };
        bus.finish_cell(level);
    }
    assert_eq!(bus.read_data(), 0xB001);
    assert_eq!(MiimFrame::read(0, 0).op, Operation::Read);
}
