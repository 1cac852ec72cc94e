//! Clause-22 management frames, as bit cells on the data line, and the engine
//! that clocks them out and samples the replies.
use vstd::arithmetic::div_mod::{lemma_div_denominator, lemma_mod_breakdown};
use vstd::arithmetic::power2::{lemma_pow2_pos, lemma_pow2_unfold, pow2};
use vstd::bits::lemma_u16_shr_is_div;
use vstd::prelude::*;

verus! {

/// Number of one bits sent before every frame.
pub const PREAMBLE_BITS: usize = 32;

/// Number of bit cells in a clause-22 frame, preamble included.
pub const FRAME_CELLS: usize = 64;

/// Width of the address fields.
pub const ADDRESS_BITS: u16 = 5;

/// Width of the data field.
pub const DATA_BITS: u16 = 16;

/// Whether a transaction reads or writes a register.
#[derive(Clone, Copy, Debug, PartialEq, Eq, Structural)]
pub enum Operation {
    Read,
    Write,
}

/// One management transaction. `data` is what a write stores; a read ignores it.
#[derive(Clone, Copy, Debug, PartialEq, Eq, Structural)]
pub struct MiimFrame {
    pub phy_address: u8,
    pub register: u8,
    pub op: Operation,
    pub data: u16,
}

impl MiimFrame {
    /// Both address fields fit in five bits.
    pub open spec fn wf(&self) -> bool {
        self.phy_address < 32 && self.register < 32
    }

    pub fn read(phy_address: u8, register: u8) -> (r: MiimFrame)
        ensures
            r == (MiimFrame { phy_address, register, op: Operation::Read, data: 0 }),
    {
        MiimFrame { phy_address, register, op: Operation::Read, data: 0 }
    }

    pub fn write(phy_address: u8, register: u8, data: u16) -> (r: MiimFrame)
        ensures
            r == (MiimFrame { phy_address, register, op: Operation::Write, data }),
    {
        MiimFrame { phy_address, register, op: Operation::Write, data }
    }
}

/// What the data line does during one bit cell: clock low for one time unit,
/// then clock high for one time unit.
#[derive(Clone, Copy, Debug, PartialEq, Eq, Structural)]
pub enum BitCell {
    /// The master drives this level while the clock is low.
    Drive(bool),
    /// The master leaves the line floating and ignores it.
    Release,
    /// The master leaves the line floating and samples it before the clock rises.
    Sample,
}

/// Bit `k` of `v`, counting from the least significant.
pub open spec fn bit_of(v: nat, k: nat) -> bool {
    (v / pow2(k)) % 2 == 1
}

/// The low `width` bits of `v`, most significant first.
pub open spec fn msb_bits(v: nat, width: nat) -> Seq<bool> {
    Seq::new(width, |i: int| bit_of(v, (width - 1 - i) as nat))
}

/// The number spelled by a sequence of bits, most significant first.
pub open spec fn bits_value(s: Seq<bool>) -> nat
    decreases s.len(),
{
    if s.len() == 0 {
        0
    } else {
        2 * bits_value(s.drop_last()) + (if s.last() { 1nat } else { 0nat })
    }
}

/// Cells that drive the given levels, in order.
pub open spec fn drives(bits: Seq<bool>) -> Seq<BitCell> {
    bits.map_values(|b: bool| BitCell::Drive(b))
}

/// The operation field: `10` reads, `01` writes.
pub open spec fn op_bits(op: Operation) -> Seq<bool> {
    match op {
        Operation::Read => seq![true, false],
        Operation::Write => seq![false, true],
    }
}

/// Preamble, start of frame, operation and both addresses: all driven by the master.
pub open spec fn header_bits(f: MiimFrame) -> Seq<bool> {
    Seq::new(PREAMBLE_BITS as nat, |i: int| true) + seq![false, true] + op_bits(f.op)
        + msb_bits(f.phy_address as nat, 5) + msb_bits(f.register as nat, 5)
}

/// Turnaround: a write drives `10`; a read releases the line for the target.
pub open spec fn turnaround(op: Operation) -> Seq<BitCell> {
    match op {
        Operation::Read => seq![BitCell::Release, BitCell::Release],
        Operation::Write => seq![BitCell::Drive(true), BitCell::Drive(false)],
    }
}

/// The data field: a write drives its value, a read samples sixteen bits.
pub open spec fn data_field(f: MiimFrame) -> Seq<BitCell> {
    match f.op {
        Operation::Read => Seq::new(DATA_BITS as nat, |i: int| BitCell::Sample),
        Operation::Write => drives(msb_bits(f.data as nat, DATA_BITS as nat)),
    }
}

/// Every bit cell of a frame, in the order they go on the wire.
pub open spec fn frame_cells(f: MiimFrame) -> Seq<BitCell> {
    drives(header_bits(f)) + turnaround(f.op) + data_field(f)
}

/// Spelling out the low `width` bits of `v` and reading them back gives `v` modulo `2^width`.
pub proof fn lemma_bits_value_msb(v: nat, width: nat)
    ensures
        bits_value(msb_bits(v, width)) == v % pow2(width),
    decreases width,
{
    lemma_pow2_pos(width);
    if width == 0 {
        assert(pow2(0) == 1) by {
            vstd::arithmetic::power2::lemma2_to64();
        }
    } else {
        let s = msb_bits(v, width);
        let w1 = (width - 1) as nat;
        assert forall|i: int| 0 <= i < w1 implies #[trigger] s.drop_last()[i] == msb_bits(
            v / 2,
            w1,
        )[i] by {
            let k = (w1 - 1 - i) as nat;
            lemma_pow2_pos(k);
            lemma_pow2_unfold(k + 1);
            lemma_div_denominator(v as int, 2, pow2(k) as int);
        }
        assert(s.drop_last() =~= msb_bits(v / 2, w1));
        assert(pow2(0) == 1) by {
            vstd::arithmetic::power2::lemma2_to64();
        }
        lemma_bits_value_msb(v / 2, w1);
        lemma_pow2_pos(w1);
        lemma_pow2_unfold(width);
        lemma_mod_breakdown(v as int, 2, pow2(w1) as int);
        assert(s.last() == bit_of(v, 0));
        assert(v / 1 == v);
        assert(s.last() == (v % 2 == 1));
        assert(bits_value(s) == 2 * bits_value(s.drop_last()) + (if s.last() { 1nat } else { 0nat }));
        assert((if s.last() { 1nat } else { 0nat }) == v % 2);
    }
}

/// Appends the cells that drive the low `width` bits of `v`, most significant first.
fn push_bits(out: &mut Vec<BitCell>, v: u16, width: u16)
    requires
        width <= DATA_BITS,
    ensures
        final(out)@ == old(out)@ + drives(msb_bits(v as nat, width as nat)),
{
    let ghost start = out@;
    let ghost bits = msb_bits(v as nat, width as nat);
    let mut k: u16 = width;
    while k > 0
        invariant
            k <= width <= 16,
            bits == msb_bits(v as nat, width as nat),
            out@ == start + drives(bits.take(width - k)),
        decreases k,
    {
        k = k - 1;
        let shifted = v >> k;
        let bit = shifted & 1 == 1;
        proof {
            lemma_u16_shr_is_div(v, k);
            assert(shifted & 1 == shifted % 2) by (bit_vector);
            assert(bit == bits[width - 1 - k]);
        }
        out.push(BitCell::Drive(bit));
        proof {
            assert(bits.take(width - k) =~= bits.take(width - 1 - k).push(bit));
            assert(drives(bits.take(width - k)) =~= drives(bits.take(width - 1 - k)).push(
                BitCell::Drive(bit),
            ));
        }
    }
    proof {
        assert(bits.take(width as int) =~= bits);
    }
}

/// Appends `n` copies of `cell`.
fn push_cells(out: &mut Vec<BitCell>, cell: BitCell, n: usize)
    ensures
        final(out)@ == old(out)@ + Seq::new(n as nat, |i: int| cell),
{
    let ghost start = out@;
    let mut i: usize = 0;
    while i < n
        invariant
            i <= n,
            out@ == start + Seq::new(i as nat, |j: int| cell),
        decreases n - i,
    {
        out.push(cell);
        i = i + 1;
        proof {
            assert(start + Seq::new(i as nat, |j: int| cell) =~= (start + Seq::new(
                (i - 1) as nat,
                |j: int| cell,
            )).push(cell));
        }
    }
}

/// The bit cells of `frame`, in the order they go on the wire.
pub fn encode_frame(frame: &MiimFrame) -> (r: Vec<BitCell>)
    requires
        frame.wf(),
    ensures
        r@ == frame_cells(*frame),
        r@.len() == FRAME_CELLS,
{
    let mut out: Vec<BitCell> = Vec::new();
    push_cells(&mut out, BitCell::Drive(true), PREAMBLE_BITS);
    out.push(BitCell::Drive(false));
    out.push(BitCell::Drive(true));
    match frame.op {
        Operation::Read => {
            out.push(BitCell::Drive(true));
            out.push(BitCell::Drive(false));
        },
        Operation::Write => {
            out.push(BitCell::Drive(false));
            out.push(BitCell::Drive(true));
        },
    }
    let ghost before_addr = out@;
    push_bits(&mut out, frame.phy_address as u16, ADDRESS_BITS);
    push_bits(&mut out, frame.register as u16, ADDRESS_BITS);
    let ghost header = out@;
    proof {
        let f = *frame;
        assert(before_addr =~= drives(
            Seq::new(PREAMBLE_BITS as nat, |i: int| true) + seq![false, true] + op_bits(f.op),
        ));
        assert(header =~= drives(header_bits(f)));
    }
    match frame.op {
        Operation::Read => {
            out.push(BitCell::Release);
            out.push(BitCell::Release);
            push_cells(&mut out, BitCell::Sample, DATA_BITS as usize);
        },
        Operation::Write => {
            out.push(BitCell::Drive(true));
            out.push(BitCell::Drive(false));
            push_bits(&mut out, frame.data, DATA_BITS);
        },
    }
    proof {
        assert(out@ =~= frame_cells(*frame));
    }
    out
}

/// The electrical role of a pin: exactly one is active at a time.
#[derive(Clone, Copy, Debug, PartialEq, Eq, Structural)]
pub enum PinRole {
    PushPullOutput,
    FloatingInput,
}

/// The role the data line needs during a cell.
pub open spec fn role_for(c: BitCell) -> PinRole {
    match c {
        BitCell::Drive(_) => PinRole::PushPullOutput,
        _ => PinRole::FloatingInput,
    }
}

/// One bit cell to perform, with the role the data line must be switched to
/// before the clock goes low (`None` when it already has it).
#[derive(Clone, Copy, Debug, PartialEq, Eq, Structural)]
pub struct CellStep {
    pub switch_to: Option<PinRole>,
    pub cell: BitCell,
}

pub open spec fn step_for(role: PinRole, c: BitCell) -> CellStep {
    CellStep {
        switch_to: if role_for(c) == role {
            None
        } else {
            Some(role_for(c))
        },
        cell: c,
    }
}

/// The role the data line needs during `c`.
pub fn cell_role(c: BitCell) -> (r: PinRole)
    ensures
        r == role_for(c),
{
    match c {
        BitCell::Drive(_) => PinRole::PushPullOutput,
        _ => PinRole::FloatingInput,
    }
}

/// The data line drives every cell of a write. In a read it drives up to
/// the turnaround and floats from there to the end, so its role changes once,
/// at that frame boundary.
pub proof fn lemma_frame_roles(f: MiimFrame)
    requires
        f.wf(),
    ensures
        forall|i: int|
            0 <= i < FRAME_CELLS ==> #[trigger] role_for(frame_cells(f)[i]) == (if f.op
                == Operation::Read && i >= 46 {
                PinRole::FloatingInput
            } else {
                PinRole::PushPullOutput
            }),
{
    let cells = frame_cells(f);
    let hb = header_bits(f);
    assert forall|i: int| 0 <= i < FRAME_CELLS implies #[trigger] role_for(cells[i]) == (if f.op
        == Operation::Read && i >= 46 {
        PinRole::FloatingInput
    } else {
        PinRole::PushPullOutput
    }) by {
        if i < 46 {
            assert(cells[i] == BitCell::Drive(hb[i]));
        }
    }
}

/// The bus engine: it owns the role of the data line and walks the cells of
/// one frame at a time. The caller performs each cell on the pins and reports
/// the level it saw on the data line; sampled levels shift into the result.
pub struct MdioBus {
    data_role: PinRole,
    cells: Vec<BitCell>,
    pos: usize,
    shift: u16,
    samples: Ghost<Seq<bool>>,
}

impl MdioBus {
    /// The current role of the data line.
    pub closed spec fn role(&self) -> PinRole {
        self.data_role
    }

    /// The cells of the frame in progress.
    pub closed spec fn cells(&self) -> Seq<BitCell> {
        self.cells@
    }

    /// How many of those cells are done.
    pub closed spec fn pos(&self) -> nat {
        self.pos as nat
    }

    /// The levels sampled so far in this frame, in order.
    pub closed spec fn samples(&self) -> Seq<bool> {
        self.samples@
    }

    pub closed spec fn wf(&self) -> bool {
        &&& self.pos <= self.cells@.len() <= FRAME_CELLS
        &&& self.shift == bits_value(self.samples@) % 0x10000
    }

    /// An idle engine; the data line starts floating, as after reset.
    pub fn new() -> (r: MdioBus)
        ensures
            r.wf(),
            r.role() == PinRole::FloatingInput,
            r.cells() == Seq::<BitCell>::empty(),
            r.pos() == 0,
            r.samples() == Seq::<bool>::empty(),
    {
        MdioBus {
            data_role: PinRole::FloatingInput,
            cells: Vec::new(),
            pos: 0,
            shift: 0,
            samples: Ghost(Seq::empty()),
        }
    }

    /// Loads `frame`, preamble first. The data line keeps its role until a
    /// cell needs another.
    pub fn start(&mut self, frame: &MiimFrame)
        requires
            old(self).wf(),
            frame.wf(),
        ensures
            final(self).wf(),
            final(self).cells() == frame_cells(*frame),
            final(self).pos() == 0,
            final(self).samples() == Seq::<bool>::empty(),
            final(self).role() == old(self).role(),
    {
        self.cells = encode_frame(frame);
        self.pos = 0;
        self.shift = 0;
        self.samples = Ghost(Seq::empty());
    }

    /// The next cell to perform, or `None` when the frame is complete.
    pub fn next_step(&self) -> (r: Option<CellStep>)
        requires
            self.wf(),
        ensures
            r == (if self.pos() < self.cells().len() {
                Some(step_for(self.role(), self.cells()[self.pos() as int]))
            } else {
                None
            }),
    {
        if self.pos < self.cells.len() {
            let c = self.cells[self.pos];
            let needed = cell_role(c);
            let switch_to = if needed == self.data_role {
                None
            } else {
                Some(needed)
            };
            Some(CellStep { switch_to, cell: c })
        } else {
            None
        }
    }

    /// Completes the current cell; `level` is what the data line read before
    /// the clock rose, and counts only in a sampled cell.
    pub fn finish_cell(&mut self, level: bool)
        requires
            old(self).wf(),
            old(self).pos() < old(self).cells().len(),
        ensures
            final(self).wf(),
            final(self).cells() == old(self).cells(),
            final(self).pos() == old(self).pos() + 1,
            final(self).role() == role_for(old(self).cells()[old(self).pos() as int]),
            final(self).samples() == (if old(self).cells()[old(self).pos() as int]
                == BitCell::Sample {
                old(self).samples().push(level)
            } else {
                old(self).samples()
            }),
    {
        let c = self.cells[self.pos];
        let next_pos = self.pos + 1;
        self.data_role = cell_role(c);
        if c == BitCell::Sample {
            let b: u16 = if level {
                1
            } else {
                0
            };
            let s = self.shift;
            let next = (s << 1u16) | b;
            proof {
                assert(((s << 1u16) | b) == (s * 2 + b) % 65536)
                    by (bit_vector)
                    requires
                        b <= 1u16,
                ;
                let old_samples = self.samples@;
                let new_samples = old_samples.push(level);
                assert(new_samples.drop_last() =~= old_samples);
                let x = bits_value(old_samples) as int;
                vstd::arithmetic::div_mod::lemma_mul_mod_noop_right(2, x, 65536);
                vstd::arithmetic::div_mod::lemma_add_mod_noop(2 * x, b as int, 65536);
                vstd::arithmetic::div_mod::lemma_add_mod_noop(2 * (x % 65536), b as int, 65536);
            }
            self.shift = next;
            self.samples = Ghost(self.samples@.push(level));
        }
        self.pos = next_pos;
    }

    /// Whether the frame in progress is complete.
    pub fn is_done(&self) -> (r: bool)
        requires
            self.wf(),
        ensures
            r == (self.pos() >= self.cells().len()),
    {
        self.pos >= self.cells.len()
    }

    /// The sampled bits so far, most significant first, as a register value.
    pub fn read_data(&self) -> (r: u16)
        requires
            self.wf(),
        ensures
            r == bits_value(self.samples()) % 0x10000,
    {
        self.shift
    }
}

/// The level a target sees during a cell: what the master drives, else the
/// line's idle-high level.
pub open spec fn line_level(c: BitCell) -> bool {
    match c {
        BitCell::Drive(b) => b,
        _ => true,
    }
}

/// The field of `width` cells that starts at cell `start`, as a target reads it.
pub open spec fn field(cells: Seq<BitCell>, start: int, width: int) -> nat {
    bits_value(cells.subrange(start, start + width).map_values(|c: BitCell| line_level(c)))
}

/// The frame a target decodes from the cells on the wire, or `None` when they
/// hold no well-formed frame.
pub open spec fn target_decode(cells: Seq<BitCell>) -> Option<MiimFrame> {
    if cells.len() == FRAME_CELLS && (forall|i: int| 0 <= i < PREAMBLE_BITS ==> line_level(
        #[trigger] cells[i],
    )) && field(cells, 32, 2) == 1 && (field(cells, 34, 2) == 2 || field(cells, 34, 2) == 1) {
        let op = if field(cells, 34, 2) == 2 {
            Operation::Read
        } else {
            Operation::Write
        };
        Some(
            MiimFrame {
                phy_address: field(cells, 36, 5) as u8,
                register: field(cells, 41, 5) as u8,
                op,
                data: if op == Operation::Write {
                    field(cells, 48, 16) as u16
                } else {
                    0
                },
            },
        )
    } else {
        None
    }
}

/// A register of a simulated target; one never written reads as all ones.
pub open spec fn sim_register(regs: Map<(u8, u8), u16>, phy_address: u8, register: u8) -> u16 {
    if regs.contains_key((phy_address, register)) {
        regs[(phy_address, register)]
    } else {
        0xFFFF
    }
}

/// The registers of a simulated target after it has seen `cells`: a write
/// frame stores its data, anything else leaves them as they were.
pub open spec fn sim_store(regs: Map<(u8, u8), u16>, cells: Seq<BitCell>) -> Map<(u8, u8), u16> {
    match target_decode(cells) {
        Some(f) => if f.op == Operation::Write {
            regs.insert((f.phy_address, f.register), f.data)
        } else {
            regs
        },
        None => regs,
    }
}

/// The levels a simulated target drives during the data field of a read frame,
/// most significant bit first.
pub open spec fn sim_reply(regs: Map<(u8, u8), u16>, cells: Seq<BitCell>) -> Seq<bool> {
    match target_decode(cells) {
        Some(f) => if f.op == Operation::Read {
            msb_bits(sim_register(regs, f.phy_address, f.register) as nat, DATA_BITS as nat)
        } else {
            Seq::empty()
        },
        None => Seq::empty(),
    }
}

proof fn lemma_field_of(cells: Seq<BitCell>, start: int, v: nat, width: nat)
    requires
        0 <= start,
        start + width <= cells.len(),
        cells.subrange(start, start + width) == drives(msb_bits(v, width)),
    ensures
        field(cells, start, width as int) == v % pow2(width),
{
    assert(cells.subrange(start, start + width).map_values(|c: BitCell| line_level(c))
        =~= msb_bits(v, width));
    lemma_bits_value_msb(v, width);
}

proof fn lemma_decode_frame(f: MiimFrame)
    requires
        f.wf(),
    ensures
        target_decode(frame_cells(f)) == Some(
            if f.op == Operation::Write {
                f
            } else {
                MiimFrame { data: 0, ..f }
            },
        ),
{
    let cells = frame_cells(f);
    let hb = header_bits(f);
    vstd::arithmetic::power2::lemma2_to64();
    assert(cells.len() == 64);
    assert forall|i: int| 0 <= i < PREAMBLE_BITS implies line_level(#[trigger] cells[i]) by {
        assert(cells[i] == BitCell::Drive(hb[i]));
    }
    assert(bit_of(1, 1) == false && bit_of(1, 0) == true);
    assert(bit_of(2, 1) == true && bit_of(2, 0) == false);
    assert(msb_bits(1, 2) =~= seq![false, true]);
    assert(msb_bits(2, 2) =~= seq![true, false]);
    assert(cells.subrange(32, 34) =~= drives(msb_bits(1, 2)));
    lemma_field_of(cells, 32, 1, 2);
    let opv: nat = if f.op == Operation::Read {
        2
    } else {
        1
    };
    assert(cells.subrange(34, 36) =~= drives(msb_bits(opv, 2)));
    lemma_field_of(cells, 34, opv, 2);
    assert(cells.subrange(36, 41) =~= drives(msb_bits(f.phy_address as nat, 5)));
    lemma_field_of(cells, 36, f.phy_address as nat, 5);
    assert(cells.subrange(41, 46) =~= drives(msb_bits(f.register as nat, 5)));
    lemma_field_of(cells, 41, f.register as nat, 5);
    if f.op == Operation::Write {
        assert(cells.subrange(48, 64) =~= drives(msb_bits(f.data as nat, 16)));
        lemma_field_of(cells, 48, f.data as nat, 16);
    }
}

/// Write, then read back: a simulated target decodes each frame as the one
/// that was sent, stores what the write carries, and answers the read with it
/// in the sixteen sampled cells, which decode to exactly the value written.
pub proof fn lemma_write_then_read(
    regs: Map<(u8, u8), u16>,
    phy_address: u8,
    register: u8,
    value: u16,
)
    requires
        phy_address < 32,
        register < 32,
    ensures
        ({
            let w = MiimFrame { phy_address, register, op: Operation::Write, data: value };
            let r = MiimFrame { phy_address, register, op: Operation::Read, data: 0 };
            &&& target_decode(frame_cells(w)) == Some(w)
            &&& target_decode(frame_cells(r)) == Some(r)
            &&& frame_cells(r).subrange(0, 48).map_values(|c: BitCell| c == BitCell::Sample)
                =~= Seq::new(48, |i: int| false)
            &&& frame_cells(r).subrange(48, 64) =~= Seq::new(16, |i: int| BitCell::Sample)
            &&& sim_reply(sim_store(regs, frame_cells(w)), frame_cells(r)).len() == 16
            &&& bits_value(sim_reply(sim_store(regs, frame_cells(w)), frame_cells(r))) % 0x10000
                == value
        }),
{
    let w = MiimFrame { phy_address, register, op: Operation::Write, data: value };
    let r = MiimFrame { phy_address, register, op: Operation::Read, data: 0 };
    lemma_decode_frame(w);
    lemma_decode_frame(r);
    let after = sim_store(regs, frame_cells(w));
    assert(sim_register(after, phy_address, register) == value);
    lemma_bits_value_msb(value as nat, 16);
    vstd::arithmetic::power2::lemma2_to64();
    let rc = frame_cells(r);
    assert forall|i: int| 0 <= i < 48 implies rc[i] != BitCell::Sample by {
        if i < 46 {
            assert(rc[i] == BitCell::Drive(header_bits(r)[i]));
        }
    }
    assert(rc.subrange(0, 48).map_values(|c: BitCell| c == BitCell::Sample) =~= Seq::new(
        48,
        |i: int| false,
    ));
}

} // verus!
