//! AC97 playback: descriptor-ring planning for a `write`.
//!
//! The ring has 32 slots. A `write` of a buffer is turned into a plan: the
//! sequence of descriptors to fill and the early commits that hand a full
//! ring to the hardware while the rest of the buffer is still being queued.
//! The platform layer carries the plan out against the registers.
use vstd::prelude::*;
use crate::debug::{d, dbh, dh, dl, hex_byte, hex_number, text_bytes};

verus! {

/// Number of slots in the buffer-descriptor ring.
pub const RING_SLOTS: u8 = 32;

/// Largest sample count one descriptor carries.
pub const MAX_SAMPLES: u16 = 65534;

/// Largest number of bytes one descriptor carries (16-bit stereo samples).
pub const MAX_CHUNK_BYTES: usize = 131068;

/// Volume written to the master and PCM mixer registers before each write.
pub const DEFAULT_VOLUME: u16 = 0x0808;

/// Mixer register offsets.
pub const MASTER_VOLUME: u16 = 0x02;
pub const PCM_VOLUME: u16 = 0x18;

/// Bus-master register offsets (PCM out).
pub const PO_BDBAR: u16 = 0x10;
pub const PO_CIV: u16 = 0x14;
pub const PO_LVI: u16 = 0x15;
pub const PO_SR: u16 = 0x16;
pub const PO_PICB: u16 = 0x18;
pub const PO_PIV: u16 = 0x1A;
pub const PO_CR: u16 = 0x1B;
pub const GLOB_CNT: u16 = 0x2C;
pub const GLOB_STA: u16 = 0x30;

/// A hardware buffer descriptor: a physical pointer and a sample count.
#[derive(Clone, Copy, Debug, PartialEq, Eq, Structural)]
pub struct BufferDescriptor {
    pub ptr: u32,
    pub samples: u32,
}

impl BufferDescriptor {
    pub open spec fn empty_spec() -> BufferDescriptor {
        BufferDescriptor { ptr: 0, samples: 0 }
    }

    /// The empty descriptor that every slot holds before a batch is queued.
    pub fn empty() -> (r: BufferDescriptor)
        ensures
            r.ptr == 0 && r.samples == 0,
    {
        BufferDescriptor { ptr: 0, samples: 0 }
    }
}

/// One step of a write plan.
#[derive(Clone, Copy, Debug, PartialEq, Eq, Structural)]
pub enum Ac97Step {
    /// Fill ring slot `index` with `bytes` bytes of the buffer from `offset`
    /// (`samples` 16-bit samples). When `wait` is set a batch is draining, and
    /// the slot may be filled only once `slot_ready` says so.
    Fill { index: u8, offset: usize, bytes: usize, samples: u16, wait: bool },
    /// Hand the ring to the hardware up to `lvi` and set the run bit.
    Commit { lvi: u8 },
}

/// One register operation of the write protocol. The waits poll the
/// register, sleeping 10 ms between reads.
#[derive(Clone, Copy, Debug, PartialEq, Eq, Structural)]
pub enum PortOp {
    OutB { port: u16, value: u8 },
    OutW { port: u16, value: u16 },
    /// Wait until `port & mask` reads 0.
    WaitClear { port: u16, mask: u8 },
    /// Wait until `port` reads `value`.
    WaitEqual { port: u16, value: u8 },
}

/// The full plan of a write: the steps, then a final commit up to `last_index`.
#[derive(Clone, Debug)]
pub struct Ac97Plan {
    pub steps: Vec<Ac97Step>,
    pub last_index: u8,
    /// The count the write reports once the plan has run.
    pub written: usize,
}

pub open spec fn spec_start_index(lvi: nat) -> nat {
    if lvi == 0 {
        31
    } else {
        (lvi - 1) as nat
    }
}

pub open spec fn spec_next_index(i: nat) -> nat {
    (i + 1) % 32
}

pub open spec fn spec_chunk(remaining: nat) -> nat {
    if remaining < 131068 {
        remaining
    } else {
        131068
    }
}

/// The steps that remain when `position` bytes of a `len`-byte buffer are
/// queued and the next slot to fill is `target`.
pub open spec fn plan_from(len: nat, position: nat, target: nat, start: nat, wait: bool) -> Seq<Ac97Step>
    decreases len - position,
{
    let bytes = spec_chunk((len - position) as nat);
    let fill = Ac97Step::Fill {
        index: target as u8,
        offset: position as usize,
        bytes: bytes as usize,
        samples: (bytes / 2) as u16,
        wait,
    };
    if position >= len || position + bytes >= len {
        seq![fill]
    } else {
        let t = spec_next_index(target);
        if t == start {
            seq![fill, Ac97Step::Commit { lvi: start as u8 }] + plan_from(len, position + bytes, t, start, true)
        } else {
            seq![fill] + plan_from(len, position + bytes, t, start, wait)
        }
    }
}

/// The slot that ends the plan started at `target`.
pub open spec fn last_from(len: nat, position: nat, target: nat) -> nat
    decreases len - position,
{
    let bytes = spec_chunk((len - position) as nat);
    if position >= len || position + bytes >= len {
        target
    } else {
        last_from(len, position + bytes, spec_next_index(target))
    }
}

/// The plan of a write of `len` bytes when the hardware's last valid index is `lvi`.
pub open spec fn spec_plan(len: nat, lvi: nat) -> Seq<Ac97Step> {
    plan_from(len, 0, spec_next_index(lvi), spec_start_index(lvi), false)
}

/// Bytes described by the fill steps of a plan.
pub open spec fn fill_bytes(steps: Seq<Ac97Step>) -> nat
    decreases steps.len(),
{
    if steps.len() == 0 {
        0
    } else {
        let head = match steps[0] {
            Ac97Step::Fill { bytes, .. } => bytes as nat,
            Ac97Step::Commit { .. } => 0,
        };
        head + fill_bytes(steps.drop_first())
    }
}

/// Every fill step stays within one descriptor's capacity and the ring.
pub open spec fn fills_in_bounds(steps: Seq<Ac97Step>) -> bool {
    forall|k: int|
        0 <= k < steps.len() ==> match #[trigger] steps[k] {
            Ac97Step::Fill { index, bytes, samples, .. } => index < 32 && samples <= 65534
                && bytes <= 131068 && samples as nat == bytes as nat / 2,
            Ac97Step::Commit { lvi } => lvi < 32,
        }
}

/// The slot just before the one after `lvi`: where an early commit stops.
pub fn start_index(lvi: u8) -> (r: u8)
    requires
        lvi < 32,
    ensures
        r as nat == spec_start_index(lvi as nat),
        r < 32,
{
    if lvi == 0 {
        31
    } else {
        lvi - 1
    }
}

/// The ring slot after `i`, wrapping at the end of the ring.
pub fn next_index(i: u8) -> (r: u8)
    requires
        i < 32,
    ensures
        r as nat == spec_next_index(i as nat),
        r < 32,
{
    if i >= 31 {
        0
    } else {
        i + 1
    }
}

/// Bytes of the next descriptor when `remaining` bytes are left to queue.
pub fn chunk_bytes(remaining: usize) -> (r: usize)
    ensures
        r as nat == spec_chunk(remaining as nat),
        r <= MAX_CHUNK_BYTES,
        remaining > 0 ==> r > 0,
{
    if remaining < MAX_CHUNK_BYTES {
        remaining
    } else {
        MAX_CHUNK_BYTES
    }
}

/// Whether ring slot `target` may be filled: always when no batch is
/// draining, else only once the hardware's current index has reached it.
pub fn slot_ready(wait: bool, civ: u8, target: u8) -> (r: bool)
    ensures
        r == (!wait || civ == target),
{
    !wait || civ == target
}

/// The plan of a write of `len` bytes when the hardware's last valid index is `lvi`.
pub fn plan_write(len: usize, lvi: u8) -> (r: Ac97Plan)
    requires
        lvi < 32,
    ensures
        r.steps@ == spec_plan(len as nat, lvi as nat),
        r.last_index as nat == last_from(len as nat, 0, spec_next_index(lvi as nat)),
        r.last_index < 32,
        r.written == len,
{
    let start = start_index(lvi);
    let first = next_index(lvi);
    let mut target = first;
    let mut position: usize = 0;
    let mut wait = false;
    let mut steps: Vec<Ac97Step> = Vec::new();
    loop
        invariant
            position <= len,
            target < 32,
            start < 32,
            start as nat == spec_start_index(lvi as nat),
            first as nat == spec_next_index(lvi as nat),
            steps@ + plan_from(len as nat, position as nat, target as nat, start as nat, wait)
                == spec_plan(len as nat, lvi as nat),
            last_from(len as nat, position as nat, target as nat) == last_from(
                len as nat,
                0,
                first as nat,
            ),
        decreases len - position,
    {
        let ghost old_steps = steps@;
        let ghost rest = plan_from(len as nat, position as nat, target as nat, start as nat, wait);
        let bytes = chunk_bytes(len - position);
        let fill = Ac97Step::Fill { index: target, offset: position, bytes, samples: (bytes / 2) as u16, wait };
        steps.push(fill);
        if position + bytes >= len {
            proof {
                assert(rest =~= seq![fill]);
                assert(steps@ =~= old_steps + rest);
            }
            return Ac97Plan { steps, last_index: target, written: len };
        }
        position = position + bytes;
        target = next_index(target);
        if target == start {
            steps.push(Ac97Step::Commit { lvi: start });
            wait = true;
        }
        proof {
            let tail = plan_from(len as nat, position as nat, target as nat, start as nat, wait);
            if target == start {
                assert(rest =~= seq![fill, Ac97Step::Commit { lvi: start }] + tail);
            } else {
                assert(rest =~= seq![fill] + tail);
            }
            assert(steps@ + tail =~= old_steps + rest);
        }
    }
}

/// Bytes of the fill steps of a concatenation add up.
proof fn lemma_fill_bytes_concat(a: Seq<Ac97Step>, b: Seq<Ac97Step>)
    ensures
        fill_bytes(a + b) == fill_bytes(a) + fill_bytes(b),
    decreases a.len(),
{
    if a.len() > 0 {
        assert((a + b).drop_first() =~= a.drop_first() + b);
        lemma_fill_bytes_concat(a.drop_first(), b);
    } else {
        assert(a + b =~= b);
    }
}

proof fn lemma_plan_from(len: nat, position: nat, target: nat, start: nat, wait: bool)
    requires
        position <= len,
        target < 32,
        start < 32,
    ensures
        fill_bytes(plan_from(len, position, target, start, wait)) == len - position,
        fills_in_bounds(plan_from(len, position, target, start, wait)),
        last_from(len, position, target) < 32,
    decreases len - position,
{
    let bytes = spec_chunk((len - position) as nat);
    let fill = Ac97Step::Fill {
        index: target as u8,
        offset: position as usize,
        bytes: bytes as usize,
        samples: (bytes / 2) as u16,
        wait,
    };
    let p = plan_from(len, position, target, start, wait);
    assert(bytes <= 131068);
    assert((bytes as usize) as nat == bytes);
    assert(fill_bytes(seq![fill]) == bytes) by {
        assert(seq![fill].drop_first() =~= Seq::<Ac97Step>::empty());
        assert(fill_bytes(Seq::<Ac97Step>::empty()) == 0);
    }
    if position >= len || position + bytes >= len {
        assert(p == seq![fill]);
    } else {
        let t = spec_next_index(target);
        let next_wait = if t == start { true } else { wait };
        let tail = plan_from(len, position + bytes, t, start, next_wait);
        lemma_plan_from(len, position + bytes, t, start, next_wait);
        if t == start {
            let head = seq![fill, Ac97Step::Commit { lvi: start as u8 }];
            assert(fill_bytes(head) == bytes) by {
                assert(head.drop_first().drop_first() =~= Seq::<Ac97Step>::empty());
                assert(head.drop_first() =~= seq![Ac97Step::Commit { lvi: start as u8 }]);
                assert(fill_bytes(Seq::<Ac97Step>::empty()) == 0);
                assert(fill_bytes(head.drop_first()) == 0);
            }
            lemma_fill_bytes_concat(head, tail);
            assert(p == head + tail);
            assert forall|k: int| 0 <= k < p.len() implies match #[trigger] p[k] {
                Ac97Step::Fill { index, bytes, samples, .. } => index < 32 && samples <= 65534
                    && bytes <= 131068 && samples as nat == bytes as nat / 2,
                Ac97Step::Commit { lvi } => lvi < 32,
            } by {
                if k >= 2 {
                    assert(p[k] == tail[k - 2]);
                }
            }
        } else {
            lemma_fill_bytes_concat(seq![fill], tail);
            assert(p == seq![fill] + tail);
            assert forall|k: int| 0 <= k < p.len() implies match #[trigger] p[k] {
                Ac97Step::Fill { index, bytes, samples, .. } => index < 32 && samples <= 65534
                    && bytes <= 131068 && samples as nat == bytes as nat / 2,
                Ac97Step::Commit { lvi } => lvi < 32,
            } by {
                if k >= 1 {
                    assert(p[k] == tail[k - 1]);
                }
            }
        }
    }
}

/// A write plan describes exactly the bytes of the buffer: the byte counts of
/// its descriptors add up to the buffer's length, each descriptor carries at
/// most 65534 samples, and every ring index it names lies in 0..=31.
pub proof fn lemma_plan_covers_buffer(len: nat, lvi: nat)
    requires
        lvi < 32,
    ensures
        fill_bytes(spec_plan(len, lvi)) == len,
        fills_in_bounds(spec_plan(len, lvi)),
        last_from(len, 0, spec_next_index(lvi)) < 32,
{
    lemma_plan_from(len, 0, spec_next_index(lvi), spec_start_index(lvi), false);
}

/// An early commit stops one slot short of where the batch began: after a
/// last valid index of 0 it is 31, and after 5 it is 4.
pub proof fn lemma_start_index_wraps()
    ensures
        spec_start_index(0) == 31,
        spec_start_index(5) == 4,
        forall|lvi: nat| 0 < lvi < 32 ==> #[trigger] spec_start_index(lvi) == lvi - 1,
{
}

/// The AC97 controller: mixer and bus-master I/O bases and its interrupt line.
#[derive(Clone, Copy, Debug, PartialEq, Eq, Structural)]
pub struct AC97 {
    pub audio: usize,
    pub bus_master: usize,
    pub irq: u8,
}

/// An open `audio://` sink: writes play through the descriptor ring.
#[derive(Clone, Copy, Debug, PartialEq, Eq, Structural)]
pub struct AC97Resource {
    pub audio: usize,
    pub bus_master: usize,
}

impl AC97 {
    /// The controller as its PCI configuration describes it: the I/O bases
    /// with their flag bits masked off, and the low four bits of the
    /// interrupt line.
    pub fn new(audio_bar: u32, bus_master_bar: u32, interrupt_line: u32) -> (r: AC97)
        ensures
            r.audio == (audio_bar & 0xFFFFFFF0) as usize,
            r.bus_master == (bus_master_bar & 0xFFFFFFF0) as usize,
            r.irq == (interrupt_line as u8) & 0xF,
    {
        AC97 {
            audio: (audio_bar & 0xFFFFFFF0) as usize,
            bus_master: (bus_master_bar & 0xFFFFFFF0) as usize,
            irq: (interrupt_line as u8) & 0xF,
        }
    }

    /// The start-up report: both bases and the interrupt line.
    pub fn init(&self, out: &mut Vec<u8>)
        ensures
            final(out)@ == old(out)@ + text_bytes("AC97 on: "@) + hex_number(self.audio as nat)
                + text_bytes(", "@) + hex_number(self.bus_master as nat) + text_bytes(", IRQ: "@)
                + hex_byte(self.irq) + seq![10u8],
    {
        let ghost start = out@;
        d(out, "AC97 on: ");
        dh(out, self.audio);
        d(out, ", ");
        dh(out, self.bus_master);
        d(out, ", IRQ: ");
        dbh(out, self.irq);
        dl(out);
        proof {
            assert(out@ =~= start + text_bytes("AC97 on: "@) + hex_number(self.audio as nat)
                + text_bytes(", "@) + hex_number(self.bus_master as nat) + text_bytes(", IRQ: "@)
                + hex_byte(self.irq) + seq![10u8]);
        }
    }

    pub fn scheme(&self) -> (r: &'static str)
        ensures
            r@ == "audio"@,
    {
        "audio"
    }

    /// Whether an interrupt on line `irq` is this controller's.
    pub fn handles(&self, irq: u8) -> (r: bool)
        ensures
            r == (irq == self.irq),
    {
        irq == self.irq
    }

    /// A sink on this controller.
    pub fn open(&self) -> (r: AC97Resource)
        ensures
            r == (AC97Resource { audio: self.audio, bus_master: self.bus_master }),
    {
        AC97Resource { audio: self.audio, bus_master: self.bus_master }
    }
}

impl AC97Resource {
    /// Every register of the controller has a 16-bit port number.
    pub open spec fn ports_fit(&self) -> bool {
        self.audio + 0x18 <= u16::MAX && self.bus_master + 0x30 <= u16::MAX
    }

    /// Before a write: set both volumes, wait for the device to stop, and
    /// clear its run bit.
    pub fn prepare(&self) -> (r: Vec<PortOp>)
        requires
            self.ports_fit(),
        ensures
            r@ == seq![
                PortOp::OutW { port: (self.audio + 0x02) as u16, value: 0x0808 },
                PortOp::OutW { port: (self.audio + 0x18) as u16, value: 0x0808 },
                PortOp::WaitClear { port: (self.bus_master + 0x1B) as u16, mask: 1 },
                PortOp::OutB { port: (self.bus_master + 0x1B) as u16, value: 0 },
            ],
    {
        let audio = self.audio as u16;
        let bm = self.bus_master as u16;
        let mut r: Vec<PortOp> = Vec::new();
        r.push(PortOp::OutW { port: audio + MASTER_VOLUME, value: DEFAULT_VOLUME });
        r.push(PortOp::OutW { port: audio + PCM_VOLUME, value: DEFAULT_VOLUME });
        r.push(PortOp::WaitClear { port: bm + PO_CR, mask: 1 });
        r.push(PortOp::OutB { port: bm + PO_CR, value: 0 });
        proof {
            assert(r@ =~= seq![
                PortOp::OutW { port: (self.audio + 0x02) as u16, value: 0x0808 },
                PortOp::OutW { port: (self.audio + 0x18) as u16, value: 0x0808 },
                PortOp::WaitClear { port: (self.bus_master + 0x1B) as u16, mask: 1 },
                PortOp::OutB { port: (self.bus_master + 0x1B) as u16, value: 0 },
            ]);
        }
        r
    }

    /// Hands the ring to the hardware up to `lvi` and sets the run bit.
    pub fn commit(&self, lvi: u8) -> (r: Vec<PortOp>)
        requires
            self.ports_fit(),
        ensures
            r@ == seq![
                PortOp::OutB { port: (self.bus_master + 0x15) as u16, value: lvi },
                PortOp::OutB { port: (self.bus_master + 0x1B) as u16, value: 1 },
            ],
    {
        let bm = self.bus_master as u16;
        let mut r: Vec<PortOp> = Vec::new();
        r.push(PortOp::OutB { port: bm + PO_LVI, value: lvi });
        r.push(PortOp::OutB { port: bm + PO_CR, value: 1 });
        proof {
            assert(r@ =~= seq![
                PortOp::OutB { port: (self.bus_master + 0x15) as u16, value: lvi },
                PortOp::OutB { port: (self.bus_master + 0x1B) as u16, value: 1 },
            ]);
        }
        r
    }

    /// After the last fill: commit up to `last_index`, wait until the
    /// hardware's current index reaches it, and stop the device.
    pub fn finish(&self, last_index: u8) -> (r: Vec<PortOp>)
        requires
            self.ports_fit(),
        ensures
            r@ == seq![
                PortOp::OutB { port: (self.bus_master + 0x15) as u16, value: last_index },
                PortOp::OutB { port: (self.bus_master + 0x1B) as u16, value: 1 },
                PortOp::WaitEqual { port: (self.bus_master + 0x14) as u16, value: last_index },
                PortOp::OutB { port: (self.bus_master + 0x1B) as u16, value: 0 },
            ],
    {
        let bm = self.bus_master as u16;
        let mut r = self.commit(last_index);
        r.push(PortOp::WaitEqual { port: bm + PO_CIV, value: last_index });
        r.push(PortOp::OutB { port: bm + PO_CR, value: 0 });
        proof {
            assert(r@ =~= seq![
                PortOp::OutB { port: (self.bus_master + 0x15) as u16, value: last_index },
                PortOp::OutB { port: (self.bus_master + 0x1B) as u16, value: 1 },
                PortOp::WaitEqual { port: (self.bus_master + 0x14) as u16, value: last_index },
                PortOp::OutB { port: (self.bus_master + 0x1B) as u16, value: 0 },
            ]);
        }
        r
    }

    /// Port of a bus-master register at `offset`.
    pub fn bus_master_port(&self, offset: u16) -> (r: u16)
        requires
            self.bus_master + offset <= u16::MAX,
        ensures
            r == self.bus_master + offset,
    {
        self.bus_master as u16 + offset
    }

    /// The plan of writing `len` bytes when the last-valid-index register
    /// reads `lvi_register` (its low five bits are the index).
    pub fn plan(&self, len: usize, lvi_register: u8) -> (r: Ac97Plan)
        ensures
            r.steps@ == spec_plan(len as nat, (lvi_register & 31) as nat),
            r.last_index as nat == last_from(len as nat, 0, spec_next_index((lvi_register & 31) as nat)),
            r.last_index < 32,
            r.written == len,
            fill_bytes(r.steps@) == len,
            fills_in_bounds(r.steps@),
    {
        let lvi = lvi_register & 31;
        assert(lvi < 32) by (bit_vector)
            requires
                lvi == lvi_register & 31,
        ;
        proof {
            lemma_plan_covers_buffer(len as nat, lvi as nat);
        }
        plan_write(len, lvi)
    }

    /// Bytes to allocate for the descriptor ring when the ring-address
    /// register reads `bdbar`: none once a ring is latched there.
    pub fn ring_allocation(bdbar: u32) -> (r: Option<usize>)
        ensures
            bdbar == 0 ==> r == Some(256usize),
            bdbar != 0 ==> r is None,
    {
        if bdbar == 0 {
            Some(RING_SLOTS as usize * 8)
        } else {
            None
        }
    }

    /// The ring as every write starts it: 32 empty descriptors.
    pub fn empty_ring() -> (r: Vec<BufferDescriptor>)
        ensures
            r@.len() == 32,
            forall|k: int| 0 <= k < 32 ==> #[trigger] r@[k] == BufferDescriptor::empty_spec(),
    {
        let mut r: Vec<BufferDescriptor> = Vec::new();
        let mut i: usize = 0;
        while i < 32
            invariant
                i <= 32,
                r@.len() == i,
                forall|k: int| 0 <= k < i ==> #[trigger] r@[k] == BufferDescriptor::empty_spec(),
            decreases 32 - i,
        {
            r.push(BufferDescriptor::empty());
            i += 1;
        }
        r
    }
}

} // verus!
