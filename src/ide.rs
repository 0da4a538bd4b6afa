//! IDE disk driver: the `open` plan of a sector read, and the completion
//! queue of the interrupt-driven DMA mode.
use vstd::prelude::*;
use vstd::string::StringSliceAdditionalSpecFns;
use crate::debug::{d, dbh, dh, dl, hex_byte, hex_number, text_bytes};
use crate::url::{number_or, part_number, scan, scan_url};

verus! {

/// Bytes in one disk sector.
pub const SECTOR_BYTES: u64 = 512;

/// Register offsets from the controller base.
pub const IDE_COMMAND: u16 = 0x0;
pub const IDE_STATUS: u16 = 0x2;
pub const IDE_PRDT: u16 = 0x4;

/// Status bit: an interrupt is pending (cleared by writing it back).
pub const STATUS_INTERRUPT: u8 = 4;

/// Interrupt lines of the primary and secondary channel.
pub const IRQ_PRIMARY: u8 = 0xE;
pub const IRQ_SECONDARY: u8 = 0xF;

/// A read of `count` sectors from `sector` into `destination`. Its
/// completion is reported to the owner of the request when it is popped.
#[derive(Clone, Copy, Debug, PartialEq, Eq, Structural)]
pub struct IDERequest {
    pub sector: u64,
    pub count: u64,
    pub destination: usize,
}

/// What opening an `ide:` URL takes.
#[derive(Clone, Copy, Debug, PartialEq, Eq, Structural)]
pub enum IdeOpen {
    /// Nothing to read: the result is the inert resource.
    Inert,
    /// Allocate `bytes` bytes and read `count` sectors from `sector` into them.
    Read { sector: u64, count: u64, bytes: usize },
}

/// What the controller's registers read at a stage of a poll.
#[derive(Clone, Copy, Debug, PartialEq, Eq, Structural)]
pub enum PollStage {
    /// The command and status registers, as first read.
    Start { command: u8, status: u8 },
    /// The command register as first read, and the status register after
    /// the pending bit was written back.
    Acked { command: u8, status: u8 },
    /// The PRDT register, read after the command register was cleared; it
    /// has been zeroed since.
    Prdt { register: u32 },
}

/// What the platform does next in a poll.
#[derive(Clone, Copy, Debug, PartialEq, Eq, Structural)]
pub enum PollStep {
    /// Nothing more to do.
    Idle,
    /// Write `status` back to the status register, read it again, and go on
    /// with `PollStage::Acked`.
    Ack { status: u8 },
    /// Clear the command register, read the PRDT register, zero it, and go
    /// on with `PollStage::Prdt`.
    Stop,
    /// Free the descriptor table at `prdt`; report `done` complete; start
    /// the transfer of `next`, if any.
    Complete { prdt: u32, done: Option<IDERequest>, next: Option<IDERequest> },
}

/// The IDE controller and its queue of DMA requests, oldest first.
#[derive(Clone, Debug)]
pub struct IDE {
    pub bus: usize,
    pub slot: usize,
    pub func: usize,
    pub base: usize,
    pub memory_mapped: bool,
    pub requests: Vec<IDERequest>,
}

/// The sector and count named by an `ide:///<sector>/<count>` URL; a part
/// that is missing or no number stands for 1.
pub open spec fn spec_ide_target(url: Seq<u8>) -> (u64, u64) {
    (part_number(scan(url).first, 1), part_number(scan(url).second, 1))
}

pub open spec fn spec_plan_open(url: Seq<u8>) -> IdeOpen {
    let (sector, count) = spec_ide_target(url);
    if count == 0 || count > 0xFFFF || count * 512 > usize::MAX {
        IdeOpen::Inert
    } else {
        IdeOpen::Read { sector, count, bytes: (count * 512) as usize }
    }
}

/// PCI command register with bus mastering switched on.
pub fn bus_master_enable(command: u32) -> (r: u32)
    ensures
        r == command | 4,
{
    command | 4
}

/// Whether the status register reports a pending interrupt.
pub fn interrupt_pending(status: u8) -> (r: bool)
    ensures
        r == (status & 4 == 4),
{
    status & STATUS_INTERRUPT == STATUS_INTERRUPT
}

/// Whether a DMA transfer has just ended: the command register's start bit
/// is set while the status register's active bit has cleared.
pub fn transfer_finished(command: u8, status: u8) -> (r: bool)
    ensures
        r == (command & 1 == 1 && status & 1 == 0),
{
    command & 1 == 1 && status & 1 == 0
}

/// The descriptor-table address held in the PRDT register (its high half).
pub fn prdt_address(register: u32) -> (r: u32)
    ensures
        r == register & 0xFFFF0000,
{
    register & 0xFFFF0000
}

/// Whether an interrupt on line `irq` belongs to an IDE channel.
pub fn owns_irq(irq: u8) -> (r: bool)
    ensures
        r == (irq == 0xE || irq == 0xF),
{
    irq == IRQ_PRIMARY || irq == IRQ_SECONDARY
}

impl IDE {
    pub fn new(bus: usize, slot: usize, func: usize, base: usize, memory_mapped: bool) -> (r: IDE)
        ensures
            r.bus == bus && r.slot == slot && r.func == func && r.base == base,
            r.memory_mapped == memory_mapped,
            r.requests@.len() == 0,
    {
        IDE { bus, slot, func, base, memory_mapped, requests: Vec::new() }
    }

    pub fn scheme(&self) -> (r: &'static str)
        ensures
            r@ == "ide"@,
    {
        "ide"
    }

    /// The sector and count named by an `ide:` URL.
    pub fn target(url: &str) -> (r: (u64, u64))
        ensures
            r == spec_ide_target(url.spec_bytes()),
    {
        let s = scan_url(url.as_bytes());
        (number_or(s.first, 1), number_or(s.second, 1))
    }

    /// What opening `url` takes: nothing for a count of 0, a count beyond
    /// the disk primitive's 16-bit count, or a size that no allocation can
    /// hold; else one read of `count * 512` bytes.
    pub fn plan_open(url: &str) -> (r: IdeOpen)
        ensures
            r == spec_plan_open(url.spec_bytes()),
    {
        let (sector, count) = IDE::target(url);
        if count == 0 || count > 0xFFFF || count > (usize::MAX as u64) / 512 {
            proof {
                if count != 0 && count <= 0xFFFF {
                    assert(count * 512 > usize::MAX) by (nonlinear_arith)
                        requires
                            count > (usize::MAX as u64) / 512,
                    ;
                }
            }
            IdeOpen::Inert
        } else {
            IdeOpen::Read { sector, count, bytes: (count as usize) * 512 }
        }
    }

    /// The request of a planned read once its buffer is at `destination`.
    /// The read goes ahead only for a buffer that was given (non-zero).
    pub fn request(sector: u64, count: u64, destination: usize) -> (r: Option<IDERequest>)
        ensures
            destination == 0 ==> r is None,
            destination != 0 ==> r == Some(IDERequest { sector, count, destination }),
    {
        if destination == 0 {
            None
        } else {
            Some(IDERequest { sector, count, destination })
        }
    }

    /// Queues a DMA request; true when it is the only one, so its transfer
    /// must be started now (otherwise it starts when those before it end).
    pub fn submit(&mut self, request: IDERequest) -> (start_now: bool)
        ensures
            final(self).requests@ == old(self).requests@.push(request),
            start_now == (old(self).requests@.len() == 0),
            final(self).base == old(self).base,
    {
        self.requests.push(request);
        self.requests.len() == 1
    }

    /// Ends the transfer at the head of the queue: removes and returns it
    /// (its completion is due now), with the request whose transfer starts next.
    pub fn complete_head(&mut self) -> (r: (Option<IDERequest>, Option<IDERequest>))
        ensures
            old(self).requests@.len() == 0 ==> r == (Option::<IDERequest>::None, Option::<IDERequest>::None)
                && final(self).requests@ == old(self).requests@,
            old(self).requests@.len() > 0 ==> r.0 == Some(old(self).requests@[0])
                && final(self).requests@ == old(self).requests@.drop_first(),
            final(self).requests@.len() > 0 ==> r.1 == Some(final(self).requests@[0]),
            final(self).requests@.len() == 0 ==> r.1 is None,
            final(self).base == old(self).base,
    {
        if self.requests.len() == 0 {
            return (None, None);
        }
        let head = self.requests.remove(0);
        proof {
            assert(self.requests@ =~= old(self).requests@.drop_first());
        }
        let next = if self.requests.len() > 0 {
            Some(self.requests[0])
        } else {
            None
        };
        (Some(head), next)
    }

    /// One decision of a poll for a finished DMA transfer. Only a transfer
    /// whose interrupt is pending, whose start bit is set while its active
    /// bit has cleared, and whose descriptor table is known completes; it
    /// completes the request at the head of the queue.
    pub fn poll_step(&mut self, stage: PollStage) -> (r: PollStep)
        ensures
            stage matches PollStage::Start { command, status } ==> (r == (if status & 4 == 4 {
                PollStep::Ack { status }
            } else {
                PollStep::Idle
            }) && final(self).requests@ == old(self).requests@),
            stage matches PollStage::Acked { command, status } ==> (r == (if command & 1 == 1 && status
                & 1 == 0 {
                PollStep::Stop
            } else {
                PollStep::Idle
            }) && final(self).requests@ == old(self).requests@),
            stage matches PollStage::Prdt { register } ==> ({
                let prdt = register & 0xFFFF0000;
                &&& prdt == 0 ==> r == PollStep::Idle && final(self).requests@ == old(self).requests@
                &&& prdt != 0 && old(self).requests@.len() == 0 ==> r == (PollStep::Complete {
                    prdt,
                    done: None,
                    next: None,
                }) && final(self).requests@ == old(self).requests@
                &&& prdt != 0 && old(self).requests@.len() > 0 ==> final(self).requests@ == old(
                    self,
                ).requests@.drop_first() && r == (PollStep::Complete {
                    prdt,
                    done: Some(old(self).requests@[0]),
                    next: if final(self).requests@.len() > 0 {
                        Some(final(self).requests@[0])
                    } else {
                        None
                    },
                })
            }),
            final(self).base == old(self).base,
    {
        match stage {
            PollStage::Start { command, status } => {
                if interrupt_pending(status) {
                    PollStep::Ack { status }
                } else {
                    PollStep::Idle
                }
            },
            PollStage::Acked { command, status } => {
                if transfer_finished(command, status) {
                    PollStep::Stop
                } else {
                    PollStep::Idle
                }
            },
            PollStage::Prdt { register } => {
                let prdt = prdt_address(register);
                if prdt == 0 {
                    PollStep::Idle
                } else {
                    let (done, next) = self.complete_head();
                    PollStep::Complete { prdt, done, next }
                }
            },
        }
    }

    /// The start-up report: base address, mapping, and the PRDT, command
    /// and status registers as read from the controller.
    pub fn init(&self, out: &mut Vec<u8>, prdt: u32, command: u8, status: u8)
        ensures
            final(out)@ == old(out)@ + text_bytes("IDE on: "@) + hex_number(self.base as nat)
                + text_bytes(if self.memory_mapped { " memory mapped"@ } else { " port mapped"@ })
                + text_bytes(" PRDT "@) + hex_number(prdt as nat) + text_bytes(" CMD "@) + hex_byte(command)
                + text_bytes(" STS "@) + hex_byte(status) + seq![10u8],
    {
        let ghost start = out@;
        d(out, "IDE on: ");
        dh(out, self.base);
        if self.memory_mapped {
            d(out, " memory mapped");
        } else {
            d(out, " port mapped");
        }
        d(out, " PRDT ");
        dh(out, prdt as usize);
        d(out, " CMD ");
        dbh(out, command);
        d(out, " STS ");
        dbh(out, status);
        dl(out);
        proof {
            assert(out@ =~= start + text_bytes("IDE on: "@) + hex_number(self.base as nat)
                + text_bytes(if self.memory_mapped { " memory mapped"@ } else { " port mapped"@ })
                + text_bytes(" PRDT "@) + hex_number(prdt as nat) + text_bytes(" CMD "@) + hex_byte(command)
                + text_bytes(" STS "@) + hex_byte(status) + seq![10u8]);
        }
    }
}

/// Requests complete in the order they were submitted: after the requests
/// already queued have completed, the next completion is the one submitted
/// after them, and the queue then holds only those submitted later still.
pub proof fn lemma_completion_order(queued: Seq<IDERequest>, later: Seq<IDERequest>, r: IDERequest)
    ensures
        (queued.push(r) + later).skip(queued.len() as int)[0] == r,
        (queued.push(r) + later).skip(queued.len() as int).drop_first() == later,
{
    assert((queued.push(r) + later).skip(queued.len() as int) =~= seq![r] + later);
    assert((seq![r] + later).drop_first() =~= later);
}

} // verus!
