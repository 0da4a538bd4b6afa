//! Resources and the registry that routes a URL to the driver of its scheme.
//!
//! A URL whose scheme no driver claims opens the inert resource, which
//! answers every operation with "unsupported".
use vstd::prelude::*;
use vstd::string::StringSliceAdditionalSpecFns;
use crate::ac97::{AC97, AC97Resource};
use crate::debug::{dd, decimal};
use crate::ide::{spec_plan_open, IdeOpen, IDE};
use crate::serial::Serial;

verus! {

#[derive(Clone, Copy, Debug, PartialEq, Eq, Structural)]
pub enum ResourceType {
    File,
}

#[derive(Clone, Copy, Debug, PartialEq, Eq, Structural)]
pub enum ResourceSeek {
    Start(usize),
    Current(isize),
    End(isize),
}

/// A fixed-length block of bytes with a cursor.
#[derive(Clone, Debug)]
pub struct VecResource {
    pub data: Vec<u8>,
    pub seek: usize,
}

/// The debug console. Reading and writing it are console I/O.
#[derive(Clone, Copy, Debug, PartialEq, Eq, Structural)]
pub struct DebugResource;

/// How a resource answers a read or a write.
#[derive(Clone, Copy, Debug, PartialEq, Eq, Structural)]
pub enum Access {
    /// The resource does not support the operation.
    Unsupported,
    /// The library moved this many bytes.
    Done(usize),
    /// The operation is device I/O, carried out by the platform.
    Device,
}

/// An open resource.
#[derive(Clone, Debug)]
pub enum Resource {
    /// Answers every operation with "unsupported".
    Inert,
    Audio(AC97Resource),
    Block(VecResource),
    Debug(DebugResource),
}

pub open spec fn clamp(v: int, len: nat) -> nat {
    if v < 0 {
        0
    } else if v > len {
        len
    } else {
        v as nat
    }
}

pub open spec fn min(a: nat, b: nat) -> nat {
    if a < b {
        a
    } else {
        b
    }
}

/// Where a seek puts the cursor of a block of `len` bytes whose cursor is at `seek`.
pub open spec fn seek_target(pos: ResourceSeek, seek: nat, len: nat) -> nat {
    match pos {
        ResourceSeek::Start(o) => clamp(o as int, len),
        ResourceSeek::Current(o) => clamp(seek + o, len),
        ResourceSeek::End(o) => clamp(len + o, len),
    }
}

impl VecResource {
    pub fn new(data: Vec<u8>) -> (r: VecResource)
        ensures
            r.data@ == data@,
            r.seek == 0,
    {
        VecResource { data, seek: 0 }
    }

    pub open spec fn wf(&self) -> bool {
        self.seek <= self.data@.len()
    }

    /// Copies bytes from the cursor into `buf`, as many as both hold, and
    /// moves the cursor past them.
    pub fn read(&mut self, buf: &mut Vec<u8>) -> (r: usize)
        requires
            old(self).wf(),
        ensures
            final(self).wf(),
            r == min(old(buf)@.len(), (old(self).data@.len() - old(self).seek) as nat),
            final(buf)@ == old(self).data@.subrange(old(self).seek as int, old(self).seek + r)
                + old(buf)@.skip(r as int),
            final(self).data@ == old(self).data@,
            final(self).seek == old(self).seek + r,
    {
        let ghost old_buf = buf@;
        let avail = self.data.len() - self.seek;
        let n = if buf.len() < avail { buf.len() } else { avail };
        let mut i: usize = 0;
        while i < n
            invariant
                self.wf(),
                *self == *old(self),
                self.data@.len() <= usize::MAX,
                n <= old_buf.len(),
                n <= self.data@.len() - self.seek,
                i <= n,
                buf@.len() == old_buf.len(),
                forall|k: int| 0 <= k < i ==> buf@[k] == self.data@[self.seek + k],
                forall|k: int| i <= k < buf@.len() ==> buf@[k] == old_buf[k],
            decreases n - i,
        {
            buf.set(i, self.data[self.seek + i]);
            i += 1;
        }
        proof {
            assert(buf@ =~= self.data@.subrange(self.seek as int, self.seek + n) + old_buf.skip(n as int));
        }
        self.seek = self.seek + n;
        n
    }

    /// Overwrites bytes from the cursor with those of `buf`, as many as fit
    /// before the end, and moves the cursor past them. The length never changes.
    pub fn write(&mut self, buf: &[u8]) -> (r: usize)
        requires
            old(self).wf(),
        ensures
            final(self).wf(),
            r == min(buf@.len(), (old(self).data@.len() - old(self).seek) as nat),
            final(self).data@ == old(self).data@.subrange(0, old(self).seek as int) + buf@.take(r as int)
                + old(self).data@.skip(old(self).seek + r),
            final(self).seek == old(self).seek + r,
    {
        let ghost old_data = self.data@;
        let avail = self.data.len() - self.seek;
        let n = if buf.len() < avail { buf.len() } else { avail };
        let mut i: usize = 0;
        while i < n
            invariant
                self.seek == old(self).seek,
                old_data == old(self).data@,
                old_data.len() <= usize::MAX,
                self.seek + n <= old_data.len(),
                n <= buf@.len(),
                i <= n,
                self.data@.len() == old_data.len(),
                forall|k: int| 0 <= k < self.seek ==> self.data@[k] == old_data[k],
                forall|k: int| 0 <= k < i ==> self.data@[self.seek + k] == buf@[k],
                forall|k: int| self.seek + i <= k < old_data.len() ==> self.data@[k] == old_data[k],
            decreases n - i,
        {
            let at = self.seek + i;
            self.data.set(at, buf[i]);
            i += 1;
        }
        proof {
            assert(self.data@ =~= old_data.subrange(0, self.seek as int) + buf@.take(n as int)
                + old_data.skip(self.seek + n));
        }
        self.seek = self.seek + n;
        n
    }

    /// Moves the cursor, clamped to the block: from the start, from the
    /// cursor, or from the end.
    pub fn seek(&mut self, pos: ResourceSeek) -> (r: usize)
        requires
            old(self).wf(),
        ensures
            final(self).wf(),
            final(self).data@ == old(self).data@,
            r == final(self).seek,
            r == seek_target(pos, old(self).seek as nat, old(self).data@.len()),
    {
        let len = self.data.len();
        let target: usize = match pos {
            ResourceSeek::Start(o) => if o > len { len } else { o },
            ResourceSeek::Current(o) => offset_within(self.seek, o, len),
            ResourceSeek::End(o) => offset_within(len, o, len),
        };
        self.seek = target;
        target
    }
}

/// `base + offset`, clamped to `0..=len`.
fn offset_within(base: usize, offset: isize, len: usize) -> (r: usize)
    requires
        base <= len,
    ensures
        r == clamp(base + offset, len as nat),
{
    if offset >= 0 {
        let o = offset as usize;
        if o > len - base {
            len
        } else {
            base + o
        }
    } else {
        let back: usize = if offset == isize::MIN {
            (isize::MAX as usize) + 1
        } else {
            (-offset) as usize
        };
        if back > base {
            0
        } else {
            base - back
        }
    }
}

impl Resource {
    pub open spec fn wf(&self) -> bool {
        match self {
            Resource::Block(v) => v.wf(),
            _ => true,
        }
    }

    /// Reading is unsupported: the inert resource and the audio sink.
    pub open spec fn reads_unsupported(&self) -> bool {
        self is Inert || self is Audio
    }

    /// Writing is unsupported: the inert resource.
    pub open spec fn writes_unsupported(&self) -> bool {
        self is Inert
    }

    pub open spec fn is_device(&self) -> bool {
        self is Audio || self is Debug
    }

    /// The URL the resource answers to.
    pub fn url(&self) -> (r: &'static str)
        ensures
            self is Inert ==> r@ == ""@,
            self is Audio ==> r@ == "audio://"@,
            self is Block ==> r@ == "ide://"@,
            self is Debug ==> r@ == "debug://"@,
    {
        match self {
            Resource::Inert => "",
            Resource::Audio(_) => "audio://",
            Resource::Block(_) => "ide://",
            Resource::Debug(_) => "debug://",
        }
    }

    /// Every resource is a file.
    pub fn stat(&self) -> (r: ResourceType)
        ensures
            r == ResourceType::File,
    {
        ResourceType::File
    }

    /// Reads into `buf`. A block copies from its cursor; the console is read
    /// by the platform; the inert resource and the audio sink cannot be read.
    pub fn read(&mut self, buf: &mut Vec<u8>) -> (r: Access)
        requires
            old(self).wf(),
        ensures
            final(self).wf(),
            old(self).reads_unsupported() ==> r == Access::Unsupported && *final(self) == *old(self)
                && final(buf)@ == old(buf)@,
            (*old(self)) is Debug ==> r == Access::Device && *final(self) == *old(self) && final(buf)@
                == old(buf)@,
            (*old(self)) matches Resource::Block(v) ==> ({
                let n = min(old(buf)@.len(), (v.data@.len() - v.seek) as nat);
                &&& r == Access::Done(n as usize)
                &&& final(buf)@ == v.data@.subrange(v.seek as int, v.seek + n) + old(buf)@.skip(n as int)
                &&& (*final(self)) matches Resource::Block(w) && w.data@ == v.data@ && w.seek == v.seek + n
            }),
    {
        match self {
            Resource::Block(v) => Access::Done(v.read(buf)),
            Resource::Debug(_) => Access::Device,
            _ => Access::Unsupported,
        }
    }

    /// Writes `buf`. A block takes the bytes that fit; the console and the
    /// audio sink are written by the platform; the inert resource cannot be written.
    pub fn write(&mut self, buf: &[u8]) -> (r: Access)
        requires
            old(self).wf(),
        ensures
            final(self).wf(),
            old(self).writes_unsupported() ==> r == Access::Unsupported && *final(self) == *old(self),
            old(self).is_device() ==> r == Access::Device && *final(self) == *old(self),
            (*old(self)) matches Resource::Block(v) ==> ({
                let n = min(buf@.len(), (v.data@.len() - v.seek) as nat);
                &&& r == Access::Done(n as usize)
                &&& (*final(self)) matches Resource::Block(w) && w.data@ == v.data@.subrange(0, v.seek as int)
                    + buf@.take(n as int) + v.data@.skip(v.seek + n) && w.seek == v.seek + n
            }),
    {
        match self {
            Resource::Block(v) => Access::Done(v.write(buf)),
            Resource::Inert => Access::Unsupported,
            _ => Access::Device,
        }
    }

    /// Moves a block's cursor; nothing else can seek.
    pub fn seek(&mut self, pos: ResourceSeek) -> (r: Option<usize>)
        requires
            old(self).wf(),
        ensures
            final(self).wf(),
            !((*old(self)) is Block) ==> r is None && *final(self) == *old(self),
            (*old(self)) matches Resource::Block(v) ==> ({
                let t = seek_target(pos, v.seek as nat, v.data@.len());
                &&& (*final(self)) matches Resource::Block(w) && w.data@ == v.data@ && w.seek == t
                &&& r == Some(t as usize)
            }),
    {
        match self {
            Resource::Block(v) => Some(v.seek(pos)),
            _ => None,
        }
    }

    /// Only the console has anything to flush.
    pub fn flush(&mut self) -> (r: bool)
        ensures
            r == ((*old(self)) is Debug),
            *final(self) == *old(self),
    {
        match self {
            Resource::Debug(_) => true,
            _ => false,
        }
    }

    /// The length of a block, the only resource with one.
    pub fn len(&self) -> (r: Option<usize>)
        ensures
            self matches Resource::Block(v) ==> r == Some(v.data@.len() as usize),
            !(self is Block) ==> r is None,
    {
        match self {
            Resource::Block(v) => Some(v.data.len()),
            _ => None,
        }
    }
}

#[derive(Clone, Copy, Debug, PartialEq, Eq, Structural)]
pub struct DebugScheme;

impl DebugScheme {
    pub fn scheme(&self) -> (r: &'static str)
        ensures
            r@ == "debug"@,
    {
        "debug"
    }

    pub fn open(&self) -> (r: Resource)
        ensures
            r == Resource::Debug(DebugResource),
    {
        Resource::Debug(DebugResource)
    }
}

#[derive(Clone, Copy, Debug, PartialEq, Eq, Structural)]
pub struct RandomScheme;

impl RandomScheme {
    pub fn scheme(&self) -> (r: &'static str)
        ensures
            r@ == "random"@,
    {
        "random"
    }

    /// A block holding `number` in decimal.
    pub fn open(&self, number: usize) -> (r: Resource)
        ensures
            r matches Resource::Block(v) && v.data@ == decimal(number as nat) && v.seek == 0,
    {
        let mut text: Vec<u8> = Vec::new();
        dd(&mut text, number);
        proof {
            assert(text@ =~= decimal(number as nat));
        }
        Resource::Block(VecResource::new(text))
    }
}

/// A registered driver instance.
#[derive(Clone, Debug)]
pub enum Driver {
    Audio(AC97),
    Disk(IDE),
    Debug(DebugScheme),
    Random(RandomScheme),
    Serial(Serial),
}

/// The scheme name a driver answers to; the serial port answers to none.
pub open spec fn scheme_name(d: Driver) -> Seq<char> {
    match d {
        Driver::Audio(_) => "audio"@,
        Driver::Disk(_) => "ide"@,
        Driver::Debug(_) => "debug"@,
        Driver::Random(_) => "random"@,
        Driver::Serial(_) => ""@,
    }
}

/// Whether `url` has the scheme `name`: it starts with `name` and a colon.
pub open spec fn has_scheme(url: Seq<char>, name: Seq<char>) -> bool {
    name.len() > 0 && url.len() > name.len() && url.subrange(0, name.len() as int) == name
        && url[name.len() as int] == ':'
}

/// Whether driver `d` claims `url`.
pub open spec fn claims(d: Driver, url: Seq<char>) -> bool {
    has_scheme(url, scheme_name(d))
}

/// Driver `i` is the first that claims `url`.
pub open spec fn first_claim(drivers: Seq<Driver>, url: Seq<char>, i: int) -> bool {
    0 <= i < drivers.len() && claims(drivers[i], url) && forall|j: int|
        0 <= j < i ==> !claims(#[trigger] drivers[j], url)
}

/// The work that an interrupt on line `irq` asks of the drivers, in order.
pub open spec fn irq_work(drivers: Seq<Driver>, irq: u8) -> Seq<IrqWork>
    decreases drivers.len(),
{
    if drivers.len() == 0 {
        Seq::empty()
    } else {
        let i = (drivers.len() - 1) as usize;
        let before = irq_work(drivers.drop_last(), irq);
        match drivers.last() {
            Driver::Serial(s) => if s.irq == irq {
                before.push(IrqWork::SerialByte(i))
            } else {
                before
            },
            Driver::Disk(_) => if irq == 0xE || irq == 0xF {
                before.push(IrqWork::DiskPoll(i))
            } else {
                before
            },
            _ => before,
        }
    }
}

/// The disk drivers, by index, that a poll tick reaches, in order; the
/// other drivers have nothing to do on a tick.
pub open spec fn poll_work(drivers: Seq<Driver>) -> Seq<usize>
    decreases drivers.len(),
{
    if drivers.len() == 0 {
        Seq::empty()
    } else {
        let before = poll_work(drivers.drop_last());
        if drivers.last() is Disk {
            before.push((drivers.len() - 1) as usize)
        } else {
            before
        }
    }
}

/// What opening a URL through the registry takes.
#[derive(Clone, Debug)]
pub enum Opened {
    /// The resource is ready.
    Ready(Resource),
    /// The disk driver at this index must carry out its plan first.
    Disk(usize, IdeOpen),
    /// The random scheme needs a random number; then `RandomScheme::open`.
    Random,
}

/// What an interrupt asks of a driver.
#[derive(Clone, Copy, Debug, PartialEq, Eq, Structural)]
pub enum IrqWork {
    /// Read the received byte of the serial driver at this index.
    SerialByte(usize),
    /// Poll the disk driver at this index for a finished transfer.
    DiskPoll(usize),
}

/// The registry: one driver per scheme, in registration order.
#[derive(Clone, Debug)]
pub struct Registry {
    pub drivers: Vec<Driver>,
}

impl Driver {
    pub fn scheme(&self) -> (r: &'static str)
        ensures
            r@ == scheme_name(*self),
    {
        match self {
            Driver::Audio(_) => "audio",
            Driver::Disk(_) => "ide",
            Driver::Debug(_) => "debug",
            Driver::Random(_) => "random",
            Driver::Serial(_) => "",
        }
    }
}

/// Whether `url` has the scheme `name`.
pub fn url_has_scheme(url: &str, name: &str) -> (r: bool)
    ensures
        r == has_scheme(url@, name@),
{
    let n = name.unicode_len();
    let u = url.unicode_len();
    if n == 0 || u <= n {
        return false;
    }
    let mut i: usize = 0;
    while i < n
        invariant
            n == name@.len(),
            u == url@.len(),
            n < u,
            i <= n,
            url@.subrange(0, i as int) == name@.subrange(0, i as int),
        decreases n - i,
    {
        if url.get_char(i) != name.get_char(i) {
            proof {
                assert(url@.subrange(0, n as int)[i as int] != name@[i as int]);
            }
            return false;
        }
        proof {
            assert(url@.subrange(0, i + 1) =~= url@.subrange(0, i as int).push(url@[i as int]));
            assert(name@.subrange(0, i + 1) =~= name@.subrange(0, i as int).push(name@[i as int]));
        }
        i += 1;
    }
    proof {
        assert(name@.subrange(0, n as int) =~= name@);
    }
    url.get_char(n) == ':'
}

impl Registry {
    pub fn new() -> (r: Registry)
        ensures
            r.drivers@.len() == 0,
    {
        Registry { drivers: Vec::new() }
    }

    pub fn register(&mut self, driver: Driver)
        ensures
            final(self).drivers@ == old(self).drivers@.push(driver),
    {
        self.drivers.push(driver);
    }

    /// The first driver that claims `url`.
    pub fn find(&self, url: &str) -> (r: Option<usize>)
        ensures
            r matches Some(i) ==> i < self.drivers@.len() && claims(self.drivers@[i as int], url@)
                && forall|j: int| 0 <= j < i ==> !claims(#[trigger] self.drivers@[j], url@),
            r is None ==> forall|j: int|
                0 <= j < self.drivers@.len() ==> !claims(#[trigger] self.drivers@[j], url@),
    {
        let mut i: usize = 0;
        while i < self.drivers.len()
            invariant
                i <= self.drivers@.len(),
                forall|j: int| 0 <= j < i ==> !claims(#[trigger] self.drivers@[j], url@),
            decreases self.drivers@.len() - i,
        {
            if url_has_scheme(url, self.drivers[i].scheme()) {
                return Some(i);
            }
            i += 1;
        }
        None
    }

    /// Opens `url` with the driver of its scheme; a URL that no driver
    /// claims opens the inert resource.
    pub fn open(&self, url: &str) -> (r: Opened)
        ensures
            (forall|j: int| 0 <= j < self.drivers@.len() ==> !claims(#[trigger] self.drivers@[j], url@))
                ==> r == Opened::Ready(Resource::Inert),
            forall|i: int| #[trigger] first_claim(self.drivers@, url@, i) ==> match self.drivers@[i] {
                Driver::Audio(a) => r == Opened::Ready(Resource::Audio(AC97Resource { audio: a.audio, bus_master: a.bus_master })),
                Driver::Disk(_) => r == Opened::Disk(i as usize, spec_plan_open(url.spec_bytes())),
                Driver::Debug(_) => r == Opened::Ready(Resource::Debug(DebugResource)),
                Driver::Random(_) => r == Opened::Random,
                Driver::Serial(_) => false,
            },
    {
        let found = self.find(url);
        proof {
            reveal_strlit("");
            assert(""@.len() == 0);
            assert forall|i: int| #[trigger] first_claim(self.drivers@, url@, i) implies found == Some(
                i as usize,
            ) by {
                if let Some(k) = found {
                    if (k as int) < i {
                        assert(!claims(self.drivers@[k as int], url@));
                    }
                    if i < k as int {
                        assert(!claims(self.drivers@[i], url@));
                    }
                }
            }
        }
        match found {
            None => Opened::Ready(Resource::Inert),
            Some(i) => match &self.drivers[i] {
                Driver::Audio(a) => Opened::Ready(Resource::Audio(a.open())),
                Driver::Disk(_) => Opened::Disk(i, IDE::plan_open(url)),
                Driver::Debug(s) => Opened::Ready(s.open()),
                Driver::Random(_) => Opened::Random,
                Driver::Serial(_) => Opened::Ready(Resource::Inert),
            },
        }
    }

    /// The drivers that a poll tick asks to check their device, in order.
    pub fn dispatch_poll(&self) -> (r: Vec<usize>)
        ensures
            r@ == poll_work(self.drivers@),
    {
        let mut work: Vec<usize> = Vec::new();
        let mut i: usize = 0;
        while i < self.drivers.len()
            invariant
                i <= self.drivers@.len(),
                work@ == poll_work(self.drivers@.take(i as int)),
            decreases self.drivers@.len() - i,
        {
            proof {
                assert(self.drivers@.take(i + 1).drop_last() =~= self.drivers@.take(i as int));
            }
            if let Driver::Disk(_) = &self.drivers[i] {
                work.push(i);
            }
            i += 1;
        }
        proof {
            assert(self.drivers@.take(i as int) =~= self.drivers@);
        }
        work
    }

    /// The work an interrupt on line `irq` asks of each driver that owns it,
    /// in registration order.
    pub fn dispatch_irq(&self, irq: u8) -> (r: Vec<IrqWork>)
        ensures
            r@ == irq_work(self.drivers@, irq),
    {
        let mut work: Vec<IrqWork> = Vec::new();
        let mut i: usize = 0;
        while i < self.drivers.len()
            invariant
                i <= self.drivers@.len(),
                work@ == irq_work(self.drivers@.take(i as int), irq),
            decreases self.drivers@.len() - i,
        {
            proof {
                assert(self.drivers@.take(i + 1).drop_last() =~= self.drivers@.take(i as int));
            }
            match &self.drivers[i] {
                Driver::Serial(s) => {
                    if s.handles(irq) {
                        work.push(IrqWork::SerialByte(i));
                    }
                },
                Driver::Disk(_) => {
                    if crate::ide::owns_irq(irq) {
                        work.push(IrqWork::DiskPoll(i));
                    }
                },
                _ => {},
            }
            i += 1;
        }
        proof {
            assert(self.drivers@.take(i as int) =~= self.drivers@);
        }
        work
    }
}

/// The resource of a planned IDE read once the platform has read the
/// sectors: a block of exactly the planned bytes; the inert resource when no
/// buffer was given (destination 0) or the bytes read are not the planned size.
pub fn finish_disk_open(plan: IdeOpen, destination: usize, data: Vec<u8>) -> (r: Resource)
    ensures
        plan is Inert || destination == 0 ==> r == Resource::Inert,
        plan matches IdeOpen::Read { bytes, .. } ==> (destination != 0 && data@.len() == bytes
            ==> (r matches Resource::Block(v) && v.data@ == data@ && v.seek == 0)),
        plan matches IdeOpen::Read { bytes, .. } ==> (data@.len() != bytes ==> r == Resource::Inert),
{
    match plan {
        IdeOpen::Inert => Resource::Inert,
        IdeOpen::Read { bytes, .. } => if destination == 0 || data.len() != bytes {
            Resource::Inert
        } else {
            Resource::Block(VecResource::new(data))
        },
    }
}

/// A URL that no registered driver claims opens the inert resource, which
/// supports neither reading nor writing (`Registry::open`, `Resource::read`
/// and `Resource::write` state the three steps).
pub proof fn lemma_unclaimed_is_inert(drivers: Seq<Driver>, url: Seq<char>)
    requires
        forall|j: int| 0 <= j < drivers.len() ==> !claims(#[trigger] drivers[j], url),
    ensures
        forall|i: int| !first_claim(drivers, url, i),
        Resource::Inert.reads_unsupported(),
        Resource::Inert.writes_unsupported(),
        !Resource::Inert.is_device(),
{
    assert forall|i: int| !first_claim(drivers, url, i) by {
        if 0 <= i < drivers.len() {
            assert(!claims(drivers[i], url));
        }
    }
}

} // verus!
