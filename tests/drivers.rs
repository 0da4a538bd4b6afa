use kernel_devices::ac97::{plan_write, slot_ready, start_index, AC97Resource, Ac97Step, BufferDescriptor, PortOp, AC97, MAX_CHUNK_BYTES};
use kernel_devices::critical::{read_section, section, Action};
use kernel_devices::debug::{d, db, dbh, dc, dd, dh, dl, ds};
use kernel_devices::event::{Event, EventOption, KeyEvent, MouseEvent, OpenEvent, RedrawEvent, K_BKSP, K_UP};
use kernel_devices::ide::{bus_master_enable, interrupt_pending, owns_irq, prdt_address, transfer_finished, IdeOpen, PollStage, PollStep, IDERequest, IDE};
use kernel_devices::scheme::{finish_disk_open, Access, Driver, IrqWork, DebugScheme, Opened, RandomScheme, Registry, Resource, ResourceSeek, ResourceType, VecResource};
use kernel_devices::serial::Serial;
use kernel_devices::wav::WAV;

fn fill_total(steps: &[Ac97Step]) -> usize {
    steps
        .iter()
        .map(|s| match s {
            Ac97Step::Fill { bytes, .. } => *bytes,
            Ac97Step::Commit { .. } => 0,
        })
        .sum()
}

#[test]
fn start_index_wraps_at_zero() {
    assert_eq!(start_index(0), 31);
    assert_eq!(start_index(5), 4);
}

#[test]
fn plan_covers_every_length() {
    for &len in &[0usize, 1, 2, 11, 131068, 131069, 32 * 131068, 33 * 131068 + 5, 70 * 131068] {
        for lvi in 0u8..32 {
            let plan = plan_write(len, lvi);
            assert_eq!(fill_total(&plan.steps), len);
            assert!(plan.last_index < 32);
            for s in &plan.steps {
                match *s {
                    Ac97Step::Fill { index, bytes, samples, .. } => {
                        assert!(index < 32);
                        assert!(samples <= 65534);
                        assert!(bytes <= MAX_CHUNK_BYTES);
                        assert_eq!(samples as usize, bytes / 2);
                    }
                    Ac97Step::Commit { lvi } => assert!(lvi < 32),
                }
            }
        }
    }
}

#[test]
fn plan_of_empty_buffer_is_one_empty_descriptor() {
    let plan = plan_write(0, 7);
    assert_eq!(plan.steps, vec![Ac97Step::Fill { index: 8, offset: 0, bytes: 0, samples: 0, wait: false }]);
    assert_eq!(plan.last_index, 8);
}

#[test]
fn plan_commits_when_the_ring_is_full() {
    let plan = plan_write(32 * 131068, 0);
    // slots 1..=30 fill, then 31 is the start index: a commit comes after slot 30
    assert_eq!(plan.steps[29], Ac97Step::Fill { index: 30, offset: 29 * 131068, bytes: 131068, samples: 65534, wait: false });
    assert_eq!(plan.steps[30], Ac97Step::Commit { lvi: 31 });
    assert_eq!(plan.steps[31], Ac97Step::Fill { index: 31, offset: 30 * 131068, bytes: 131068, samples: 65534, wait: true });
    assert_eq!(plan.steps[32], Ac97Step::Fill { index: 0, offset: 31 * 131068, bytes: 131068, samples: 65534, wait: true });
    assert_eq!(plan.steps.iter().filter(|s| matches!(s, Ac97Step::Commit { lvi: 31 })).count(), 1);
    assert_eq!(plan.steps.len(), 33);
    assert_eq!(plan.last_index, 0);
}

#[test]
fn ac97_from_config() {
    let a = AC97::new(0x0000_D101, 0x0000_D201, 0x1_0B);
    assert_eq!(a.audio, 0xD100);
    assert_eq!(a.bus_master, 0xD200);
    assert_eq!(a.irq, 0xB);
    let mut out = Vec::new();
    a.init(&mut out);
    assert_eq!(out, b"AC97 on: D100, D200, IRQ: 0B\n".to_vec());
}

#[test]
fn ide_open_reads_sector_and_count() {
    assert_eq!(IDE::target("ide:///10/4"), (10, 4));
    assert_eq!(IDE::plan_open("ide:///10/4"), IdeOpen::Read { sector: 10, count: 4, bytes: 2048 });
    let req = IDE::request(10, 4, 0x10000).unwrap();
    assert_eq!(req, IDERequest { sector: 10, count: 4, destination: 0x10000 });
    assert_eq!(section(&read_section(req), None)[1], Action::DiskRead(IDERequest { sector: 10, count: 4, destination: 0x10000 }));
    let r = finish_disk_open(IdeOpen::Read { sector: 10, count: 4, bytes: 2048 }, 0x10000, vec![7u8; 2048]);
    assert_eq!(r.len(), Some(2048));
}

#[test]
fn ide_open_defaults_to_one_sector() {
    assert_eq!(IDE::plan_open("ide://"), IdeOpen::Read { sector: 1, count: 1, bytes: 512 });
    assert_eq!(IDE::target("ide:///x/"), (1, 1));
    assert_eq!(IDE::target("ide:///7"), (7, 1));
}

#[test]
fn ide_open_of_zero_sectors_is_inert() {
    assert_eq!(IDE::plan_open("ide:///5/0"), IdeOpen::Inert);
    let r = finish_disk_open(IdeOpen::Inert, 0x1000, Vec::new());
    assert!(matches!(r, Resource::Inert));
}

#[test]
fn ide_failed_allocation_is_inert() {
    let r = finish_disk_open(IdeOpen::Read { sector: 1, count: 1, bytes: 512 }, 0, Vec::new());
    assert!(matches!(r, Resource::Inert));
    assert_eq!(IDE::request(1, 1, 0), None);
}

#[test]
fn unknown_scheme_opens_inert_resource() {
    let mut reg = Registry::new();
    reg.register(Driver::Disk(IDE::new(0, 1, 1, 0xC000, false)));
    reg.register(Driver::Debug(DebugScheme));
    match reg.open("foo://bar") {
        Opened::Ready(mut r) => {
            let mut buf = vec![0u8; 4];
            assert_eq!(r.read(&mut buf), Access::Unsupported);
            assert_eq!(r.write(b"abc"), Access::Unsupported);
            assert_eq!(r.stat(), ResourceType::File);
            assert!(!r.flush());
            assert_eq!(r.seek(ResourceSeek::Start(0)), None);
        }
        _ => panic!("expected a ready resource"),
    }
}

#[test]
fn registry_routes_by_scheme() {
    let mut reg = Registry::new();
    reg.register(Driver::Audio(AC97::new(0x100, 0x200, 5)));
    reg.register(Driver::Disk(IDE::new(0, 1, 1, 0xC000, false)));
    reg.register(Driver::Random(RandomScheme));
    assert!(matches!(reg.open("audio://"), Opened::Ready(Resource::Audio(_))));
    assert!(matches!(reg.open("ide:///2/3"), Opened::Disk(1, IdeOpen::Read { sector: 2, count: 3, bytes: 1536 })));
    assert!(matches!(reg.open("random://"), Opened::Random));
    assert_eq!(reg.find("ide:///"), Some(1));
    assert_eq!(reg.find("idea://"), None);
}

#[test]
fn random_scheme_holds_decimal_text() {
    let mut r = RandomScheme.open(4071);
    let mut buf = vec![0u8; 8];
    assert_eq!(r.read(&mut buf), Access::Done(4));
    assert_eq!(&buf[..4], b"4071");
}

#[test]
fn block_resource_read_write_seek() {
    let mut r = Resource::Block(VecResource::new(vec![1, 2, 3, 4, 5]));
    let mut buf = vec![0u8; 3];
    assert_eq!(r.read(&mut buf), Access::Done(3));
    assert_eq!(buf, vec![1, 2, 3]);
    assert_eq!(r.write(&[9, 9, 9]), Access::Done(2));
    assert_eq!(r.seek(ResourceSeek::Start(0)), Some(0));
    let mut all = vec![0u8; 10];
    assert_eq!(r.read(&mut all), Access::Done(5));
    assert_eq!(&all[..5], &[1, 2, 3, 9, 9]);
    assert_eq!(r.seek(ResourceSeek::End(-2)), Some(3));
    assert_eq!(r.seek(ResourceSeek::Current(-10)), Some(0));
    assert_eq!(r.seek(ResourceSeek::Start(99)), Some(5));
    assert_eq!(r.len(), Some(5));
}

#[test]
fn serial_arrow_up_sequence() {
    let mut s = Serial::new(0x3F8, 4);
    assert!(s.handles(4));
    assert_eq!(s.on_byte(0x1B), None);
    assert_eq!(s.on_byte(b'['), None);
    assert_eq!(s.on_byte(b'A'), Some(KeyEvent { character: '\0', scancode: K_UP, pressed: true }));
    assert_eq!(s.on_byte(b'x'), Some(KeyEvent { character: 'x', scancode: 0, pressed: true }));
}

#[test]
fn serial_maps_return_and_delete() {
    let mut s = Serial::new(0x3F8, 4);
    assert_eq!(s.on_byte(b'\r'), Some(KeyEvent { character: '\n', scancode: 0, pressed: true }));
    assert_eq!(s.on_byte(0x7F), Some(KeyEvent { character: '\0', scancode: K_BKSP, pressed: true }));
    assert_eq!(s.on_byte(0), None);
    assert_eq!(s.on_byte(0x1B), None);
    assert_eq!(s.on_byte(b'Q'), None);
    assert_eq!(s.on_byte(b'q'), Some(KeyEvent { character: 'q', scancode: 0, pressed: true }));
}

#[test]
fn critical_section_always_reenables() {
    let req = IDERequest { sector: 10, count: 4, destination: 0x4000 };
    let body = read_section(req);
    assert_eq!(
        section(&body, None),
        vec![Action::DisableInterrupts, Action::DiskRead(req), Action::Complete(0x4000), Action::EnableInterrupts]
    );
    assert_eq!(section(&body, Some(1)), vec![Action::DisableInterrupts, Action::DiskRead(req), Action::EnableInterrupts]);
    assert_eq!(section(&body, Some(0)), vec![Action::DisableInterrupts, Action::EnableInterrupts]);
}

#[test]
fn ide_queue_completes_in_order() {
    let mut ide = IDE::new(0, 1, 1, 0xC000, false);
    let a = IDERequest { sector: 1, count: 1, destination: 0x1000 };
    let b = IDERequest { sector: 2, count: 2, destination: 0x2000 };
    assert!(ide.submit(a));
    assert!(!ide.submit(b));
    assert_eq!(ide.complete_head(), (Some(a), Some(b)));
    assert_eq!(ide.complete_head(), (Some(b), None));
    assert_eq!(ide.complete_head(), (None, None));
}

#[test]
fn ide_register_decisions() {
    assert!(interrupt_pending(0x4));
    assert!(!interrupt_pending(0x3));
    assert!(transfer_finished(0x1, 0x4));
    assert!(!transfer_finished(0x1, 0x5));
    assert_eq!(prdt_address(0x1234_5678), 0x1234_0000);
    assert!(owns_irq(14) && owns_irq(15) && !owns_irq(13));
    assert_eq!(bus_master_enable(0x3), 0x7);
    let mut out = Vec::new();
    IDE::new(0, 1, 1, 0xC040, false).init(&mut out, 0x10000, 0x1, 0x4);
    assert_eq!(out, b"IDE on: C040 port mapped PRDT 010000 CMD 01 STS 04\n".to_vec());
}

#[test]
fn debug_formatting() {
    let mut out = Vec::new();
    dbh(&mut out, 0xAF);
    dh(&mut out, 0x12345);
    dd(&mut out, 1203);
    ds(&mut out, -45);
    ds(&mut out, isize::MIN);
    dc(&mut out, 'z');
    d(&mut out, "ok");
    dl(&mut out);
    let mut expected = b"AF0123451203-45".to_vec();
    expected.extend_from_slice(b"-9223372036854775808");
    expected.extend_from_slice(b"zok\n");
    if isize::MIN as i64 == i64::MIN {
        assert_eq!(out, expected);
    }
    let mut zero = Vec::new();
    dd(&mut zero, 0);
    dh(&mut zero, 0);
    assert_eq!(zero, b"000".to_vec());
}

#[test]
fn events_encode_and_decode() {
    let k = KeyEvent { character: 'a', scancode: 0x1E, pressed: true };
    let e = k.to_event();
    assert_eq!(e, Event { code: 'k', a: 97, b: 0x1E, c: 1, d: 0, e: 0 });
    assert_eq!(KeyEvent::from_event(e), k);
    let bad = Event { code: 'k', a: 0xD800, b: 2, c: 0, d: 0, e: 0 };
    assert_eq!(KeyEvent::from_event(bad), KeyEvent { character: '\0', scancode: 2, pressed: false });
    let m = MouseEvent { x: 3, y: -4, left_button: true, right_button: false, middle_button: true, valid: true };
    assert_eq!(MouseEvent::from_event(m.to_event()), m);
    assert!(matches!(m.to_event().to_option(), EventOption::Mouse(x) if x == m));
    assert!(matches!(RedrawEvent { redraw: 2 }.to_event().to_option(), EventOption::Redraw(RedrawEvent { redraw: 2 })));
    assert!(matches!(Event { code: '\0', a: 0, b: 0, c: 0, d: 0, e: 0 }.to_option(), EventOption::Empty));
    assert!(matches!(Event { code: 'q', a: 0, b: 0, c: 0, d: 0, e: 0 }.to_option(), EventOption::Unknown(_)));
}

fn wav_file() -> Vec<u8> {
    let mut f = Vec::new();
    f.extend_from_slice(b"RIFF");
    f.extend_from_slice(&40u32.to_le_bytes());
    f.extend_from_slice(b"WAVE");
    f.extend_from_slice(b"fmt ");
    f.extend_from_slice(&16u32.to_le_bytes());
    f.extend_from_slice(&1u16.to_le_bytes());
    f.extend_from_slice(&2u16.to_le_bytes());
    f.extend_from_slice(&44100u32.to_le_bytes());
    f.extend_from_slice(&176400u32.to_le_bytes());
    f.extend_from_slice(&4u16.to_le_bytes());
    f.extend_from_slice(&16u16.to_le_bytes());
    f.extend_from_slice(b"data");
    f.extend_from_slice(&4u32.to_le_bytes());
    f.extend_from_slice(&[1, 2, 3, 4]);
    f
}

#[test]
fn wav_parses_format_and_data() {
    let w = WAV::from_data(&wav_file());
    assert_eq!(w.channels, 2);
    assert_eq!(w.sample_rate, 44100);
    assert_eq!(w.sample_bits, 16);
    assert_eq!(w.data, vec![1, 2, 3, 4]);
}

#[test]
fn wav_rejects_other_containers() {
    let mut f = wav_file();
    f[0] = b'X';
    let w = WAV::from_data(&f);
    assert_eq!((w.channels, w.sample_rate, w.sample_bits, w.data.len()), (0, 0, 0, 0));
    let e = WAV::from_data(&Vec::new());
    assert_eq!(e.data.len(), 0);
}

#[test]
fn wav_truncated_data_chunk() {
    let mut f = wav_file();
    f.truncate(f.len() - 2);
    let w = WAV::from_data(&f);
    assert_eq!(w.data, vec![1, 2]);
}

#[test]
fn raw_debug_byte_and_open_event() {
    let mut out = Vec::new();
    db(&mut out, 0x7F);
    assert_eq!(out, vec![0x7F]);
    let o = OpenEvent { url_string: String::from("ide:///1/1") };
    assert_eq!(o.to_event(0x5000), Event { code: 'o', a: 0x5000, b: 0, c: 0, d: 0, e: 0 });
    assert_eq!(OpenEvent::from_event(o.to_event(0x5000), String::from("ide:///1/1")).url_string, "ide:///1/1");
}

#[test]
fn irq_dispatch_reaches_owning_drivers() {
    let mut reg = Registry::new();
    reg.register(Driver::Serial(Serial::new(0x3F8, 4)));
    reg.register(Driver::Disk(IDE::new(0, 1, 1, 0xC000, false)));
    reg.register(Driver::Serial(Serial::new(0x2F8, 3)));
    assert_eq!(reg.dispatch_irq(4), vec![IrqWork::SerialByte(0)]);
    assert_eq!(reg.dispatch_irq(0xE), vec![IrqWork::DiskPoll(1)]);
    assert_eq!(reg.dispatch_irq(0xF), vec![IrqWork::DiskPoll(1)]);
    assert_eq!(reg.dispatch_irq(3), vec![IrqWork::SerialByte(2)]);
    assert_eq!(reg.dispatch_irq(9), vec![]);
}

#[test]
fn ac97_register_protocol() {
    let r = AC97::new(0xD100, 0xD200, 5).open();
    assert_eq!(
        r.prepare(),
        vec![
            PortOp::OutW { port: 0xD102, value: 0x0808 },
            PortOp::OutW { port: 0xD118, value: 0x0808 },
            PortOp::WaitClear { port: 0xD21B, mask: 1 },
            PortOp::OutB { port: 0xD21B, value: 0 },
        ]
    );
    assert_eq!(r.commit(31), vec![PortOp::OutB { port: 0xD215, value: 31 }, PortOp::OutB { port: 0xD21B, value: 1 }]);
    assert_eq!(
        r.finish(3),
        vec![
            PortOp::OutB { port: 0xD215, value: 3 },
            PortOp::OutB { port: 0xD21B, value: 1 },
            PortOp::WaitEqual { port: 0xD214, value: 3 },
            PortOp::OutB { port: 0xD21B, value: 0 },
        ]
    );
    assert!(slot_ready(false, 9, 3));
    assert!(!slot_ready(true, 9, 3));
    assert!(slot_ready(true, 3, 3));
}

#[test]
fn device_resources_defer_to_the_platform() {
    let mut audio = Resource::Audio(AC97::new(0x100, 0x200, 5).open());
    let mut buf = vec![0u8; 4];
    assert_eq!(audio.read(&mut buf), Access::Unsupported);
    assert_eq!(audio.write(b"pcm"), Access::Device);
    assert_eq!(audio.seek(ResourceSeek::Start(1)), None);
    assert!(!audio.flush());
    let mut console = DebugScheme.open();
    assert_eq!(console.read(&mut buf), Access::Device);
    assert_eq!(console.write(b"hi"), Access::Device);
    assert!(console.flush());
}

#[test]
fn disk_block_must_match_planned_size() {
    let plan = IdeOpen::Read { sector: 10, count: 4, bytes: 2048 };
    assert!(matches!(finish_disk_open(plan, 0x1000, vec![0u8; 7]), Resource::Inert));
    assert_eq!(finish_disk_open(plan, 0x1000, vec![0u8; 2048]).len(), Some(2048));
    assert_eq!(IDE::plan_open("ide:///1/65536"), IdeOpen::Inert);
    assert_eq!(IDE::plan_open("ide:///1/65535"), IdeOpen::Read { sector: 1, count: 65535, bytes: 65535 * 512 });
}

#[test]
fn ide_poll_steps() {
    let mut ide = IDE::new(0, 1, 1, 0xC000, false);
    let a = IDERequest { sector: 1, count: 1, destination: 0x1000 };
    let b = IDERequest { sector: 2, count: 2, destination: 0x2000 };
    ide.submit(a);
    ide.submit(b);
    assert_eq!(ide.poll_step(PollStage::Start { command: 1, status: 0 }), PollStep::Idle);
    assert_eq!(ide.poll_step(PollStage::Start { command: 1, status: 5 }), PollStep::Ack { status: 5 });
    assert_eq!(ide.poll_step(PollStage::Acked { command: 1, status: 1 }), PollStep::Idle);
    assert_eq!(ide.poll_step(PollStage::Acked { command: 0, status: 0 }), PollStep::Idle);
    assert_eq!(ide.poll_step(PollStage::Acked { command: 1, status: 4 }), PollStep::Stop);
    assert_eq!(ide.poll_step(PollStage::Prdt { register: 0x0000_FFFF }), PollStep::Idle);
    assert_eq!(ide.requests.len(), 2);
    assert_eq!(
        ide.poll_step(PollStage::Prdt { register: 0x0012_0004 }),
        PollStep::Complete { prdt: 0x0012_0000, done: Some(a), next: Some(b) }
    );
    assert_eq!(
        ide.poll_step(PollStage::Prdt { register: 0x0013_0000 }),
        PollStep::Complete { prdt: 0x0013_0000, done: Some(b), next: None }
    );
    assert!(ide.requests.is_empty());
}

#[test]
fn poll_tick_reaches_disks() {
    let mut reg = Registry::new();
    reg.register(Driver::Serial(Serial::new(0x3F8, 4)));
    reg.register(Driver::Disk(IDE::new(0, 1, 1, 0xC000, false)));
    reg.register(Driver::Debug(DebugScheme));
    reg.register(Driver::Disk(IDE::new(0, 1, 2, 0xC040, false)));
    assert_eq!(reg.dispatch_poll(), vec![1, 3]);
    assert_eq!(Registry::new().dispatch_poll(), Vec::<usize>::new());
}

#[test]
fn serial_escape_then_other_byte_is_idle() {
    let mut s = Serial { port: 0x3F8, irq: 4, escape: true, cursor_control: true };
    assert_eq!(s.on_byte(b'x'), None);
    assert!(!s.escape && !s.cursor_control);
    let mut t = Serial::new(0x3F8, 4);
    assert_eq!(t.on_byte(0x1B), None);
    assert_eq!(t.on_byte(b'O'), None);
    assert!(!t.escape && !t.cursor_control);
}

#[test]
fn ac97_ring_setup_and_masked_index() {
    assert_eq!(AC97Resource::ring_allocation(0), Some(256));
    assert_eq!(AC97Resource::ring_allocation(0x8000), None);
    let ring = AC97Resource::empty_ring();
    assert_eq!(ring.len(), 32);
    assert!(ring.iter().all(|d| *d == BufferDescriptor { ptr: 0, samples: 0 }));
    let r = AC97::new(0xD100, 0xD200, 5).open();
    let plan = r.plan(1000, 0xE5);
    assert_eq!(plan.steps, vec![Ac97Step::Fill { index: 6, offset: 0, bytes: 1000, samples: 500, wait: false }]);
    assert_eq!(plan.written, 1000);
    assert_eq!(plan.last_index, 6);
}
