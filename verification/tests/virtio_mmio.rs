use std::cell::RefCell;
use std::sync::{Arc, Mutex};

use ternvale::virtio::irq::VirtioIrq;
use ternvale::virtio::mmio::status::StatusRefusal;
use ternvale::virtio::mmio::{slot_base, SlotWindow, VirtioMmio, VirtioMmioError};
use ternvale::virtio::{
    Calls, FixedDevice, QueueNotify, VirtioDevice, STATUS_ACKNOWLEDGE, STATUS_DRIVER, STATUS_DRIVER_OK,
    STATUS_FAILED, STATUS_FEATURES_OK, VIRTIO_F_EVENT_IDX, VIRTIO_F_INDIRECT_DESC,
    VIRTIO_F_VERSION_1,
};

struct Dummy {
    features: u64,
    config: u32,
    notified: Arc<Mutex<Vec<u16>>>,
    kicks: Arc<Mutex<Vec<QueueNotify>>>,
    status: RefCell<Vec<u32>>,
}

impl Dummy {
    fn new(features: u64) -> Self {
        Self {
            features,
            config: 0x1122_3344,
            notified: Arc::new(Mutex::new(Vec::new())),
            kicks: Arc::new(Mutex::new(Vec::new())),
            status: RefCell::new(Vec::new()),
        }
    }
}

impl VirtioDevice for Dummy {
    fn calls(&self) -> Calls {
        unreachable!()
    }

    fn id(&self) -> u32 {
        1
    }

    fn vendor(&self) -> u32 {
        ternvale::virtio::DEFAULT_VENDOR_ID
    }

    fn features(&self) -> u64 {
        self.features
    }

    fn queue_count(&self) -> u16 {
        ternvale::virtio::DEFAULT_NUM_QUEUES
    }

    fn queue_max(&self, _queue: u16) -> u16 {
        ternvale::virtio::DEFAULT_QUEUE_NUM_MAX
    }

    fn generation(&self) -> u32 {
        0
    }

    fn config(&self, offset: u64, _size: u8) -> u64 {
        u64::from(self.config >> (offset * 8))
    }

    fn config_after(&self, _offset: u64, _size: u8, _value: u64, _at: u64, _len: u8) -> u64 {
        unreachable!()
    }

    fn steady(&self) -> bool {
        true
    }

    fn device_id(&self) -> u32 {
        1
    }

    fn vendor_id(&self) -> u32 {
        ternvale::virtio::DEFAULT_VENDOR_ID
    }

    fn device_features(&self) -> u64 {
        self.features
    }

    fn num_queues(&self) -> u16 {
        ternvale::virtio::DEFAULT_NUM_QUEUES
    }

    fn queue_num_max(&self, _queue: u16) -> u16 {
        ternvale::virtio::DEFAULT_QUEUE_NUM_MAX
    }

    fn read_config(&mut self, offset: u64, _size: u8) -> u64 {
        u64::from(self.config >> (offset * 8))
    }

    fn write_config(&mut self, offset: u64, size: u8, value: u64) {
        let shift = offset * 8;
        let mask = match size {
            1 => 0xffu32,
            2 => 0xffff,
            _ => 0xffff_ffff,
        };
        self.config = (self.config & !(mask << shift)) | ((value as u32 & mask) << shift);
    }

    fn notify(&mut self, queue: QueueNotify) {
        self.notified.lock().expect("notified").push(queue.index);
        self.kicks.lock().expect("kicks").push(queue);
    }

    fn status_changed(&mut self, status: u32) {
        self.status.borrow_mut().push(status);
    }

    fn config_generation(&self) -> u32 {
        0
    }
}

fn transport() -> VirtioMmio<Dummy> {
    VirtioMmio::new(0, Box::new(Dummy::new(1)))
}

fn write_status<D: VirtioDevice>(dev: &mut VirtioMmio<D>, status: u32) {
    dev.write(0x070, 4, u64::from(status));
}

fn negotiate<D: VirtioDevice>(dev: &mut VirtioMmio<D>) {
    write_status(dev, STATUS_ACKNOWLEDGE);
    write_status(dev, STATUS_ACKNOWLEDGE | STATUS_DRIVER);
    dev.write(0x024, 4, 1);
    dev.write(0x020, 4, 1);
    dev.write(0x024, 4, 0);
    dev.write(0x020, 4, 1);
    write_status(dev, STATUS_ACKNOWLEDGE | STATUS_DRIVER | STATUS_FEATURES_OK);
}

fn configure_queue<D: VirtioDevice>(dev: &mut VirtioMmio<D>) {
    dev.write(0x030, 4, 0);
    dev.write(0x038, 4, 8);
    dev.write(0x080, 4, 0x1000);
    dev.write(0x090, 4, 0x2000);
    dev.write(0x0a0, 4, 0x3000);
    dev.write(0x044, 4, 1);
}

#[test]
fn identity_registers_match_virtio_mmio_v2() {
    let mut dev = transport();
    assert_eq!(dev.read(0x000, 4), 0x7472_6976);
    assert_eq!(dev.read(0x004, 4), 2);
    assert_eq!(dev.read(0x008, 4), 1);
    assert_eq!(dev.read(0x00c, 4), 0x554d_4551);
    assert_eq!(dev.read(0x010, 4) & 1, 1);
    dev.write(0x014, 4, 1);
    assert_eq!(dev.read(0x010, 4) & 1, 1, "VERSION_1 is offered");
}

#[test]
fn features_ok_requires_version_1() {
    let mut dev = transport();
    write_status(&mut dev, STATUS_ACKNOWLEDGE);
    write_status(&mut dev, STATUS_ACKNOWLEDGE | STATUS_DRIVER);
    write_status(
        &mut dev,
        STATUS_ACKNOWLEDGE | STATUS_DRIVER | STATUS_FEATURES_OK,
    );
    assert_eq!(
        dev.read(0x070, 4),
        u64::from(STATUS_ACKNOWLEDGE | STATUS_DRIVER)
    );
}

#[test]
fn handshake_reaches_driver_ok() {
    let mut dev = transport();
    negotiate(&mut dev);
    assert_eq!(
        dev.read(0x070, 4),
        u64::from(STATUS_ACKNOWLEDGE | STATUS_DRIVER | STATUS_FEATURES_OK)
    );
    write_status(
        &mut dev,
        STATUS_ACKNOWLEDGE | STATUS_DRIVER | STATUS_FEATURES_OK | STATUS_DRIVER_OK,
    );
    assert_eq!(
        dev.read(0x070, 4),
        u64::from(STATUS_ACKNOWLEDGE | STATUS_DRIVER | STATUS_FEATURES_OK | STATUS_DRIVER_OK)
    );
    assert_eq!(dev.read(0x014, 4), 0);
}

#[test]
fn out_of_order_status_is_rejected() {
    let mut dev = transport();
    let refused = dev.check_status(STATUS_DRIVER_OK).expect_err("out of order");
    assert_eq!(refused, StatusRefusal::OutOfOrder);
    assert_eq!(refused.reason(), "out of order");
    write_status(&mut dev, STATUS_DRIVER_OK);
    assert_eq!(dev.read(0x070, 4), 0);
    write_status(&mut dev, STATUS_ACKNOWLEDGE);
    write_status(
        &mut dev,
        STATUS_ACKNOWLEDGE | STATUS_DRIVER | STATUS_FEATURES_OK,
    );
    assert_eq!(dev.read(0x070, 4), u64::from(STATUS_ACKNOWLEDGE));
}

#[test]
fn each_refusal_has_its_reason() {
    let mut dev = transport();
    assert_eq!(dev.check_status(16), Err(StatusRefusal::UnknownBit));
    write_status(&mut dev, STATUS_ACKNOWLEDGE);
    assert_eq!(
        dev.check_status(STATUS_DRIVER),
        Err(StatusRefusal::ClearedBit)
    );
    assert_eq!(
        dev.check_status(STATUS_ACKNOWLEDGE | STATUS_DRIVER | STATUS_FEATURES_OK),
        Err(StatusRefusal::SkippedStep)
    );
    write_status(&mut dev, STATUS_ACKNOWLEDGE | STATUS_DRIVER);
    let features = STATUS_ACKNOWLEDGE | STATUS_DRIVER | STATUS_FEATURES_OK;
    assert_eq!(
        dev.check_status(features),
        Err(StatusRefusal::MissingVersion1)
    );
    dev.write(0x020, 4, 2);
    assert_eq!(
        dev.check_status(features),
        Err(StatusRefusal::UnofferedFeature)
    );
    assert_eq!(
        StatusRefusal::UnknownBit.reason(),
        "unknown status bit"
    );
    assert_eq!(
        StatusRefusal::ClearedBit.reason(),
        "status bits cleared without reset"
    );
    assert_eq!(StatusRefusal::SkippedStep.reason(), "skipped status step");
    assert_eq!(
        StatusRefusal::UnofferedFeature.reason(),
        "driver features are not a subset of device features"
    );
    assert_eq!(
        StatusRefusal::MissingVersion1.reason(),
        "missing VIRTIO_F_VERSION_1"
    );
}

#[test]
fn a_driver_may_give_up_at_any_stage() {
    let mut dev = transport();
    write_status(&mut dev, STATUS_FAILED);
    assert_eq!(dev.read(0x070, 4), u64::from(STATUS_FAILED));
    write_status(&mut dev, STATUS_ACKNOWLEDGE | STATUS_FAILED);
    assert_eq!(dev.read(0x070, 4), 0x81);
    write_status(&mut dev, 0);
    assert_eq!(dev.read(0x070, 4), 0);
}

#[test]
fn reset_clears_queues_and_status() {
    let mut dev = transport();
    negotiate(&mut dev);
    configure_queue(&mut dev);
    assert_eq!(dev.read(0x044, 4), 1);
    write_status(&mut dev, 0);
    assert_eq!(dev.read(0x070, 4), 0);
    assert_eq!(dev.read(0x044, 4), 0);
    dev.write(0x038, 4, 8);
    dev.write(0x044, 4, 1);
    assert_eq!(dev.read(0x044, 4), 0, "reset cleared the queue addresses");
    assert_eq!(dev.read(0x034, 4), 256);
}

#[test]
fn config_space_and_interrupt_ack() {
    let mut dev = transport();
    assert_eq!(dev.read(0x100, 4), 0x1122_3344);
    assert_eq!(dev.read(0x0fc, 4), 0);
    dev.write(0x100, 4, 0xaabb_ccdd);
    assert_eq!(dev.read(0x100, 4), 0xaabb_ccdd);
    dev.raise_interrupt(0b11);
    assert_eq!(dev.read(0x060, 4), 0b11);
    dev.write(0x064, 4, 0b01);
    assert_eq!(dev.read(0x060, 4), 0b10);
}

#[test]
fn notify_reaches_the_device_after_the_queue_is_ready() {
    let device = Dummy::new(1);
    let notified = device.notified.clone();
    let mut dev = VirtioMmio::new(0, Box::new(device));
    negotiate(&mut dev);
    dev.write(0x050, 4, 0);
    assert!(notified.lock().expect("notified").is_empty());
    configure_queue(&mut dev);
    dev.write(0x050, 4, 0);
    assert_eq!(notified.lock().expect("notified").as_slice(), &[0]);
}

#[test]
fn a_kick_carries_the_rings_and_the_features() {
    let device = Dummy::new(1);
    let kicks = device.kicks.clone();
    let mut dev = VirtioMmio::new(0, Box::new(device));
    negotiate(&mut dev);
    dev.write(0x030, 4, 0);
    dev.write(0x084, 4, 0x9);
    configure_queue(&mut dev);
    dev.write(0x050, 4, 7);
    dev.write(0x050, 4, 0);
    assert_eq!(
        kicks.lock().expect("kicks").as_slice(),
        &[QueueNotify {
            index: 0,
            size: 8,
            desc: 0x9_0000_1000,
            avail: 0x2000,
            used: 0x3000,
            features: VIRTIO_F_VERSION_1 | 1,
        }]
    );
}

#[test]
fn a_ready_queue_is_frozen() {
    let mut dev = transport();
    negotiate(&mut dev);
    dev.write(0x038, 4, 512);
    dev.write(0x038, 4, 3);
    dev.write(0x044, 4, 1);
    assert_eq!(dev.read(0x044, 4), 0, "neither size was taken");
    configure_queue(&mut dev);
    dev.write(0x038, 4, 0);
    dev.write(0x080, 4, 0);
    dev.write(0x044, 4, 0);
    assert_eq!(dev.read(0x044, 4), 1);
    // A queue that does not exist.
    dev.write(0x030, 4, 1);
    assert_eq!(dev.read(0x034, 4), 0);
    dev.write(0x044, 4, 1);
    assert_eq!(dev.read(0x044, 4), 0);
}

#[test]
fn registers_are_four_bytes_wide() {
    let mut dev = transport();
    assert_eq!(dev.read(0x000, 2), 0);
    dev.write(0x070, 1, 1);
    assert_eq!(dev.read(0x070, 4), 0);
    assert_eq!(dev.read(0x100, 2), 0x3344);
    assert_eq!(dev.read(0x102, 1), 0x22);
}

fn window() -> SlotWindow {
    SlotWindow {
        base: 0x0a00_0000,
        slots: 32,
        slot_size: 0x200,
    }
}

#[test]
fn bus_read_of_slot_zero_returns_magic() {
    let window = window();
    let (base, mut dev) = VirtioMmio::register(&window, 0, Box::new(Dummy::new(0))).expect("register");
    assert_eq!(base, window.base);
    assert_eq!(dev.name(), "virtio-mmio-0");
    assert_eq!(dev.read(window.base - base, 4), 0x7472_6976);
    let err = match VirtioMmio::register(&window, 32, Box::new(Dummy::new(0))) {
        Ok(_) => panic!("slot 32"),
        Err(err) => err,
    };
    assert!(err.message().contains("slot 32"));
}

#[test]
fn slots_follow_each_other() {
    assert_eq!(slot_base(&window(), 0), Some(0x0a00_0000));
    assert_eq!(slot_base(&window(), 31), Some(0x0a00_3e00));
    assert_eq!(slot_base(&window(), 32), None);
    let error = VirtioMmioError::Bus {
        slot: 12,
        base: 0x0a00_1800,
        source: "taken".to_string(),
    };
    assert_eq!(
        error.message(),
        "register virtio-mmio slot 12 at 0xa001800: taken"
    );
    let error = VirtioMmioError::Slot { slot: 40, slots: 32 };
    assert_eq!(error.message(), "virtio-mmio slot 40 is outside 0..32");
}

#[test]
fn the_line_follows_the_status_bits() {
    let mut irq = VirtioIrq::new();
    irq.raise(4);
    assert_eq!(irq.status(), 0);
    irq.raise(1);
    irq.raise(2);
    assert_eq!(irq.status(), 3);
    irq.ack(1);
    assert_eq!(irq.status(), 2);
    irq.ack(7);
    assert_eq!(irq.status(), 0);
    assert_eq!(irq.take_edges(), vec![true, false]);
    irq.raise(2);
    assert_eq!(irq.take_edges(), vec![true]);
    let mut dev = VirtioMmio::with_irq(3, Box::new(FixedDevice::new(4, 2)), irq);
    assert_eq!(dev.name(), "virtio-mmio-3");
    assert_eq!(dev.read(0x060, 4), 2);
    write_status(&mut dev, 0);
    assert_eq!(dev.read(0x060, 4), 0);
    assert_eq!(dev.take_edges(), vec![false]);
}

#[test]
fn a_fixed_device_answers_identity_and_queue_sizes() {
    let mut dev = VirtioMmio::new(9, Box::new(FixedDevice::new(16, 2)));
    assert_eq!(dev.read(0x008, 4), 16);
    assert_eq!(dev.read(0x00c, 4), 0x554d_4551);
    assert_eq!(dev.read(0x010, 4), 0);
    assert_eq!(dev.read(0x100, 4), 0);
    dev.write(0x030, 4, 1);
    assert_eq!(dev.read(0x034, 4), 256);
    dev.write(0x030, 4, 2);
    assert_eq!(dev.read(0x034, 4), 0);
    assert_eq!(VIRTIO_F_VERSION_1, 1 << 32);
    assert_eq!(VIRTIO_F_INDIRECT_DESC, 1 << 28);
    assert_eq!(VIRTIO_F_EVENT_IDX, 1 << 29);
}

#[test]
fn features_in_force_were_offered() {
    let device = Dummy::new(1);
    let kicks = Arc::clone(&device.kicks);
    let mut dev = VirtioMmio::new(0, Box::new(device));
    let mut seed = 7u32;
    let mut checked = 0;
    for _ in 0..4000 {
        seed = seed.wrapping_mul(1_664_525).wrapping_add(1_013_904_223);
        let pick = seed >> 16;
        match pick % 8 {
            0 => dev.write(0x024, 4, u64::from(pick >> 3 & 1)),
            1 | 2 => dev.write(0x020, 4, u64::from(pick >> 3 & 3)),
            3 if pick % 5 == 0 => write_status(&mut dev, 0),
            4 => write_status(&mut dev, STATUS_ACKNOWLEDGE),
            5 => write_status(&mut dev, 3),
            6 => write_status(&mut dev, 11 | (pick >> 3 & 1) << 7),
            7 => write_status(&mut dev, 15),
            _ => {}
        }
        let status = dev.read(0x070, 4) as u32;
        assert!([0, 1, 3, 11, 15].contains(&(status & !STATUS_FAILED)));
        if status & STATUS_FEATURES_OK != 0 {
            configure_queue(&mut dev);
            dev.write(0x050, 4, 0);
            let kick = kicks.lock().expect("kicks").pop().expect("kick");
            assert_eq!(kick.features & !(1 | VIRTIO_F_VERSION_1), 0);
            assert_ne!(kick.features & VIRTIO_F_VERSION_1, 0);
            checked += 1;
        }
    }
    assert!(checked > 0);
}
