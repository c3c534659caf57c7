//! virtio-blk against an image in memory and fake guest memory.

use ternvale::memory::GuestMemory;
use ternvale::virtio::blk::backend::{FileBackend, TransferError};
use ternvale::virtio::blk::request::{complete, process, Begin, BlkIo, IoReply};
use ternvale::virtio::blk::worker::Action;
use ternvale::virtio::blk::{
    BlkStats, VirtioBlk, VirtioBlkError, SECTOR, VIRTIO_BLK_F_FLUSH, VIRTIO_BLK_F_RO, VIRTIO_BLK_ID,
    VIRTIO_BLK_S_IOERR, VIRTIO_BLK_S_OK, VIRTIO_BLK_S_UNSUPP, VIRTIO_BLK_T_FLUSH,
    VIRTIO_BLK_T_GET_ID, VIRTIO_BLK_T_IN, VIRTIO_BLK_T_OUT,
};
use ternvale::virtio::irq::VirtioIrq;
use ternvale::virtio::queue::{Buffer, Chain};
use ternvale::virtio::{QueueNotify, VirtioDevice};

const NEXT: u16 = 1;
const WRITE: u16 = 2;
const HOST_PAGE_SIZE: u64 = 0x4000;

/// A file that gives and takes a few bytes at a time.
struct Image {
    bytes: Vec<u8>,
    step: usize,
    fails: bool,
}

impl Image {
    fn pread(&self, at: u64, len: usize) -> Vec<u8> {
        let at = at as usize;
        if at >= self.bytes.len() {
            return Vec::new();
        }
        let n = len.min(self.step).min(self.bytes.len() - at);
        self.bytes[at..at + n].to_vec()
    }

    fn pwrite(&mut self, at: u64, data: &[u8]) -> usize {
        let n = data.len().min(self.step);
        let at = at as usize;
        self.bytes[at..at + n].copy_from_slice(&data[..n]);
        n
    }

    fn run(&mut self, backend: &FileBackend, io: BlkIo) -> IoReply {
        if self.fails {
            return IoReply::Failed;
        }
        match io {
            BlkIo::Read { offset, len } => {
                let mut read = backend.read_at(len as usize, offset).expect("in range");
                while let Some((at, want)) = read.next() {
                    let chunk = self.pread(at, want);
                    read.feed(&chunk);
                }
                IoReply::Done {
                    data: read.into_bytes(),
                }
            }
            BlkIo::Write { offset, data } => {
                let mut write = backend.write_at(data, offset).expect("in range");
                loop {
                    let n = match write.next() {
                        Some((at, rest)) => self.pwrite(at, rest),
                        None => break,
                    };
                    write.wrote(n).expect("progress");
                }
                IoReply::Done { data: Vec::new() }
            }
            BlkIo::Flush => IoReply::Done { data: Vec::new() },
        }
    }
}

struct Fixture {
    memory: GuestMemory,
    image: Image,
    irq: VirtioIrq,
    base: u64,
}

impl Fixture {
    fn new(bytes: u64, read_only: bool) -> (Self, VirtioBlk) {
        let mut memory = GuestMemory::new();
        let base = 0x4000_0000u64;
        memory.add_region(base, HOST_PAGE_SIZE * 2).expect("region");
        let image = Image {
            bytes: vec![0; bytes as usize],
            step: 100,
            fails: false,
        };
        let blk = VirtioBlk::new(bytes, read_only, Some("disk.img"));
        (
            Self {
                memory,
                image,
                irq: VirtioIrq::new(),
                base,
            },
            blk,
        )
    }

    fn desc(&self, index: u16) -> u64 {
        self.base + u64::from(index) * 16
    }

    fn avail(&self) -> u64 {
        self.base + 0x400
    }

    fn used(&self) -> u64 {
        self.base + 0x800
    }

    fn data(&self) -> u64 {
        self.base + 0x1000
    }

    fn write_desc(&mut self, index: u16, addr: u64, len: u32, flags: u16, next: u16) {
        let at = self.desc(index);
        self.memory.write_u64(at, addr).expect("addr");
        self.memory.write_u32(at + 8, len).expect("len");
        self.memory.write_u16(at + 12, flags).expect("flags");
        self.memory.write_u16(at + 14, next).expect("next");
    }

    fn publish(&mut self, head: u16) {
        let avail = self.avail();
        self.memory.write_u16(avail + 4, head).expect("ring");
        self.memory.write_u16(avail + 2, 1).expect("idx");
    }

    fn notify(&mut self, blk: &mut VirtioBlk) {
        blk.notify(QueueNotify {
            index: 0,
            size: 4,
            desc: self.base,
            avail: self.avail(),
            used: self.used(),
            features: 0,
        });
        self.work(blk);
    }

    /// The I/O side, until it has nothing left to do.
    fn work(&mut self, blk: &mut VirtioBlk) {
        loop {
            match blk.step(&mut self.memory) {
                Action::Idle => return,
                Action::Again => {}
                Action::Raise(bits) => self.irq.raise(bits),
                Action::Io(io) => {
                    let reply = self.image.run(blk.backend(), io);
                    blk.finish(&mut self.memory, reply);
                }
            }
        }
    }

    fn used_idx(&self) -> u16 {
        self.memory.read_u16(self.used() + 2).expect("idx")
    }

    fn status(&self) -> u8 {
        self.memory.read_u8(self.data() + 512).expect("status")
    }
}

fn write_header(mem: &mut GuestMemory, addr: u64, ty: u32, sector: u64) {
    mem.write_u32(addr, ty).expect("type");
    mem.write_u32(addr + 4, 0).expect("reserved");
    mem.write_u64(addr + 8, sector).expect("sector");
}

#[test]
fn config_reports_capacity_and_flush() {
    let (fx, mut blk) = Fixture::new(SECTOR * 8, false);
    assert_eq!(blk.read_config(0, 8), 8);
    assert_eq!(
        blk.device_features() & VIRTIO_BLK_F_FLUSH,
        VIRTIO_BLK_F_FLUSH
    );
    assert_eq!(blk.device_features() & VIRTIO_BLK_F_RO, 0);
    drop(fx);
}

#[test]
fn read_write_round_trip() {
    let (mut fx, mut blk) = Fixture::new(SECTOR * 8, false);
    let hdr = fx.base + 0xc00;
    let data = fx.data();
    write_header(&mut fx.memory, hdr, VIRTIO_BLK_T_OUT, 1);
    fx.memory.write_bytes(data, &[0xab; 512]).expect("payload");
    fx.memory.write_u8(data + 512, 0xff).expect("status");
    fx.write_desc(0, hdr, 16, NEXT, 1);
    fx.write_desc(1, data, 512, NEXT, 2);
    fx.write_desc(2, data + 512, 1, WRITE, 0);
    fx.publish(0);
    fx.notify(&mut blk);
    assert_eq!(fx.used_idx(), 1);
    assert_eq!(fx.status(), VIRTIO_BLK_S_OK);
    assert_eq!(fx.irq.take_edges(), vec![true]);
    assert_eq!(blk.stats().snapshot().0, 1);
    assert!(fx.image.bytes[512..1024].iter().all(|&b| b == 0xab));
    assert!(fx.image.bytes[1024..].iter().all(|&b| b == 0));

    // Reset used idx for a second request by rewriting avail.
    let used = fx.used();
    fx.memory.write_u16(used + 2, 0).expect("clear used");
    write_header(&mut fx.memory, hdr, VIRTIO_BLK_T_IN, 1);
    fx.memory.write_bytes(data, &[0; 512]).expect("clear");
    fx.memory.write_u8(data + 512, 0xff).expect("status");
    // Rebuild queue state via reset then new notify with fresh avail idx.
    blk.status_changed(0);
    fx.work(&mut blk);
    let avail = fx.avail();
    fx.memory.write_u16(avail + 2, 0).expect("reset avail");
    fx.memory.write_u16(avail + 2, 1).expect("publish");
    fx.write_desc(0, hdr, 16, NEXT, 1);
    fx.write_desc(1, data, 512, WRITE | NEXT, 2);
    fx.write_desc(2, data + 512, 1, WRITE, 0);
    fx.notify(&mut blk);
    assert_eq!(fx.used_idx(), 1);
    assert_eq!(fx.status(), VIRTIO_BLK_S_OK);
    let buf = fx.memory.read_bytes(data, 512).expect("read back");
    assert!(buf.iter().all(|&b| b == 0xab));
    assert_eq!(fx.memory.read_u32(used + 8).expect("len"), 513);
    assert_eq!(blk.stats().snapshot(), (2, 1024, 0));
}

#[test]
fn out_of_range_sector_returns_ioerr() {
    let (mut fx, mut blk) = Fixture::new(SECTOR * 4, false);
    let hdr = fx.base + 0xc00;
    let data = fx.data();
    write_header(&mut fx.memory, hdr, VIRTIO_BLK_T_IN, 100);
    fx.memory.write_u8(data + 512, 0xff).expect("status");
    fx.write_desc(0, hdr, 16, NEXT, 1);
    fx.write_desc(1, data, 512, WRITE | NEXT, 2);
    fx.write_desc(2, data + 512, 1, WRITE, 0);
    fx.publish(0);
    fx.notify(&mut blk);
    assert_eq!(fx.used_idx(), 1);
    assert_eq!(fx.status(), VIRTIO_BLK_S_IOERR);
    assert_eq!(blk.stats().snapshot().2, 1);
}

#[test]
fn read_only_rejects_writes() {
    let (mut fx, mut blk) = Fixture::new(SECTOR * 4, true);
    assert_ne!(blk.device_features() & VIRTIO_BLK_F_RO, 0);
    let hdr = fx.base + 0xc00;
    let data = fx.data();
    write_header(&mut fx.memory, hdr, VIRTIO_BLK_T_OUT, 0);
    fx.memory.write_bytes(data, &[1; 512]).expect("payload");
    fx.memory.write_u8(data + 512, 0xff).expect("status");
    fx.write_desc(0, hdr, 16, NEXT, 1);
    fx.write_desc(1, data, 512, NEXT, 2);
    fx.write_desc(2, data + 512, 1, WRITE, 0);
    fx.publish(0);
    fx.notify(&mut blk);
    assert_eq!(fx.used_idx(), 1);
    assert_eq!(fx.status(), VIRTIO_BLK_S_IOERR);
    assert!(fx.image.bytes.iter().all(|&b| b == 0));
}

#[test]
fn flush_succeeds() {
    let (mut fx, mut blk) = Fixture::new(SECTOR * 4, false);
    let hdr = fx.base + 0xc00;
    let status = fx.data();
    write_header(&mut fx.memory, hdr, VIRTIO_BLK_T_FLUSH, 0);
    fx.memory.write_u8(status, 0xff).expect("status");
    fx.write_desc(0, hdr, 16, NEXT, 1);
    fx.write_desc(1, status, 1, WRITE, 0);
    fx.publish(0);
    fx.notify(&mut blk);
    assert_eq!(fx.used_idx(), 1);
    assert_eq!(fx.memory.read_u8(status).expect("st"), VIRTIO_BLK_S_OK);
}

#[test]
fn backend_pread_pwrite_round_trip() {
    let be = FileBackend::new(SECTOR * 2, false);
    let mut image = Image {
        bytes: vec![0; 1024],
        step: 200,
        fails: false,
    };
    let wrote = image.run(
        &be,
        BlkIo::Write {
            offset: SECTOR,
            data: vec![0xcd; 512],
        },
    );
    assert!(matches!(wrote, IoReply::Done { .. }));
    match image.run(
        &be,
        BlkIo::Read {
            offset: SECTOR,
            len: 512,
        },
    ) {
        IoReply::Done { data } => {
            assert_eq!(data.len(), 512);
            assert!(data.iter().all(|&b| b == 0xcd));
        }
        IoReply::Failed => panic!("read"),
    }
    assert!(matches!(image.run(&be, BlkIo::Flush), IoReply::Done { .. }));
}

#[test]
fn a_file_shorter_than_the_read_ends_in_zeros() {
    let be = FileBackend::new(SECTOR * 2 + 100, false);
    assert_eq!(be.capacity(), 2);
    assert!(!be.read_only());
    let mut read = be.read_at(8, 1016).expect("read");
    assert_eq!(read.next(), Some((1016, 8)));
    read.feed(&[1, 2, 3]);
    assert_eq!(read.next(), Some((1019, 5)));
    read.feed(&[]);
    assert_eq!(read.next(), None);
    assert_eq!(read.into_bytes(), vec![1, 2, 3, 0, 0, 0, 0, 0]);
}

#[test]
fn transfers_past_the_end_are_refused() {
    let be = FileBackend::new(SECTOR * 2, false);
    assert!(matches!(be.read_at(1, 1024), Err(TransferError::ReadPastEnd)));
    assert!(matches!(be.read_at(2, u64::MAX), Err(TransferError::ReadPastEnd)));
    assert!(matches!(
        be.write_at(vec![1, 2], 1023),
        Err(TransferError::WritePastEnd)
    ));
    let ro = FileBackend::new(SECTOR, true);
    assert!(ro.read_only());
    assert!(matches!(ro.write_at(vec![1], 0), Err(TransferError::ReadOnly)));
    let mut write = be.write_at(vec![1, 2, 3], 5).expect("write");
    assert_eq!(write.next(), Some((5, &[1u8, 2, 3][..])));
    assert_eq!(write.wrote(2), Ok(()));
    assert_eq!(write.next(), Some((7, &[3u8][..])));
    assert_eq!(write.wrote(0), Err(TransferError::ShortWrite));
    assert_eq!(write.wrote(1), Ok(()));
    assert_eq!(write.next(), None);
}

#[test]
fn the_id_is_the_padded_file_name() {
    let (mut fx, mut blk) = Fixture::new(SECTOR * 4, false);
    let hdr = fx.base + 0xc00;
    let data = fx.data();
    write_header(&mut fx.memory, hdr, VIRTIO_BLK_T_GET_ID, 0);
    fx.memory.write_bytes(data, &[0xff; 21]).expect("fill");
    fx.write_desc(0, hdr, 16, NEXT, 1);
    fx.write_desc(1, data, 21, WRITE, 0);
    fx.publish(0);
    fx.notify(&mut blk);
    let mut want = b"disk.img".to_vec();
    want.resize(21, 0);
    assert_eq!(fx.memory.read_bytes(data, 21).expect("id"), want);
    assert_eq!(blk.stats().snapshot(), (1, 20, 0));
    assert_eq!(fx.memory.read_u32(fx.used() + 8).expect("len"), 21);
}

#[test]
fn unknown_and_short_requests_fail() {
    let (mut fx, mut blk) = Fixture::new(SECTOR * 4, false);
    let hdr = fx.base + 0xc00;
    let data = fx.data();
    write_header(&mut fx.memory, hdr, 99, 0);
    fx.write_desc(0, hdr, 16, NEXT, 1);
    fx.write_desc(1, data + 512, 1, WRITE, 0);
    fx.publish(0);
    fx.notify(&mut blk);
    assert_eq!(fx.status(), VIRTIO_BLK_S_UNSUPP);

    let (mut fx, mut blk) = Fixture::new(SECTOR * 4, false);
    fx.write_desc(0, hdr, 15, NEXT, 1);
    fx.write_desc(1, data + 512, 1, WRITE, 0);
    fx.publish(0);
    fx.notify(&mut blk);
    assert_eq!(fx.status(), VIRTIO_BLK_S_IOERR);
    assert_eq!(blk.stats().snapshot(), (1, 0, 1));
    assert_eq!(fx.memory.read_u32(fx.used() + 8).expect("len"), 1);

    // Without a status byte there is nothing to write.
    let (mut fx, mut blk) = Fixture::new(SECTOR * 4, false);
    write_header(&mut fx.memory, hdr, VIRTIO_BLK_T_FLUSH, 0);
    fx.write_desc(0, hdr, 16, 0, 0);
    fx.publish(0);
    fx.notify(&mut blk);
    assert_eq!(fx.used_idx(), 1);
    assert_eq!(fx.memory.read_u32(fx.used() + 8).expect("len"), 0);
    assert_eq!(blk.stats().snapshot(), (1, 0, 1));
}

#[test]
fn a_failed_transfer_is_an_ioerr() {
    let (mut fx, mut blk) = Fixture::new(SECTOR * 4, false);
    fx.image.fails = true;
    let hdr = fx.base + 0xc00;
    let data = fx.data();
    write_header(&mut fx.memory, hdr, VIRTIO_BLK_T_IN, 0);
    fx.write_desc(0, hdr, 16, NEXT, 1);
    fx.write_desc(1, data, 513, WRITE, 0);
    fx.publish(0);
    fx.notify(&mut blk);
    assert_eq!(fx.status(), VIRTIO_BLK_S_IOERR);
    assert_eq!(blk.stats().snapshot(), (1, 0, 1));
}

#[test]
fn payload_may_be_split_over_buffers() {
    let (mut fx, mut blk) = Fixture::new(SECTOR * 4, false);
    let hdr = fx.base + 0xc00;
    let data = fx.data();
    write_header(&mut fx.memory, hdr, VIRTIO_BLK_T_OUT, 2);
    // Header and payload share a buffer.
    fx.memory.write_bytes(hdr + 16, &[7; 300]).expect("front");
    fx.memory.write_bytes(data, &[8; 212]).expect("back");
    fx.write_desc(0, hdr, 316, NEXT, 1);
    fx.write_desc(1, data, 212, NEXT, 2);
    fx.write_desc(2, data + 512, 1, WRITE, 0);
    fx.publish(0);
    fx.notify(&mut blk);
    assert_eq!(fx.status(), VIRTIO_BLK_S_OK);
    assert!(fx.image.bytes[1024..1324].iter().all(|&b| b == 7));
    assert!(fx.image.bytes[1324..1536].iter().all(|&b| b == 8));
    assert_eq!(blk.stats().snapshot(), (1, 512, 0));
}

#[test]
fn identity_and_config_space() {
    let mut blk = VirtioBlk::new(SECTOR * 0x0102, true, None);
    assert_eq!(blk.device_id(), VIRTIO_BLK_ID);
    assert_eq!(blk.num_queues(), 1);
    assert_eq!(blk.queue_num_max(0), 256);
    assert_eq!(blk.vendor_id(), 0x554d_4551);
    assert_eq!(blk.config_generation(), 0);
    assert_eq!(blk.read_config(0, 1), 0x02);
    assert_eq!(blk.read_config(1, 1), 0x01);
    assert_eq!(blk.read_config(1, 8), 0x01);
    assert_eq!(blk.read_config(8, 4), 0);
    assert_eq!(blk.read_config(u64::MAX, 4), 0);
    blk.write_config(0, 8, 0);
    assert_eq!(blk.read_config(0, 8), 0x0102);
    assert_eq!(
        blk.device_features(),
        VIRTIO_BLK_F_FLUSH | VIRTIO_BLK_F_RO
    );
    let error = VirtioBlkError::Open {
        path: "/disk".to_string(),
        source: "gone".to_string(),
    };
    assert_eq!(error.message(), "open virtio-blk image /disk: gone");
}

#[test]
fn interrupts_follow_what_the_driver_asked() {
    let (mut fx, mut blk) = Fixture::new(SECTOR * 4, false);
    let hdr = fx.base + 0xc00;
    let status = fx.data() + 512;
    write_header(&mut fx.memory, hdr, VIRTIO_BLK_T_FLUSH, 0);
    fx.write_desc(0, hdr, 16, NEXT, 1);
    fx.write_desc(1, status, 1, WRITE, 0);
    // A kick without a chain raises nothing.
    fx.notify(&mut blk);
    assert_eq!(fx.irq.take_edges(), Vec::<bool>::new());
    // The driver does not want to hear of it.
    let avail = fx.avail();
    fx.memory.write_u16(avail, 1).expect("flags");
    fx.publish(0);
    fx.notify(&mut blk);
    assert_eq!(fx.used_idx(), 1);
    assert_eq!(fx.irq.take_edges(), Vec::<bool>::new());
    // The queue goes on where it was: the next chain is the second one.
    fx.memory.write_u16(avail, 0).expect("flags");
    fx.memory.write_u16(avail + 6, 0).expect("ring");
    fx.memory.write_u16(avail + 2, 2).expect("idx");
    fx.notify(&mut blk);
    assert_eq!(fx.used_idx(), 2);
    assert_eq!(fx.irq.take_edges(), vec![true]);
    assert_eq!(blk.stats().snapshot(), (2, 0, 0));
}

#[test]
fn a_short_id_request_counts_what_it_touched() {
    let (mut fx, _) = Fixture::new(SECTOR * 4, false);
    let mut blk = VirtioBlk::new(SECTOR * 4, false, Some("disk.img-0123456789a"));
    let hdr = fx.base + 0xc00;
    let data = fx.data();
    write_header(&mut fx.memory, hdr, VIRTIO_BLK_T_GET_ID, 0);
    fx.memory.write_bytes(data, &[0xff; 8]).expect("fill");
    fx.write_desc(0, hdr, 16, NEXT, 1);
    fx.write_desc(1, data, 6, WRITE, 0);
    fx.publish(0);
    fx.notify(&mut blk);
    assert_eq!(
        fx.memory.read_bytes(data, 8).expect("id"),
        b"disk.\x00\xff\xff".to_vec()
    );
    assert_eq!(fx.memory.read_u32(fx.used() + 8).expect("len"), 6);
    assert_eq!(blk.stats().snapshot(), (1, 5, 0));
}

#[test]
fn a_copy_that_stops_counts_what_it_touched() {
    let mut memory = GuestMemory::new();
    memory.add_region(0x1000, 0x100).expect("low");
    memory.add_region(0x2000, 0x100).expect("high");
    write_header(&mut memory, 0x1000, VIRTIO_BLK_T_IN, 0);
    let chain = Chain {
        head: 0,
        readable: vec![Buffer { addr: 0x1000, len: 16 }],
        writable: vec![
            Buffer { addr: 0x1080, len: 8 },
            // Begins and ends in mapped memory, with a hole between.
            Buffer {
                addr: 0x10f0,
                len: 0xf20,
            },
            Buffer { addr: 0x2020, len: 1 },
        ],
    };
    let backend = FileBackend::new(SECTOR * 64, false);
    let mut stats = BlkStats::new();
    let serial = vec![0; 20];
    let pending = match process(&mut memory, &backend, &chain, &serial, &mut stats) {
        Begin::Wants(BlkIo::Read { offset: 0, len }, pending) => {
            assert_eq!(len, 8 + 0xf20);
            pending
        }
        other => panic!("expected a read, got {other:?}"),
    };
    let reply = IoReply::Done {
        data: vec![0x5a; 8 + 0xf20],
    };
    let used = complete(&mut memory, &chain, pending, reply, &mut stats);
    assert_eq!(used, 9);
    assert_eq!(memory.read_bytes(0x1080, 8).expect("data"), vec![0x5a; 8]);
    assert_eq!(memory.read_u8(0x2020).expect("status"), VIRTIO_BLK_S_IOERR);
    assert_eq!(stats.snapshot(), (1, 0, 1));
}

#[test]
fn a_status_byte_of_its_own_leaves_no_empty_buffer() {
    let (mut fx, mut blk) = Fixture::new(SECTOR * 4, false);
    let hdr = fx.base + 0xc00;
    let data = fx.data();
    write_header(&mut fx.memory, hdr, VIRTIO_BLK_T_GET_ID, 0);
    fx.write_desc(0, hdr, 16, NEXT, 1);
    fx.write_desc(1, data, 3, WRITE | NEXT, 2);
    fx.write_desc(2, data + 512, 1, WRITE, 0);
    fx.publish(0);
    fx.notify(&mut blk);
    assert_eq!(fx.memory.read_bytes(data, 3).expect("id"), b"dis".to_vec());
    assert_eq!(fx.status(), VIRTIO_BLK_S_OK);
    assert_eq!(fx.memory.read_u32(fx.used() + 8).expect("len"), 4);
    assert_eq!(blk.fault(), None);
}

#[test]
fn a_kick_answers_every_chain_with_one_interrupt() {
    let (mut fx, mut blk) = Fixture::new(SECTOR * 4, false);
    let hdr = fx.base + 0xc00;
    let status = fx.data();
    write_header(&mut fx.memory, hdr, VIRTIO_BLK_T_FLUSH, 0);
    write_header(&mut fx.memory, hdr + 16, 77, 0);
    fx.memory.write_bytes(status, &[0xff; 2]).expect("status");
    fx.write_desc(0, hdr, 16, NEXT, 1);
    fx.write_desc(1, status, 1, WRITE, 0);
    fx.write_desc(2, hdr + 16, 16, NEXT, 3);
    fx.write_desc(3, status + 1, 1, WRITE, 0);
    let (avail, used) = (fx.avail(), fx.used());
    fx.memory.write_u16(avail + 4, 2).expect("ring");
    fx.memory.write_u16(avail + 6, 0).expect("ring");
    fx.memory.write_u16(avail + 2, 2).expect("idx");
    fx.notify(&mut blk);
    assert_eq!(fx.used_idx(), 2);
    let elements: Vec<u32> = (0..4)
        .map(|i| fx.memory.read_u32(used + 4 + 4 * i).expect("element"))
        .collect();
    assert_eq!(elements, vec![2, 1, 0, 1]);
    assert_eq!(
        fx.memory.read_bytes(status, 2).expect("status"),
        vec![VIRTIO_BLK_S_OK, VIRTIO_BLK_S_UNSUPP]
    );
    assert_eq!(blk.stats().snapshot(), (2, 0, 1));
    assert_eq!(fx.irq.take_edges(), vec![true]);
    // A kick without a new chain does nothing.
    fx.notify(&mut blk);
    assert_eq!(fx.used_idx(), 2);
    assert!(fx.irq.take_edges().is_empty());
    // The next one goes on in the ring.
    fx.memory.write_u16(avail + 8, 0).expect("ring");
    fx.memory.write_u16(avail + 2, 3).expect("idx");
    fx.notify(&mut blk);
    assert_eq!(fx.used_idx(), 3);
    assert_eq!(fx.memory.read_u32(used + 4 + 16).expect("element"), 0);
    assert_eq!(blk.stats().snapshot(), (3, 0, 1));
}
