use std::collections::HashMap;

use tikovm::error::Error;
use tikovm::storage::cache::{flush_groups, FdCache};
use tikovm::storage::manager::{
    self, format_outcome, AttachStep, FormatEnd, MonitorStep, StorageManager,
};
use tikovm::storage::volume::{chunk_kb_allowed, chunk_path, Volume, VolumeMeta};
use tikovm::storage::worker::{
    self, BlockOp, DeviceStep, Handshake, OP_DISCARD, OP_FLUSH, OP_READ, OP_WRITE,
};
use tikovm::vmm::vm::VmId;

/// A volume whose chunk files are held in memory.
struct Disk {
    vol: Volume,
    files: HashMap<u64, Vec<u8>>,
}

fn test_volume(size: u64, chunk: u64) -> Disk {
    let meta = VolumeMeta::create(size, chunk).unwrap();
    Disk { vol: Volume::open("/vol", meta), files: HashMap::new() }
}

impl Disk {
    /// Serves an I/O request the way the worker does: one segment at a time,
    /// opening chunk files as needed. Reads of missing chunks give zeros.
    fn do_io(&mut self, write: bool, off: u64, buf: &mut [u8]) -> Result<usize, Error> {
        let segments = self.vol.do_io(off, buf.len() as u64)?;
        for s in segments {
            let (at, pos, len) = (s.in_off as usize, s.pos as usize, s.len as usize);
            if !write && !self.files.contains_key(&s.idx) {
                buf[pos..pos + len].fill(0);
                continue;
            }
            if !self.vol.chunk_fd(s.idx) {
                self.files.entry(s.idx).or_default();
                self.vol.opened(s.idx);
            }
            let file = self.files.get_mut(&s.idx).unwrap();
            if write {
                if file.len() < at + len {
                    file.resize(at + len, 0);
                }
                file[at..at + len].copy_from_slice(&buf[pos..pos + len]);
                self.vol.wrote(s.idx);
            } else {
                for i in 0..len {
                    buf[pos + i] = file.get(at + i).copied().unwrap_or(0);
                }
            }
        }
        Ok(buf.len())
    }

    fn flush(&mut self) {
        for group in self.vol.flush() {
            for idx in group {
                let mark = self.vol.sync_mark(idx).unwrap();
                self.vol.flushed(idx, mark);
            }
        }
    }
}

#[test]
fn meta_round_trip() {
    let disk = test_volume(1 << 20, 64 << 10);
    assert_eq!(disk.vol.size_bytes(), 1 << 20);
    let reopened = disk.vol.meta.open().unwrap();
    assert_eq!(reopened.chunk_size, 64 << 10);
    assert_eq!(reopened.size_bytes, 1 << 20);
}

#[test]
fn rejects_bad_geometry() {
    assert!(VolumeMeta::create(1 << 20, 3000).is_err()); // not power of two
    assert!(VolumeMeta::create(0, 4096).is_err()); // empty
    assert!(VolumeMeta::create(1000, 4096).is_err()); // not sector multiple
}

#[test]
fn missing_chunks_read_as_zeros() {
    let mut vol = test_volume(1 << 20, 64 << 10);
    let mut buf = vec![0xaa; 8192];
    let n = vol.do_io(false, 128 << 10, &mut buf).unwrap();
    assert_eq!(n, 8192);
    assert!(buf.iter().all(|b| *b == 0));
}

#[test]
fn write_then_read_across_chunk_boundary() {
    let mut vol = test_volume(1 << 20, 64 << 10);
    // Straddle chunks 1 and 2.
    let off = (64 << 10) - 2048;
    let data: Vec<u8> = (0..8192u32).map(|i| (i % 251) as u8).collect();
    let mut wbuf = data.clone();
    vol.do_io(true, off, &mut wbuf).unwrap();
    let mut rbuf = vec![0u8; 8192];
    vol.do_io(false, off, &mut rbuf).unwrap();
    assert_eq!(rbuf, data);
}

#[test]
fn partial_chunk_leaves_zeros() {
    let mut vol = test_volume(1 << 20, 64 << 10);
    // Write 4 KiB at the start of chunk 3, read the whole chunk back.
    let mut wbuf = vec![0x5a; 4096];
    vol.do_io(true, 3 * (64 << 10), &mut wbuf).unwrap();
    let mut rbuf = vec![0u8; 64 << 10];
    vol.do_io(false, 3 * (64 << 10), &mut rbuf).unwrap();
    assert!(rbuf[..4096].iter().all(|b| *b == 0x5a));
    assert!(rbuf[4096..].iter().all(|b| *b == 0));
}

#[test]
fn out_of_range_rejected() {
    let mut vol = test_volume(1 << 20, 64 << 10);
    let mut buf = vec![0u8; 4096];
    assert!(vol.do_io(false, (1 << 20) - 2048, &mut buf).is_err()); // overruns end
    assert!(vol.do_io(false, 100, &mut buf).is_err()); // unaligned
}

#[test]
fn flush_clears_dirty() {
    let mut vol = test_volume(4 << 20, 64 << 10);
    let mut wbuf = vec![1u8; 4096];
    for i in 0..16u64 {
        vol.do_io(true, i * (64 << 10), &mut wbuf).unwrap();
    }
    assert_eq!(vol.vol.dirty.len(), 16);
    vol.flush();
    assert!(vol.vol.dirty.is_empty());
    // Data readable through a fresh Volume (new fd cache).
    let mut vol2 = Disk { vol: Volume::open("/vol", vol.vol.meta), files: vol.files };
    let mut rbuf = vec![0u8; 4096];
    vol2.do_io(false, 5 * (64 << 10), &mut rbuf).unwrap();
    assert!(rbuf.iter().all(|b| *b == 1));
}

#[test]
fn writes_during_a_sync_stay_dirty() {
    let mut disk = test_volume(4 << 20, 64 << 10);
    let mut wbuf = vec![1u8; 4096];
    disk.do_io(true, 0, &mut wbuf).unwrap();
    disk.do_io(true, 64 << 10, &mut wbuf).unwrap();
    let first = disk.vol.sync_mark(0).unwrap();
    let second = disk.vol.sync_mark(1).unwrap();
    assert_eq!(disk.vol.sync_mark(2), None);
    // Chunk 0 is written while both are being synced.
    disk.do_io(true, 0, &mut wbuf).unwrap();
    disk.vol.flushed(0, first);
    disk.vol.flushed(1, second);
    assert!(disk.vol.dirty.contains_key(&0));
    assert!(!disk.vol.dirty.contains_key(&1));
    disk.flush();
    assert!(disk.vol.dirty.is_empty());
}

#[test]
fn dirty_fds_survive_eviction() {
    let meta = VolumeMeta::create(4 << 20, 64 << 10).unwrap();
    // Same volume, but with a tiny fd cache to force eviction.
    let mut vol = Disk { vol: Volume::with_cache("/vol", meta, 8), files: HashMap::new() };
    // Dirty chunk 7, then read enough other chunks to evict everything
    // clean several times over; the dirty fd must stay pinned.
    let mut wbuf = vec![7u8; 4096];
    vol.do_io(true, 7 * (64 << 10), &mut wbuf).unwrap();
    // Pre-create chunk files so reads open real (clean, evictable) fds;
    // reads of missing chunks never touch the cache.
    for i in 0..64u64 {
        vol.files.entry(i).or_default();
    }
    let mut rbuf = vec![0u8; 4096];
    for i in 0..64u64 {
        vol.do_io(false, i * (64 << 10), &mut rbuf).unwrap();
    }
    assert!(vol.vol.fds.map.len() <= 8 + 1); // cap + pinned dirty
    assert!(vol.vol.fds.map.contains_key(&7));
    vol.flush();
    assert!(vol.vol.dirty.is_empty());
    let mut vol2 = Disk { vol: Volume::open("/vol", vol.vol.meta), files: vol.files };
    let mut verify = vec![0u8; 4096];
    vol2.do_io(false, 7 * (64 << 10), &mut verify).unwrap();
    assert!(verify.iter().all(|b| *b == 7));
}

#[test]
fn clean_files_are_closed_oldest_first() {
    let mut cache = FdCache::new(2);
    let dirty = HashMap::new();
    assert!(cache.insert(1, &dirty).is_empty());
    assert!(cache.insert(2, &dirty).is_empty());
    assert!(cache.touch(1));
    assert_eq!(cache.insert(3, &dirty), vec![2]);
    assert!(!cache.touch(2));
    // With everything else dirty the cache grows instead.
    let dirty: HashMap<u64, u64> = [(1, 1), (3, 2)].into_iter().collect();
    assert!(cache.insert(4, &dirty).is_empty());
    assert_eq!(cache.map.len(), 3);
}

#[test]
fn flushes_are_split_into_groups() {
    let items: Vec<u64> = (0..20).collect();
    let groups = flush_groups(&items);
    assert!(groups.len() <= 8);
    let mut all: Vec<u64> = groups.concat();
    all.sort();
    assert_eq!(all, items);
    assert!(flush_groups(&[]).is_empty());
}

#[test]
fn chunk_sizes_and_paths() {
    assert!(chunk_kb_allowed(256) && chunk_kb_allowed(4096));
    assert!(!chunk_kb_allowed(128) && !chunk_kb_allowed(1000));
    assert_ne!(chunk_path("/vol", 1), chunk_path("/vol", 257));
    assert!(chunk_path("/vol", 1).starts_with("/vol/chunks/"));
}

#[test]
fn segments_tile_a_request() {
    let meta = VolumeMeta::create(1 << 20, 64 << 10).unwrap();
    let vol = Volume::open("/vol", meta);
    let segments = vol.do_io((64 << 10) - 512, 1024).unwrap();
    assert_eq!(segments.len(), 2);
    assert_eq!((segments[0].idx, segments[0].in_off, segments[0].len), (0, (64 << 10) - 512, 512));
    assert_eq!((segments[1].idx, segments[1].in_off, segments[1].pos), (1, 0, 512));
    assert!(vol.do_io(u64::MAX - 511, 1024).is_err());
}

// --- workers ----------------------------------------------------------------

#[test]
fn workers_announce_their_device() {
    assert!(matches!(worker::read_handshake("device id: 3\n"), Handshake::Device(3)));
    assert!(matches!(worker::read_handshake("INFO starting\n"), Handshake::Noise));
    assert!(matches!(
        worker::read_handshake(""),
        Handshake::Failed(Error::Storage(m)) if m == "ublk-worker exited before handshake"
    ));
    match worker::read_handshake("device id: x\n") {
        Handshake::Failed(Error::Storage(m)) => {
            assert!(m.starts_with("bad ublk-worker handshake \"device id: x\\n\": "), "{m}")
        }
        _ => panic!("accepted"),
    }
    assert_eq!(worker::device_path(3), "/dev/ublkb3");
    assert_eq!(
        worker::handshake_timed_out().message(),
        "storage error: ublk-worker handshake timed out"
    );
}

#[test]
fn devices_are_waited_for() {
    assert!(matches!(worker::on_device("/dev/ublkb3", true, false), DeviceStep::Ready));
    assert!(matches!(worker::on_device("/dev/ublkb3", true, true), DeviceStep::Ready));
    assert!(matches!(worker::on_device("/dev/ublkb3", false, false), DeviceStep::Poll));
    assert!(matches!(
        worker::on_device("/dev/ublkb3", false, true),
        DeviceStep::Failed(Error::Storage(m))
            if m == "/dev/ublkb3 did not appear after ublk-worker handshake"
    ));
}

#[test]
fn formatting_is_reported() {
    let done = FormatEnd::Exited { success: true, status: "exit status: 0".to_string() };
    assert!(format_outcome("/dev/ublkb3", done).is_ok());
    let failed = FormatEnd::Exited { success: false, status: "exit status: 1".to_string() };
    assert_eq!(
        format_outcome("/dev/ublkb3", failed).unwrap_err().message(),
        "storage error: mkfs.ext4 /dev/ublkb3 failed: exit status: 1"
    );
    assert_eq!(
        format_outcome("/dev/ublkb3", FormatEnd::TimedOut).unwrap_err().message(),
        "storage error: mkfs.ext4 /dev/ublkb3 timed out"
    );
    assert_eq!(
        format_outcome("/dev/ublkb3", FormatEnd::NotRun("none".to_string()))
            .unwrap_err()
            .message(),
        "storage error: spawn mkfs.ext4: none"
    );
}

#[test]
fn requests_decode_to_byte_ranges() {
    let read = BlockOp::Transfer { write: false, off: 4096, bytes: 1024 };
    assert_eq!(worker::decode_request(OP_READ, 8, 2), read);
    assert_eq!(
        worker::decode_request(OP_WRITE | 0x100, 0, 1),
        BlockOp::Transfer { write: true, off: 0, bytes: 512 }
    );
    assert_eq!(worker::decode_request(OP_FLUSH, 0, 0), BlockOp::Flush);
    assert_eq!(worker::decode_request(OP_DISCARD, 0, 8), BlockOp::Discard);
    assert_eq!(worker::decode_request(9, 0, 8), BlockOp::Unsupported);
    assert_eq!(worker::request_result(read, true), 1024);
    assert_eq!(worker::request_result(read, false), -5);
    assert_eq!(worker::request_result(BlockOp::Flush, true), 0);
    assert_eq!(worker::request_result(BlockOp::Flush, false), -5);
    assert_eq!(worker::request_result(BlockOp::Discard, true), 0);
    assert_eq!(worker::request_result(BlockOp::Unsupported, true), -95);
}

#[test]
fn new_volumes_need_a_size() {
    assert!(worker::new_volume_geometry(None, None).is_err());
    let (size, chunk) = worker::new_volume_geometry(Some(128), None).unwrap();
    assert_eq!((size, chunk), (128 << 20, 1024 << 10));
    assert!(worker::spawn_args("/vol", None, None, false, -1, 8, 64).is_err());
    let args = worker::spawn_args("/vol", Some(128), Some(512), false, -1, 8, 64).unwrap();
    assert_eq!(
        args.join(" "),
        "ublk-worker --dir /vol -n -1 --queues 8 --depth 64 --size-mb 128 --chunk-kb 512"
    );
    let args = worker::spawn_args("/vol", None, None, true, 4, 8, 64).unwrap();
    assert!(args.contains(&"--recover".to_string()));
}

#[test]
fn volumes_attach_and_detach() {
    let mut mgr = StorageManager::new("/data");
    let id = VmId::from("vm-7-aaaaaa");
    let e = mgr.attach(&id, 7, 128, None, false).unwrap_err();
    assert_eq!(
        e.message(),
        "storage error: storage root /data is not a directory (S3 Files not mounted?)"
    );
    let (dir, args) = mgr.attach(&id, 7, 128, None, true).unwrap();
    assert_eq!(dir, "/data/proj-7/vm-7-aaaaaa");
    assert_eq!(args[0], "ublk-worker");
    assert!(matches!(mgr.attached(&id, 0, dir, Some(Ok(())), Some(42)), AttachStep::Attached));
    assert_eq!(mgr.workers.len(), 1);
    assert_eq!(mgr.detach(&id).unwrap().pid, 42);
    assert!(mgr.detach(&id).is_none());
    assert!(matches!(
        mgr.attached(&id, 0, "/d".to_string(), None, None),
        AttachStep::Failed(Error::Storage(m)) if m == "ublk worker exited during attach"
    ));
    let bad = Err(Error::Storage("mkfs".to_string()));
    assert!(matches!(
        mgr.attached(&id, 0, "/d".to_string(), Some(bad), Some(1)),
        AttachStep::Undo(Error::Storage(_))
    ));
}

#[test]
fn dead_workers_are_respawned_a_few_times() {
    let mut mgr = StorageManager::new("/data");
    let id = VmId::from("vm-7-aaaaaa");
    assert!(matches!(mgr.on_worker_exit(&id), MonitorStep::Done));
    mgr.attached(&id, 5, "/d".to_string(), None, Some(1));
    let mut respawns = 0;
    while let MonitorStep::Respawn { delay_secs, dev_id, args } = mgr.on_worker_exit(&id) {
        assert_eq!(delay_secs, 1 << respawns);
        assert_eq!(dev_id, 5);
        assert_eq!(
            args.join(" "),
            "ublk-worker --dir /d -n 5 --queues 8 --depth 64 --recover"
        );
        assert!(mgr.on_respawned(&id, Some(100 + respawns)));
        respawns += 1;
    }
    assert_eq!(respawns, 3);
    assert!(matches!(mgr.on_worker_exit(&id), MonitorStep::GiveUp));
}

#[test]
fn stale_volumes_are_those_of_projects() {
    let names = vec!["proj-7".to_string(), "lost+found".to_string(), "proj-12".to_string()];
    assert_eq!(
        manager::stale_volumes(&names),
        vec!["proj-7".to_string(), "proj-12".to_string()]
    );
    assert_eq!(manager::mkfs_ext4("/dev/ublkb0")[0], "mkfs.ext4");
}
