//! End-to-end scenarios: the cache and the driver run against a simulated
//! controller, a vector of sectors that obeys the register programs the
//! driver hands out.

use diskfs::buf::{B_DIRTY, B_VALID};
use diskfs::cache::{BufCache, ReadStep};
use diskfs::ide::{Ide, IdeCommand, IDE_CMD_READ, IDE_CMD_WRITE};

fn sector_of(cmd: &IdeCommand) -> usize {
    (cmd.lba_low as usize)
        | ((cmd.lba_mid as usize) << 8)
        | ((cmd.lba_high as usize) << 16)
        | (((cmd.drive & 0x0F) as usize) << 24)
}

/// Plays the controller: applies one command to the disk, then reports
/// the completion interrupt, handing read data back in. Returns the
/// buffers the driver finished, installing each into the cache.
fn run_controller(disk: &mut Vec<Vec<u8>>, cache: &mut BufCache, ide: &mut Ide, first: IdeCommand) {
    let mut cmd = first;
    loop {
        let sector = sector_of(&cmd);
        let data_in = match cmd.command {
            IDE_CMD_WRITE => {
                disk[sector] = cmd.write_data.clone().unwrap();
                None
            },
            IDE_CMD_READ => Some(disk[sector].clone()),
            _ => panic!("unexpected command code"),
        };
        assert_eq!(ide.needs_data_in(), data_in.is_some());
        let (done, next) = ide.on_completion(true, data_in);
        cache.install(done);
        match next {
            Some(n) => cmd = n,
            None => break,
        }
    }
}

fn fresh_disk() -> Vec<Vec<u8>> {
    let mut disk = Vec::new();
    for _ in 0..1000 {
        disk.push(vec![0u8; 512]);
    }
    disk
}

#[test]
fn write_then_read_returns_written_payload() {
    let mut disk = fresh_disk();
    let mut cache = BufCache::new(10);
    let mut ide = Ide::new();

    let cmd = cache
        .buf_write(&mut ide, 0, 24, vec![0xAB; 512])
        .unwrap()
        .expect("idle device starts at once");
    run_controller(&mut disk, &mut cache, &mut ide, cmd);
    assert_eq!(disk[24], vec![0xAB; 512]);

    let slot = match cache.buf_read(&mut ide, 0, 24).unwrap() {
        ReadStep::Ready(slot) => slot,
        _ => panic!("block must be valid after its write completed"),
    };
    let b = &cache.bufs[slot];
    assert_eq!(b.data, vec![0xAB; 512]);
    assert_ne!(b.flags & B_VALID, 0);
    assert_eq!(b.flags & B_DIRTY, 0);
}

#[test]
fn read_miss_loads_block_from_disk() {
    let mut disk = fresh_disk();
    disk[5] = vec![0x5A; 512];
    let mut cache = BufCache::new(10);
    let mut ide = Ide::new();

    let cmd = match cache.buf_read(&mut ide, 0, 5).unwrap() {
        ReadStep::Start(cmd) => cmd,
        _ => panic!("a miss on an idle device starts a transfer"),
    };
    assert_eq!(cmd.command, IDE_CMD_READ);
    run_controller(&mut disk, &mut cache, &mut ide, cmd);

    let slot = match cache.buf_read(&mut ide, 0, 5).unwrap() {
        ReadStep::Ready(slot) => slot,
        _ => panic!("block must be valid after the transfer"),
    };
    assert_eq!(cache.bufs[slot].data, vec![0x5A; 512]);
    // the second read was a pure cache hit: nothing is in flight
    assert!(!ide.busy);
    assert_eq!(ide.queue.len(), 0);
}

#[test]
fn reads_queued_behind_a_busy_device_all_complete() {
    let mut disk = fresh_disk();
    disk[8] = vec![8u8; 512];
    disk[9] = vec![9u8; 512];
    let mut cache = BufCache::new(10);
    let mut ide = Ide::new();

    let cmd = match cache.buf_read(&mut ide, 0, 8).unwrap() {
        ReadStep::Start(cmd) => cmd,
        _ => panic!("first miss starts a transfer"),
    };
    // the device is busy: the second miss only queues up
    assert!(matches!(cache.buf_read(&mut ide, 0, 9), Ok(ReadStep::Queued)));
    assert_eq!(ide.queue.len(), 2);

    run_controller(&mut disk, &mut cache, &mut ide, cmd);

    for (blockno, fill) in [(8usize, 8u8), (9, 9)] {
        let slot = match cache.buf_read(&mut ide, 0, blockno).unwrap() {
            ReadStep::Ready(slot) => slot,
            _ => panic!("block must be valid after its transfer"),
        };
        assert_eq!(cache.bufs[slot].data, vec![fill; 512]);
    }
}

#[test]
fn written_image_blocks_survive_cache_eviction() {
    let mut disk = fresh_disk();
    let mut cache = BufCache::new(2);
    let mut ide = Ide::new();

    for blockno in 0..4usize {
        let payload = vec![blockno as u8 + 1; 512];
        let cmd = cache.buf_write(&mut ide, 0, blockno, payload).unwrap().unwrap();
        run_controller(&mut disk, &mut cache, &mut ide, cmd);
    }
    // the cache can hold two blocks, yet every write reached the disk
    for blockno in 0..4usize {
        assert_eq!(disk[blockno], vec![blockno as u8 + 1; 512]);
    }
}
