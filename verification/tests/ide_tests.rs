use diskfs::buf::{Buf, B_DIRTY, B_VALID};
use diskfs::ide::{
    check_status, probe_disk1, status_ready, Ide, IdeError, IDE_BSY, IDE_CMD_READ, IDE_CMD_WRITE,
    IDE_DF, IDE_DRDY, IDE_ERR,
};

#[test]
fn status_ready_needs_drdy_without_bsy() {
    assert!(status_ready(IDE_DRDY));
    assert!(!status_ready(IDE_BSY | IDE_DRDY));
    assert!(!status_ready(0));
    assert!(status_ready(IDE_DRDY | 0x01));
}

#[test]
fn check_status_reports_device_error() {
    assert_eq!(check_status(IDE_DRDY | IDE_DF, true), Err(IdeError::DeviceError));
    assert_eq!(check_status(IDE_DRDY | IDE_ERR, true), Err(IdeError::DeviceError));
    assert_eq!(check_status(IDE_DRDY | IDE_DF, false), Ok(()));
    assert_eq!(check_status(IDE_DRDY, true), Ok(()));
}

#[test]
fn probe_detects_second_disk_on_any_nonzero_status() {
    assert!(!probe_disk1(&vec![]));
    assert!(!probe_disk1(&vec![0; 1000]));
    let mut statuses = vec![0u8; 1000];
    statuses[700] = IDE_DRDY;
    assert!(probe_disk1(&statuses));
}

#[test]
fn request_of_clean_valid_buffer_is_noop() {
    let mut ide = Ide::new();
    let mut b = Buf::new(0, 1);
    b.flags = B_VALID;
    assert!(matches!(ide.request(b), Err(IdeError::NoOp)));
    assert_eq!(ide.queue.len(), 0);
}

#[test]
fn request_for_missing_second_disk_fails() {
    let mut ide = Ide::new();
    assert!(matches!(ide.request(Buf::new(1, 1)), Err(IdeError::DeviceAbsent)));
    ide.init(true);
    assert!(matches!(ide.request(Buf::new(1, 1)), Ok(Some(_))));
}

#[test]
fn request_beyond_file_system_fails() {
    let mut ide = Ide::new();
    assert!(matches!(ide.request(Buf::new(0, 1000)), Err(IdeError::OutOfRange)));
    assert!(matches!(ide.request(Buf::new(0, 999)), Ok(Some(_))));
}

#[test]
fn start_transfer_rejects_out_of_range_head() {
    let mut ide = Ide { queue: vec![Buf::new(0, 5000)], havedisk1: false, busy: false };
    assert!(matches!(ide.start_transfer(), Err(IdeError::OutOfRange)));
    assert!(!ide.busy);
}

#[test]
fn read_command_registers_are_exact() {
    let mut ide = Ide::new();
    let cmd = match ide.request(Buf::new(0, 999)) {
        Ok(Some(cmd)) => cmd,
        _ => panic!("expected an immediate start"),
    };
    assert_eq!(cmd.sector_count, 1);
    assert_eq!(cmd.lba_low, 0xE7);
    assert_eq!(cmd.lba_mid, 0x03);
    assert_eq!(cmd.lba_high, 0);
    assert_eq!(cmd.drive, 0xE0);
    assert_eq!(cmd.command, IDE_CMD_READ);
    assert!(cmd.write_data.is_none());
}

#[test]
fn write_command_carries_payload() {
    let mut ide = Ide::new();
    let b = Buf { dev: 0, blockno: 24, flags: B_DIRTY, data: vec![0xAB; 512] };
    let cmd = match ide.request(b) {
        Ok(Some(cmd)) => cmd,
        _ => panic!("expected an immediate start"),
    };
    assert_eq!(cmd.command, IDE_CMD_WRITE);
    assert_eq!(cmd.write_data, Some(vec![0xAB; 512]));
    assert_eq!(cmd.lba_low, 24);
}

#[test]
fn completion_order_equals_enqueue_order() {
    let mut ide = Ide::new();
    assert!(matches!(ide.request(Buf::new(0, 10)), Ok(Some(_))));
    assert!(matches!(ide.request(Buf::new(0, 11)), Ok(None)));
    assert!(matches!(ide.request(Buf::new(0, 12)), Ok(None)));

    let (done, next) = ide.on_completion(true, Some(vec![1u8; 512]));
    assert_eq!(done.blockno, 10);
    let next = next.expect("second transfer must start");
    assert_eq!(next.lba_low, 11);

    let (done, next) = ide.on_completion(true, Some(vec![2u8; 512]));
    assert_eq!(done.blockno, 11);
    let next = next.expect("third transfer must start");
    assert_eq!(next.lba_low, 12);

    let (done, next) = ide.on_completion(true, Some(vec![3u8; 512]));
    assert_eq!(done.blockno, 12);
    assert!(next.is_none());
    assert!(!ide.busy);
    assert_eq!(ide.queue.len(), 0);
}

#[test]
fn one_command_outstanding_at_a_time() {
    let mut ide = Ide::new();
    let first = ide.request(Buf::new(0, 1)).unwrap();
    assert!(first.is_some());
    assert!(ide.busy);
    // while a command is outstanding, further requests only queue up
    assert!(matches!(ide.request(Buf::new(0, 2)), Ok(None)));
    assert!(matches!(ide.request(Buf::new(0, 3)), Ok(None)));
    // the next command is issued only by the completion handler
    let (_, next) = ide.on_completion(true, Some(vec![0u8; 512]));
    assert!(next.is_some());
    assert!(ide.busy);
}

#[test]
fn completion_marks_valid_and_clears_dirty() {
    let mut ide = Ide::new();
    let b = Buf { dev: 0, blockno: 3, flags: B_DIRTY, data: vec![9u8; 512] };
    ide.request(b).unwrap();
    assert!(!ide.needs_data_in());
    let (done, next) = ide.on_completion(true, None);
    assert!(next.is_none());
    assert_ne!(done.flags & B_VALID, 0);
    assert_eq!(done.flags & B_DIRTY, 0);
    assert_eq!(done.data, vec![9u8; 512]);
}

#[test]
fn failed_completion_keeps_stale_payload_but_advances() {
    let mut ide = Ide::new();
    ide.request(Buf::new(0, 4)).unwrap();
    assert!(ide.needs_data_in());
    // the controller reported an error: no data is drained, yet the
    // request is still marked valid and the queue advances
    let (done, next) = ide.on_completion(false, None);
    assert!(next.is_none());
    assert_ne!(done.flags & B_VALID, 0);
    assert!(done.data.iter().all(|&x| x == 0));
    assert!(!ide.busy);
}
