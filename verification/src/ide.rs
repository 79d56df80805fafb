//! The IDE block-device driver as a verified state machine.
//!
//! The controller takes one command at a time; the driver serialises all
//! access through a FIFO queue of pending buffers. Port I/O cannot be done
//! here, so each decision that would program the controller returns the
//! register values as an [`IdeCommand`]; the surrounding code writes them
//! to the ports, busy-polls the status register with [`status_ready`], and
//! reports each hardware completion through [`Ide::on_completion`],
//! passing in the bytes drained from the data port for a read.

use vstd::prelude::*;
use crate::buf::{
    copy_data, flag_dirty, flag_valid, lemma_flags_complete, Buf, B_DIRTY, B_SIZE, B_VALID,
    FS_SIZE,
};

verus! {

/// Controller busy bit in the status register.
pub const IDE_BSY: u8 = 0x80;
/// Controller ready bit in the status register.
pub const IDE_DRDY: u8 = 0x40;
/// Controller fault bit in the status register.
pub const IDE_DF: u8 = 0x20;
/// Controller error bit in the status register.
pub const IDE_ERR: u8 = 0x01;

/// Command code to read one sector.
pub const IDE_CMD_READ: u8 = 0x20;
/// Command code to write one sector.
pub const IDE_CMD_WRITE: u8 = 0x30;
/// Command code to read multiple sectors.
pub const IDE_CMD_RDMUL: u8 = 0xc4;
/// Command code to write multiple sectors.
pub const IDE_CMD_WRMUL: u8 = 0xc5;

/// Base I/O port of the primary IDE controller.
pub const IDE_PORT_BASE_PRIMARY: u16 = 0x1F0;
/// Base I/O port of the secondary IDE controller.
pub const IDE_PORT_BASE_SECONDARY: u16 = 0x170;

/// Errors of the driver.
#[derive(Clone, Copy, Debug, PartialEq, Eq, Structural)]
pub enum IdeError {
    /// The controller reported a fault or error status.
    DeviceError,
    /// The block number lies beyond the file system.
    OutOfRange,
    /// The request targets a unit that was not detected.
    DeviceAbsent,
    /// The buffer is already valid and not dirty: nothing to do.
    NoOp,
}

/// The register program of one transfer: what the caller writes to the
/// controller's ports, and for a write the payload pushed through the data
/// port.
#[derive(Debug)]
pub struct IdeCommand {
    /// Number of sectors, written to the sector-count register.
    pub sector_count: u8,
    /// Bits 0..8 of the sector address.
    pub lba_low: u8,
    /// Bits 8..16 of the sector address.
    pub lba_mid: u8,
    /// Bits 16..24 of the sector address.
    pub lba_high: u8,
    /// Unit select and bits 24..28 of the sector address.
    pub drive: u8,
    /// The command code, read or write.
    pub command: u8,
    /// For a write, the payload pushed through the data port.
    pub write_data: Option<Vec<u8>>,
}

/// `cmd` is exactly the register program that transfers buffer `b`
/// (one sector per block, so the sector address is the block number).
pub open spec fn command_matches(cmd: IdeCommand, b: Buf) -> bool {
    &&& cmd.sector_count == 1
    &&& cmd.lba_low == (b.blockno & 0xff) as u8
    &&& cmd.lba_mid == ((b.blockno >> 8) & 0xff) as u8
    &&& cmd.lba_high == ((b.blockno >> 16) & 0xff) as u8
    &&& cmd.drive == (0xe0u32 | ((b.dev & 1) << 4) | (((b.blockno >> 24) & 0x0f) as u32)) as u8
    &&& if flag_dirty(b.flags) {
        &&& cmd.command == IDE_CMD_WRITE
        &&& cmd.write_data matches Some(d) && d@ == b.data@
    } else {
        &&& cmd.command == IDE_CMD_READ
        &&& cmd.write_data is None
    }
}

/// The one IDE driver: the FIFO queue of pending buffers, the recorded
/// presence of the second disk unit, and whether a hardware command is
/// outstanding.
pub struct Ide {
    /// Pending buffers in arrival order; the head is being serviced.
    pub queue: Vec<Buf>,
    /// Whether a second disk unit was detected at initialization.
    pub havedisk1: bool,
    /// Whether a hardware command is outstanding.
    pub busy: bool,
}

impl Ide {
    /// A command is outstanding exactly when the queue is non-empty, and
    /// every queued buffer is well formed with an in-range block number.
    pub open spec fn wf(self) -> bool {
        &&& self.busy <==> self.queue@.len() > 0
        &&& forall|i: int|
            0 <= i < self.queue@.len() ==> (#[trigger] self.queue@[i]).wf()
                && self.queue@[i].blockno < FS_SIZE
    }

    /// A transfer may be started only while no command is outstanding.
    pub open spec fn start_allowed(self) -> bool {
        !self.busy
    }

    /// A fresh driver: empty queue, nothing outstanding, no second unit.
    pub fn new() -> (ide: Ide)
        ensures
            ide.queue@.len() == 0,
            !ide.busy,
            !ide.havedisk1,
            ide.wf(),
    {
        Ide { queue: Vec::new(), havedisk1: false, busy: false }
    }

    /// Records whether the probe of the second unit saw any non-zero
    /// status, as decided by [`probe_disk1`].
    pub fn init(&mut self, disk1_present: bool)
        requires
            old(self).wf(),
        ensures
            final(self).wf(),
            final(self).havedisk1 == disk1_present,
            final(self).queue@ == old(self).queue@,
            final(self).busy == old(self).busy,
    {
        self.havedisk1 = disk1_present;
    }

    /// Starts the transfer of the queue head: marks the controller busy
    /// and returns the register program for the head buffer. Fails with
    /// `OutOfRange` when the head's block number lies beyond the file
    /// system; that is a programming error upstream, and the driver state
    /// is left unchanged.
    pub fn start_transfer(&mut self) -> (r: Result<IdeCommand, IdeError>)
        requires
            !old(self).busy,
            old(self).queue@.len() > 0,
            forall|i: int| 0 <= i < old(self).queue@.len() ==> (#[trigger] old(self).queue@[i]).wf(),
        ensures
            final(self).queue@ == old(self).queue@,
            final(self).havedisk1 == old(self).havedisk1,
            old(self).queue@[0].blockno < FS_SIZE ==> {
                &&& r matches Ok(cmd) && command_matches(cmd, old(self).queue@[0])
                &&& final(self).busy
            },
            old(self).queue@[0].blockno >= FS_SIZE ==> r == Err::<IdeCommand, IdeError>(
                IdeError::OutOfRange,
            ) && !final(self).busy,
    {
        let b = &self.queue[0];
        if b.blockno >= FS_SIZE {
            return Err(IdeError::OutOfRange);
        }
        let sector = b.blockno;
        let cmd = IdeCommand {
            sector_count: 1,
            lba_low: (sector & 0xff) as u8,
            lba_mid: ((sector >> 8) & 0xff) as u8,
            lba_high: ((sector >> 16) & 0xff) as u8,
            drive: (0xe0u32 | ((b.dev & 1) << 4) | (((sector >> 24) & 0x0f) as u32)) as u8,
            command: if b.flags & B_DIRTY != 0 {
                IDE_CMD_WRITE
            } else {
                IDE_CMD_READ
            },
            write_data: if b.flags & B_DIRTY != 0 {
                Some(copy_data(&b.data))
            } else {
                None
            },
        };
        self.busy = true;
        Ok(cmd)
    }

    /// The synchronous entry point: validates the request, appends the
    /// buffer to the queue and, when the device was idle, starts its
    /// transfer at once. The caller then runs the returned command, waits
    /// for the completion interrupt and reports it through
    /// [`Ide::on_completion`].
    pub fn request(&mut self, b: Buf) -> (r: Result<Option<IdeCommand>, IdeError>)
        requires
            old(self).wf(),
            b.wf(),
        ensures
            final(self).wf(),
            final(self).havedisk1 == old(self).havedisk1,
            flag_valid(b.flags) && !flag_dirty(b.flags) ==> r == Err::<
                Option<IdeCommand>,
                IdeError,
            >(IdeError::NoOp) && *final(self) == *old(self),
            !(flag_valid(b.flags) && !flag_dirty(b.flags)) && b.dev != 0 && !old(self).havedisk1
                ==> r == Err::<Option<IdeCommand>, IdeError>(IdeError::DeviceAbsent) && *final(self)
                == *old(self),
            !(flag_valid(b.flags) && !flag_dirty(b.flags)) && !(b.dev != 0 && !old(
                self,
            ).havedisk1) && b.blockno >= FS_SIZE ==> r == Err::<Option<IdeCommand>, IdeError>(
                IdeError::OutOfRange,
            ) && *final(self) == *old(self),
            !(flag_valid(b.flags) && !flag_dirty(b.flags)) && !(b.dev != 0 && !old(
                self,
            ).havedisk1) && b.blockno < FS_SIZE ==> {
                &&& final(self).queue@ == old(self).queue@.push(b)
                &&& final(self).busy
                &&& old(self).busy ==> r == Ok::<Option<IdeCommand>, IdeError>(None)
                &&& !old(self).busy ==> (r matches Ok(Some(cmd)) && command_matches(cmd, b))
            },
    {
        if b.flags & B_VALID != 0 && b.flags & B_DIRTY == 0 {
            return Err(IdeError::NoOp);
        }
        if b.dev != 0 && !self.havedisk1 {
            return Err(IdeError::DeviceAbsent);
        }
        if b.blockno >= FS_SIZE {
            return Err(IdeError::OutOfRange);
        }
        let start_disk = self.queue.len() == 0;
        self.queue.push(b);
        if start_disk {
            match self.start_transfer() {
                Ok(cmd) => Ok(Some(cmd)),
                Err(_) => {
                    // the block number was checked above, so the start
                    // cannot fail
                    proof {
                        assert(false);
                    }
                    Ok(None)
                },
            }
        } else {
            Ok(None)
        }
    }

    /// Whether the completion context must drain the data port: the head
    /// request is a read.
    pub fn needs_data_in(&self) -> (r: bool)
        requires
            self.wf(),
            self.busy,
        ensures
            r == !flag_dirty(self.queue@[0].flags),
    {
        self.queue[0].flags & B_DIRTY == 0
    }

    /// Handles one hardware completion: takes the head request off the
    /// queue, installs the drained bytes for a successful read, marks the
    /// buffer valid and clean, and starts the next queued transfer if one
    /// is waiting. A hardware error (`wait_ok` false) suppresses the data
    /// copy — the stale payload remains — but the request is still marked
    /// valid and the queue still advances, so later requests are not
    /// stalled.
    pub fn on_completion(&mut self, wait_ok: bool, data_in: Option<Vec<u8>>) -> (r: (
        Buf,
        Option<IdeCommand>,
    ))
        requires
            old(self).wf(),
            old(self).busy,
            data_in is Some <==> wait_ok && !flag_dirty(old(self).queue@[0].flags),
            data_in matches Some(d) ==> d@.len() == B_SIZE,
        ensures
            final(self).wf(),
            final(self).havedisk1 == old(self).havedisk1,
            final(self).queue@ == old(self).queue@.skip(1),
            r.0.dev == old(self).queue@[0].dev,
            r.0.blockno == old(self).queue@[0].blockno,
            r.0.flags == (old(self).queue@[0].flags | B_VALID) & !B_DIRTY,
            flag_valid(r.0.flags) && !flag_dirty(r.0.flags),
            r.0.wf(),
            r.0.data@ == (match data_in {
                Some(d) => d@,
                None => old(self).queue@[0].data@,
            }),
            old(self).queue@.len() > 1 ==> {
                &&& final(self).busy
                &&& r.1 matches Some(cmd) && command_matches(cmd, old(self).queue@[1])
            },
            old(self).queue@.len() == 1 ==> !final(self).busy && r.1 is None,
    {
        let mut b = self.queue.remove(0);
        self.busy = false;
        match data_in {
            Some(d) => {
                b.data = d;
            },
            None => {},
        }
        proof {
            lemma_flags_complete(b.flags);
        }
        b.flags = (b.flags | B_VALID) & !B_DIRTY;
        let next = if self.queue.len() > 0 {
            match self.start_transfer() {
                Ok(cmd) => Some(cmd),
                Err(_) => {
                    // every queued block number was checked on arrival,
                    // so the start cannot fail
                    proof {
                        assert(false);
                    }
                    None
                },
            }
        } else {
            None
        };
        proof {
            assert(final(self).queue@ =~= old(self).queue@.skip(1));
        }
        (b, next)
    }
}

/// The probe of the second disk unit: it is present exactly when any of
/// the polled status bytes was non-zero.
pub fn probe_disk1(statuses: &Vec<u8>) -> (r: bool)
    ensures
        r == exists|i: int| 0 <= i < statuses@.len() && statuses@[i] != 0,
{
    let mut i: usize = 0;
    while i < statuses.len()
        invariant
            i <= statuses.len(),
            forall|j: int| 0 <= j < i ==> statuses@[j] == 0,
        decreases statuses.len() - i,
    {
        if statuses[i] != 0 {
            return true;
        }
        i += 1;
    }
    false
}

/// The poll predicate of the driver's wait: the controller is ready when
/// the busy bit is clear and the ready bit is set.
pub fn status_ready(status: u8) -> (r: bool)
    ensures
        r == ((status & (IDE_BSY | IDE_DRDY)) == IDE_DRDY),
{
    status & (IDE_BSY | IDE_DRDY) == IDE_DRDY
}

/// The error decision of the driver's wait: with checking requested, a
/// set fault or error bit fails with `DeviceError`.
pub fn check_status(status: u8, checkerr: bool) -> (r: Result<(), IdeError>)
    ensures
        r == if checkerr && (status & (IDE_DF | IDE_ERR)) != 0 {
            Err::<(), IdeError>(IdeError::DeviceError)
        } else {
            Ok::<(), IdeError>(())
        },
{
    if checkerr && (status & (IDE_DF | IDE_ERR)) != 0 {
        Err(IdeError::DeviceError)
    } else {
        Ok(())
    }
}

/// The buffer completed `k` completions after the queue held `q` is
/// `q[k]`: each completion services the head and leaves the tail, so
/// completion order equals enqueue order.
pub proof fn lemma_queue_fifo(q: Seq<Buf>, k: int)
    requires
        0 <= k < q.len(),
    ensures
        q.skip(k).first() == q[k],
        q.skip(k).skip(1) == q.skip(k + 1),
{
    assert(q.skip(k).skip(1) =~= q.skip(k + 1));
}

/// At no point are two transfers started without an intervening
/// completion: starting a transfer makes the driver busy, a busy driver
/// admits no further start, and only a completion clears the busy state.
pub proof fn lemma_single_in_flight(ide: Ide)
    ensures
        ide.busy ==> !ide.start_allowed(),
{
}

} // verus!
