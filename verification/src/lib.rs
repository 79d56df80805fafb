//! Storage stack of a small teaching kernel, verified with Verus.
//!
//! The crate has four parts: the fixed on-disk layout records shared by the
//! kernel and the offline image builder (`layout`, `codec`), the IDE block
//! device driver modelled as a state machine over a FIFO request queue
//! (`buf`, `ide`), the bounded LRU buffer cache that sits above the driver
//! (`cache`), and the offline builder that formats a blank disk image
//! (`mkfs`). Hardware port I/O and file I/O stay outside the library: the
//! driver hands back the register program for each transfer as a value, and
//! the builder produces the image as bytes in memory.

pub mod buf;
pub mod cache;
pub mod codec;
pub mod ide;
pub mod interrupts;
pub mod layout;
pub mod mkfs;
