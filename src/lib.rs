//! A batch kernel for 64-bit RISC-V harts, modelled as verified state transitions.
//!
//! The library decides what each hart does next: which app image is copied into
//! its execution window, which register context is pushed on its kernel stack,
//! how a trap is dispatched, and where an ELF image's segments land. The code
//! around it reads the control registers, holds the shared lock and performs
//! the privileged transfers.
use vstd::prelude::*;

pub mod batch;
pub mod context;
pub mod cpu;
pub mod loader;
pub mod syscall;
pub mod trap;

