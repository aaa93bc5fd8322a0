//! Builds a bootable FAT disk image around a user-supplied UEFI executable
//! and assembles and supervises the virtual-machine process that boots it.
//!
//! The crate is organised leaf-first:
//! - [`path`]: destination paths inside the image, their components and
//!   normal form;
//! - [`args`]: file-placement tokens (`<host>[:<dest>]`) and their resolver;
//! - [`image`]: the boot image builder over an in-memory FAT volume;
//! - [`qemu`]: assembly of the virtual-machine argument vector;
//! - [`supervisor`]: the escalating wait/terminate protocol.

pub mod args;

pub mod image;

pub mod path;

pub mod qemu;

pub mod supervisor;

pub use args::Args;
pub use args::ParseError;
pub use args::PathSpec;
pub use args::parse_file_arg;
pub use image::EfiImage;
pub use image::ImageError;
pub use image::build_startup_script;
pub use image::mib_to_bytes;
pub use qemu::QemuConfig;
pub use qemu::QemuDriveConfig;
pub use supervisor::Action;
pub use supervisor::Event;
pub use supervisor::Phase;
pub use supervisor::Supervisor;
pub use supervisor::KillOutcome;
pub use supervisor::SupervisorError;
pub use supervisor::exit_code_or_default;
