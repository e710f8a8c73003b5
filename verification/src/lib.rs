//! A FAT12/16/32 filesystem library over sector-addressed block storage,
//! together with the page-buffering substrate it runs on.
//!
//! The crate is a three-layer stack.
//!
//! The storage floor: `device` is an in-memory sector-addressed block
//! device with an exact byte-level specification - host adapters copy real
//! media in and out of it - and `header_rotating` and `nor_flash` shape it
//! for flash media.
//!
//! The buffering layer: `page`, `page_state`, `page_buffer` and the value
//! objects (`page_number`, `block_address`, `page_config`) hold a single
//! page with an explicit dirty-page discipline, and `stream` exposes a
//! byte-level cursor over it.
//!
//! The FAT core: `bpb` parses the boot sector, `fat` owns the allocation
//! table (entry packing for all three flavours, mirror write-through,
//! cluster chains, the free-scan rover and the generation counter),
//! `dir_entry` is the pure 32-byte record codec with the long-name pieces
//! and checksum, `dir` and `file` are the user-facing handles, and
//! `format` builds fresh volumes.
//!
//! `audit`, `time` and `path_parser` carry the operation trail, the DOS
//! date and time encodings with clock providers, and the `image:path`
//! notation of host tooling.

pub mod audit;
pub mod block_address;
pub mod bpb;
pub mod device;
pub mod dir;
pub mod dir_entry;
pub mod domain_error;
pub mod error;
pub mod fat;
pub mod file;
pub mod format;
pub mod header_rotating;
pub mod nor_flash;
pub mod page;
pub mod page_buffer;
pub mod page_config;
pub mod page_number;
pub mod page_state;
pub mod path_parser;
pub mod stream;
pub mod time;

pub use device::BlockDevice;
pub use error::FsError;
