//! Per-client GPU context management: address-range allocators, per-client
//! virtual address spaces, buffer-object mapping and submission dispatch.
pub mod layout;
pub mod error;
pub mod range_alloc;
pub mod vm;
pub mod device;
pub mod render;
pub mod file;
pub mod laws;
