//! A host-side harness for exercising a firmware upgrade bootloader.
//!
//! The crate models a NOR flash device, the map of flash areas laid over it,
//! the manifest that is appended to a firmware image, the images themselves,
//! and the checks that decide whether a boot left the flash in the state a
//! scenario expects.

pub mod area;
pub mod boot;
pub mod builder;
pub mod bytes;
pub mod caps;
pub mod cbor;
pub mod crypto;
pub mod depends;
pub mod device;
pub mod dump;
pub mod entropy;
pub mod flash;
pub mod header;
pub mod image;
pub mod multiflash;
pub mod oracle;
pub mod scenarios;
pub mod slots;
pub mod status;
pub mod suit;
pub mod tlv;
pub mod utils;
