//! A remote-process introspection engine.
//!
//! The crate locates anchor pointers inside a target module image by byte-pattern
//! scanning, reads typed values and dynamic arrays out of another address space
//! through a narrow fallible read primitive, resolves numeric identities to display
//! names through a two-level chunked name table, answers symbolic field-offset
//! queries from a reflection table, and enumerates the target's object graph into
//! a cache of identity records.
//!
//! All reads go through the [`memory::MemorySource`] trait, whose contract is an
//! address-to-byte map; [`memory::SparseMemory`] is the crate's own verified
//! implementation, suitable as a synthetic target. An unverified caller may supply
//! a source backed by a live process.

pub mod actors;
pub mod decode;
pub mod memory;
pub mod pattern;
pub mod reader;
pub mod sdk;
pub mod tarray;
pub mod unreal;
pub mod world;
