//! Resource-lifetime bookkeeping beneath a graphics command-submission layer.
//!
//! The crate holds the decisions of two families of allocators and leaves the
//! native work to its caller:
//!
//! * descriptor-handle allocators ([`linear::HeapLinear`], [`fixed::Heap`] and
//!   [`pool::DescriptorCpuPool`]) that hand out the addresses of
//!   non-overlapping descriptor-table slots inside heaps the device created;
//! * a command-buffer pool ([`command::CommandPool`]) that tracks which
//!   command buffer is recorded into and tells the caller which native
//!   operations (allocate, begin, finish) each request stands for.
//!
//! Every type has a mathematical view, and every operation is specified as a
//! transition on that view.
pub mod command;
pub mod descriptor;
pub mod fixed;
pub mod linear;
pub mod pool;
