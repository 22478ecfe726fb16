//! A verified model of a module that lives behind a host boundary: typed
//! handles for host-managed objects with an exactly-once release discipline,
//! a dispatch table for imported operations, byte-oriented standard I/O
//! adapters, and the small arithmetic entry points the module exports.

pub mod arith;
pub mod dispatch;
pub mod handle;
pub mod host;
pub mod io;
