//! A typed state-addressing and codec layer over a flat, byte-keyed
//! key/value store.
//!
//! Application code manipulates the store as if it were a tree of
//! strongly-typed, possibly nested collections.  Every value has four
//! interchangeable representations with lossless round trips between
//! them: the in-memory typed value, a raw byte buffer, a length-framed
//! wire buffer, and a human-readable string.
//!
//! The layer is organized leaves first: `scdict` holds the store and
//! `proxy` the location composition; `chars`, `decimal`, `hex`,
//! `bytesutil` and `codec` carry the shared encoding machinery; one
//! module per scalar kind holds its codec and its value views; and
//! `containers` and `coreroot` build the collection and parameter views
//! on top.

pub mod bytesutil;
pub mod chars;
pub mod codec;
pub mod containers;
pub mod coreroot;
pub mod decimal;
pub mod hex;
pub mod proxy;
pub mod scaddress;
pub mod scagentid;
pub mod scbigint;
pub mod scbool;
pub mod scbytes;
pub mod scdict;
pub mod schash;
pub mod schname;
pub mod scint16;
pub mod scint32;
pub mod scint64;
pub mod scint8;
pub mod scnftid;
pub mod screquestid;
pub mod scstring;
pub mod sctokenid;
pub mod scuint16;
pub mod scuint32;
pub mod scuint64;
pub mod scuint8;
