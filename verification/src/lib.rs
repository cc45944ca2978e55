//! A local replica store with vector-clock causality, and the encrypted
//! record envelope that carries its records to a sync server.
//!
//! - `vclock`: vector clocks, their comparison and their text.
//! - `schema`: what a record looks like to the application and in the
//!   store, and the way between the two forms.
//! - `storage`: the store itself, a local overlay over a mirror of the
//!   server's state, with the laws that hold of it.
//! - `key_bundle` and `bso_record`: the keys and the envelope that is
//!   encrypted under them and sent over the wire.
//! - `migrator`: the steps of migrating an account from a session token.
//! - `json`, `text`, `codec`, `platform`, `error`: structured values,
//!   strings, encodings, the machine, and the error kinds.
//!
//! The library holds no file and makes no request. A store works on the
//! tables it is given and hands them back row by row; whoever keeps them
//! on disk does so around it.

pub mod bso_record;
pub mod codec;
pub mod error;
pub mod json;
pub mod key_bundle;
pub mod migrator;
pub mod platform;
pub mod schema;
pub mod storage;
pub mod text;
pub mod vclock;
