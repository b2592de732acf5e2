//! A minimal DER codec: the universal types that RSA keys are made of.

pub mod builder;
pub mod element;
pub mod error;
pub mod integer;
pub mod length;
pub mod oid;
pub mod reader;
pub mod tag;
