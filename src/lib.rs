//! Certificate codec, commitment consistency check and proof-request pipeline
//! of a data-availability sidecar.
//!
//! - `field`, `codec`: compressed encodings of BN254 points.
//! - `cert`, `blob_info`: the certificate model and its conversions.
//! - `consistency`: the commitment consistency check of a payload.
//! - `store`, `worker`, `api`: the table of proof requests, the decisions of
//!   the worker that drains it, and the request surface in front of it.
//! - `artifact`: the encoding of the proof artifact.
pub mod field;
pub mod codec;
pub mod cert;
pub mod blob_info;
pub mod consistency;
pub mod store;
pub mod worker;
pub mod api;
pub mod artifact;
