//! Core of a local MITM proxy that caps `Range` request headers at a fixed
//! chunk size: the certificate-authority store, the header rewriter, and the
//! transaction interception loop, each with a verified contract.

pub mod ca;
pub mod config;
pub mod intercept;
pub mod numeral;
pub mod range_header;
