//! Client-side support for the off-chain data retrieval protocol over
//! contract calls: a bounded engine that detects and follows off-chain-lookup
//! redirects, a multi-gateway dispatcher with per-URL failure records, and
//! hierarchical name resolution with wildcard capability probing.
//!
//! All I/O stays outside: each component is a small machine whose steps say,
//! with a proved contract, what call or request must be made next and what
//! every possible answer leads to.

use vstd::prelude::*;

pub mod abicode;
pub mod address;
pub mod avatar;
pub mod bytesutil;
pub mod ens;
pub mod error;
pub mod gateway;
pub mod hexdata;
pub mod keccak;
pub mod middleware;
pub mod query;
pub mod redirect;
pub mod signal;
pub mod wildcard;

pub use middleware::CCIPReadMiddleware;
pub use redirect::MAX_CCIP_REDIRECT_ATTEMPT;
