//! Verified core of the Brooks command-line tool: parsing of command-line
//! values, diagnostics rendering, the host-metadata store and its socket
//! protocol, and the request plumbing of the proxy and MEL servers.

pub mod cli;
pub mod diagnostics;
pub mod hmds;
pub mod proxy;
pub mod serve;
pub mod socket;
pub mod text;
pub mod timeout;
