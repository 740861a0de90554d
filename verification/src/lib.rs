//! Verified core of an IPv4 service finder: address blocks and their hosts,
//! range text, probe classification, result rows, run control and the scan
//! schedule. Everything here is plain computation; sockets, files, clocks and
//! the terminal belong to the program that drives it.

pub mod block;
pub mod text;
pub mod addr;
pub mod range;
pub mod probe;
pub mod control;
pub mod governor;
pub mod engine;
pub mod extract;
pub mod load;
pub mod sink;
