//! Decisions of the Upstream command line tool and of the Upstream proxy process.
pub mod error;
pub mod filter;
pub mod git;
pub mod handle;
pub mod logging;
pub mod patch;
pub mod peer_events;
pub mod process;
pub mod seeds;
pub mod session;
pub mod signals;
pub mod text;
pub mod version;
