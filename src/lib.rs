//! A feed-watching agent's verified core: which releases of a feed are new
//! and wanted, how they are classified, enriched, recorded and submitted to
//! a torrent client, how a worker paces and gives up, and where a finished
//! download is linked in the media library.
pub mod classify;
pub mod config;
pub mod enrich;
pub mod hook;
pub mod pattern;
pub mod pipeline;
pub mod qb;
pub mod source;
pub mod store;
pub mod text;
pub mod worker;
