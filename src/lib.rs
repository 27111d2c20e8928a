//! A build daemon's core: the per-project build loop, the event router that
//! fans build events out to listeners, watch-path reduction and the
//! client-side event stream filter.

pub mod error;
pub mod pathreduction;
pub mod build_loop;
pub mod daemon;
pub mod stream_events;
