//! Desktop self-control daemon core: window-title classification against
//! blacklist/whitelist pattern sets, a persisted temporal enforcement state
//! machine (content blocks and scheduled bathroom breaks), and the per-tick
//! decision logic of the monitoring loop.

pub mod background;
pub mod browser;
pub mod clock;
pub mod codec;
pub mod config;
pub mod control;
pub mod digits;
pub mod filter;
pub mod state;
pub mod text;
