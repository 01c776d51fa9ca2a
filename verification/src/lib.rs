//! Session-time tracker: a per-conversation state machine that opens and
//! closes "standing" sessions, an accumulator of elapsed session time into
//! per-day buckets with windowed aggregate queries, periodic live-status
//! texts, and ranked leaderboard reports.
pub mod dates;
pub mod openrouter;
pub mod periodic_updates;
pub mod rankings;
pub mod session;
pub mod time;
pub mod total_management;
