//! Durable relay decisions: which member handoffs wait for the foreman, what a decision resolves,
//! and who is responsible now. Original messages stay the visible artifacts; the facts here only
//! carry machine responsibility.

pub mod accept;
pub mod course;
pub mod decide;
pub mod dispatch;
pub mod facts;
pub mod fingerprint;
pub mod flow;
pub mod handoff;
pub mod idle;
pub mod ids;
pub mod intent;
pub mod laws;
pub mod notes;
pub mod notices;
pub mod outcomes;
pub mod recorded;
pub mod remind;
pub mod repeat;
pub mod resolution;
pub mod scope;
pub mod sources;
pub mod state;
pub mod status;
pub mod words;
pub mod work;
