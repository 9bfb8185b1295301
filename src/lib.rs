//! A discrete-time random walk that can be stepped forward and backward
//! exactly: every die consumed on the way forward is replayed on the way
//! back, and every die first met on the way back is kept for the way forward.
pub mod die;
pub mod transition;
pub mod state;
pub mod laws;
pub mod text;
