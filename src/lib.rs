//! A single-floor ball chamber: the memory it shares with its host, the
//! bookkeeping of each tick, and a seven-segment readout of the ball count.
pub mod chamber;
pub mod line;
pub mod seven_segment;
