//! Dead-air detection: a running peak fed at audio rate, and a state machine that
//! decides once per second when a silence starts, when it has lasted long enough
//! to raise the alarm, and when it is over.
//!
//! Values that are single-precision floats in the audio path are carried here as
//! their IEEE-754 binary32 bit patterns (`Binary32`), and every comparison the
//! engine makes on them is done, and proved, on those patterns.
pub mod binary32;
pub mod peak;
pub mod monitor;
