//! Keeps lights in step with the colours on a screen.
//!
//! Zones of the screen are averaged into colour samples, a sample that
//! changed enough becomes a command for the zone's light, and the rate of the
//! loop adapts to failures and to the time its own work takes. Everything
//! here works on whole numbers: distances and scales are held in thousandths,
//! times in milliseconds.

pub mod capture;
pub mod color;
pub mod config;
pub mod frame;
pub mod lights;
pub mod power;
pub mod rate;
pub mod sync;
pub mod transition;
pub mod wide;
pub mod zone;
