//! Verified domain library of the Wotoha music bot.

pub mod analysis;
pub mod audio;
pub mod automix;
pub mod contracts;
pub mod control;
pub mod corpus;
pub mod discord;
pub mod frames;
pub mod logging;
pub mod ordering;
pub mod playback;
pub mod probe;
pub mod scalar;
pub mod text;
pub mod time;
