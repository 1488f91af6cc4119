//! Release gate on a corpus of real tracks: identity of what was resolved,
//! acquisition of its bytes, and judgement of the rendered transitions.

pub mod acquisition;
pub mod cycle;
pub mod gate;
pub mod identity;
pub mod manifest;
pub mod measure;
pub mod wav;
pub mod workspace;
