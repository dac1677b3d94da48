//! Live video capture core: capture-mode negotiation, single-slot frame
//! delivery, software pixel conversion and the colour/placement parameters
//! of the presentation pipeline.

pub mod capture;
pub mod color;
pub mod delivery;
pub mod devices;
pub mod modes;
pub mod negotiate;
pub mod pipeline;
pub mod pixel;
pub mod present;
pub mod stats;
pub mod types;
pub mod upload;
