//! Verified core of a sky-observation toolkit: image sampling and tiling,
//! capture-session naming, weather-station selection and the capture loops'
//! decision logic.

pub mod geometry;
pub mod tiles;
pub mod raster;
pub mod sampling;
pub mod clock;
pub mod naming;
pub mod stations;
pub mod table;
pub mod cycle;
