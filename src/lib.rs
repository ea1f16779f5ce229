//! Records a robot's discovered map as a numbered sequence of images and decides when the
//! sequence is complete enough to be turned into a video.
pub mod encoder;
pub mod events;
pub mod inventory;
pub mod ledger;
pub mod naming;
pub mod palette;
pub mod raster;
pub mod shared;
pub mod terrain;
