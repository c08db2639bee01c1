//! Input sharing: one device's pointer and keyboard work on another device's
//! screen.

pub mod beacon;
pub mod capture;
pub mod control;
pub mod effects;
pub mod keys;
pub mod laws;
pub mod packet;
pub mod portal;
pub mod protocol;
pub mod sessions;
pub mod state;
pub mod transport;
pub mod window;
