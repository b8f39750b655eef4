//! Blurring what lies behind translucent surfaces.

pub mod capture;
pub mod damage;
pub mod draw;
pub mod element;
pub mod offset;
pub mod params;
pub mod passes;
pub mod windows;
