//! The decisions behind three parts of a Wayland compositor: which modal
//! dialogs block their parents ([`modal`], [`xdg_dialog`]), how often
//! animations are drawn ([`power`]), and how the backdrop of translucent
//! surfaces is blurred ([`blur`]).
//!
//! Everything here computes on plain values. Talking to clients, to the
//! renderer and to the system is left to the compositor.

pub mod blur;
pub mod float;
pub mod geometry;
pub mod modal;
pub mod power;
pub mod transform;
pub mod xdg_dialog;
