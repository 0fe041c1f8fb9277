//! Configuration protocol, firmware emulator and input filtering for the
//! Endgame Gear XM2w 4K mouse, with the decisions of its local web server.

pub mod web;
pub mod xm2w;
