//! Verified core of TimegrapherQ, a software timegrapher for mechanical
//! watches: the integer and byte-level logic of the measurement tool, each
//! function with a contract checked by Verus.

pub mod audio;
pub mod capture;
pub mod db;
pub mod import;
pub mod live;
pub mod measure;
pub mod monitor;
pub mod synth;
pub mod wav;
