//! Supported controller devices.

pub mod maschine_mikro_mk2;

pub use maschine_mikro_mk2::MaschineMikroMk2;
