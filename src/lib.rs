//! Verified core of a workspace manager for chains of bootable virtual disks.
pub mod bcd;
pub mod diskpart;
pub mod dism;
pub mod letters;
pub mod lifecycle;
pub mod models;
pub mod paths;
pub mod scan;
pub mod text;
pub mod workspace;
