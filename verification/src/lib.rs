//! In-memory model of integrated-circuit layout data: typed properties,
//! geometric elements, cells and documents, for the GDSII and OASIS formats.

pub mod gdsii;
pub mod index;
pub mod oasis;
pub mod properties;
pub mod sorting;
