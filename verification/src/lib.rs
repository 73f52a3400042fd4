//! Structural layout of Mach-O images: the segments of an image, the sections
//! nested in each segment, and the tables that present them.

pub mod decimal;
pub mod decode;
pub mod layout;
pub mod order;
pub mod render;
pub mod report;
pub mod rows;
