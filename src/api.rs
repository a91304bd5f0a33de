//! Records that the catalog service returns, in the shape the run reads them.
pub mod chapter;
pub mod comic;
