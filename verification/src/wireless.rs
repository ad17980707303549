pub mod uart;
pub mod report;
pub mod sleep;
