pub mod laws;
pub mod sparkle;
