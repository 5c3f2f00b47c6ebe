pub mod passthrough;
