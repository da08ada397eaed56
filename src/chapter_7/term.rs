pub mod named;
pub mod unnamed;
