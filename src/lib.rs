pub mod chapter_4;
pub mod chapter_7;
pub mod file_position;
