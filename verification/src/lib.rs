pub mod file_system;
pub mod shell;
pub mod task;
pub mod keyboard;
