pub mod scheduler;
