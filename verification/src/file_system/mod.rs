pub mod block;
pub mod inode;
pub mod dir;
pub mod fs;
pub mod laws;
