pub mod batch;
pub mod config;
pub mod engine;
pub mod gpu;
pub mod image_list;
pub mod worker;
