pub mod codec;
pub mod params;
pub mod pipeline;
pub mod preprocess;
pub mod raw_image;
pub mod registry;
