pub mod capabilities;
pub mod drm;
pub mod errno;
pub mod kfd;
pub mod sdma;
pub mod sdma_bindgen;
pub mod text;
