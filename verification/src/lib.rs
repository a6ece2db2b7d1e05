//! A small generative-image engine: it samples discrete visual attributes,
//! composites per-attribute image layers onto a canvas over a palette
//! background, overlays a fixed-width binary sequence watermark drawn in a
//! sentinel color, and recolors every sentinel pixel to the photographic
//! inverse of the background so the watermark always contrasts with it.
//! A scheduler state machine drives one generate-render-present cycle per
//! item until the sequence is exhausted or a cancellation signal arrives.

pub mod canvas;
pub mod catalog;
pub mod color;
pub mod compositor;
pub mod sampler;
pub mod scheduler;
pub mod watermark;

pub use canvas::Canvas;
pub use canvas::Image;
pub use catalog::robot_config;
pub use catalog::Config;
pub use catalog::LayerConfig;
pub use color::Rgb;
pub use compositor::compose;
pub use compositor::stamp;
pub use sampler::sample;
pub use sampler::AttributeSample;
pub use scheduler::Phase;
pub use scheduler::Scheduler;
pub use watermark::format_binary8;
