//! A page-content rendering core for PDF: image decoding, font encoding
//! reconciliation, text decoding, colour-space resolution and the operator
//! state machine, all on plain values.

pub mod backend;
pub mod blend;
pub mod charmap;
pub mod clip;
pub mod colorspace;
pub mod decode;
pub mod encoding;
pub mod error;
pub mod font;
pub mod fontentry;
pub mod graphics;
pub mod image;
pub mod interp;
pub mod names;
pub mod pixel;
pub mod scroll;
pub mod span;
pub mod standard;
pub mod tables;
pub mod text;
pub mod tracer;
pub mod unique;
pub mod validity;

pub use backend::{DrawMode, FillMode, OutlineBuilder};
pub use blend::BlendMode;
pub use clip::{ClipPath, ClipPathId};
pub use decode::load_image;
pub use error::RenderError;
pub use fontentry::FontEntry;
pub use image::{ImageData, Rgba};
pub use interp::{GraphicsState, RenderState, TextState};
pub use scroll::{ContinuousScroll, CurrentPageReplacement, ScrollDirection};
pub use span::{Part, Size, TextChar, TextSpan};
pub use standard::load_font;
pub use tracer::{DrawItem, Tracer, VectorPath};
