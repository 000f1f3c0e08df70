pub mod codec;
pub mod error;
pub mod laws;
pub mod layer;
pub mod layout;
pub mod naming;
pub mod number;
pub mod paint;
pub mod property;
pub mod rounding;
pub mod value;

pub use error::{DecodeError, ErrorKind};
pub use layer::Layer;
pub use layout::Layout;
pub use number::Float64;
pub use paint::Paint;
pub use property::LayoutProperty;
pub use value::Value;
