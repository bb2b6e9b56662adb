use vstd::prelude::*;

pub mod basis;
pub mod cache;
pub mod field;
pub mod range;
pub mod refine;
pub mod settings;

pub use basis::Basis;
pub use cache::{Outcome, RenderCache};
pub use field::{cell_gray, evaluate, gray_level};
pub use range::map_range;
pub use settings::Settings;
