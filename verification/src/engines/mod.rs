//! Document engines and what they hand back.
pub mod graphics;
pub mod html;
pub mod typst;

use vstd::prelude::*;

verus! {

/// A rendered document.
pub struct RenderOutput {
    pub bytes: Vec<u8>,
    pub mime_type: String,
    pub suggested_filename: String,
}

} // verus!
