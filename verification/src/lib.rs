//! Print-ready card images from a deck list: border compositing, page
//! allocation and the decisions of the output run, verified with Verus.

pub mod codec;
pub mod compose;
pub mod deck;
pub mod error;
pub mod layout;
pub mod paging;
pub mod pipeline;
pub mod pixel;
pub mod raster;
pub mod text;
