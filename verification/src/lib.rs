//! Building blocks of a photo gallery page generator: text handling of the
//! metadata that cameras store in photographs, choice of the lens that took a
//! picture, lookup of the nearest named place, and the HTML of the page.

pub mod lens;
pub mod page;
pub mod photo;
pub mod places;
pub mod text;
