//! A terminal dashboard's core: reading a metrics exposition document into
//! families, summarising each family into one display row, and the scroll
//! state that keyboard input drives.

pub mod text;
pub mod endpoint;
pub mod model;
pub mod view;
pub mod scan;
pub mod parse;
pub mod labels;
pub mod summary;
pub mod render;
