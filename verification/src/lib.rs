//! Image and text-input elements of an RSS channel, with verified readers
//! and writers for their XML form.

pub mod context;
pub mod corpus;
pub mod dtd;
pub mod error;
pub mod gofeed;
pub mod image;
pub mod json;
pub mod metadata;
pub mod record;
pub mod runner;
pub mod structural;
pub mod text;
pub mod triage;
pub mod textinput;
pub mod util;
pub mod xml;

pub use error::Error;
pub use image::{Image, ImageBuilder};
pub use textinput::{TextInput, TextInputBuilder};
pub use xml::XmlEvent;
