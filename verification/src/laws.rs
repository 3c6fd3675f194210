//! What the operations are for, stated over their results.

pub mod aims;
pub mod asked;
pub mod dates;
pub mod drive;
pub mod kept;
pub mod letters;
pub mod orders;
pub mod output;
pub mod pages;
pub mod places;
pub mod project;
pub mod reply;
pub mod runtime;
pub mod sent;
pub mod settings;
pub mod streams;
pub mod told;
pub mod turns;
pub mod words;
