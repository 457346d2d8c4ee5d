//! What holds of the library as a whole, said of inputs and results alone.

pub mod models;
pub mod strings;
pub mod tunnels;
pub mod documents;
pub mod discovery;
pub mod sessions;
pub mod paths;
pub mod lists;
pub mod dashboard;
pub mod screen;
