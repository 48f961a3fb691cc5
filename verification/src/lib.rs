//! A tool that watches a folder and sorts new files into folders by their type.
//!
//! The library holds everything that is decided and computed: what a command comes to,
//! where the configuration is and how it is loaded, which category a file belongs to, where
//! it is moved to so that nothing is overwritten, what is logged and reported, and what the
//! daemon does next. The program around it only does what the library asks for.
pub mod cli;
pub mod config;
pub mod daemon;
pub mod error;
pub mod install;
pub mod lines;
pub mod moves;
pub mod number;
pub mod paths;
pub mod text;
pub mod types;
pub mod utils;
