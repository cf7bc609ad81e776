//! Gromrik: a chat with a persona of a language model. The library holds the
//! settings, the personas, the conversation sent to the model and its saved
//! history, and every decision of the command line, terminal and window
//! interfaces, each with its contract.
pub mod text;
pub mod keyed;
pub mod location;
pub mod history;
pub mod util;
pub mod mode;
pub mod console;
pub mod tui;
pub mod gui;
pub mod chat;
pub mod defaults;
pub mod persona;
pub mod config;
pub mod splash;
pub mod logger;
pub mod cli;
pub mod help;
