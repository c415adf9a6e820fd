//! The verified core of `shell-use`, a headless terminal CLI and daemon:
//! backends, command-to-request mapping, session paths, the response
//! exit-code taxonomy, SVG screenshots and xterm.js grid decoding.
pub mod backend;
pub mod client;
pub mod config;
pub mod protocol;
pub mod render;
pub mod text;
pub mod xterm;
