//! Management of Minecraft server containers through docker or podman.
//!
//! The library builds the argument vectors handed to the container runtime,
//! turns the runtime's exit statuses into results, and parses the runtime's
//! container listing into records. Running the processes is left to the caller.
mod error;
mod listing;
mod mc;
mod podman;
mod port;
mod text;

pub use error::PodmanError;
pub use port::extract_port;
pub use text::capitalize_first;
pub use mc::{Container, ContainerView};
pub use listing::{parse_listing, parse_listing_row, split_fields};
pub use podman::{command_result, remove_result, Instance, Outcome, Runtime};
