//! Provisioning of a demo deployment: the decisions of the setup pipeline,
//! the key registry, the environment file and the identifier type.

pub mod config;
pub mod decimal;
pub mod env_file;
pub mod env_laws;
pub mod env_template;
pub mod error;
pub mod hexadecimal;
pub mod layout;
pub mod naming;
pub mod pipeline;
pub mod pubkey;
pub mod registry;
pub mod runs;
pub mod text;
