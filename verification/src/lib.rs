//! A directory of users held in memory, with a cache for reads on top of it.
//!
//! `UserService` states what any backend that stores users does;
//! `UserServiceImpl` is the backend that keeps them in memory, and
//! `UserManager` puts a read-through cache in front of a backend. Each
//! operation is stated over a model of plain values (`UserView`,
//! `StoreState`, maps from identifier to user), and the laws that relate
//! the operations to each other are proved over that model.

pub mod auth;
pub mod config;
pub mod error;
pub mod manager;
pub mod service;
pub mod status;
pub mod store;
pub mod text;
pub mod user;
pub mod utils;

pub use config::{default_max_connections, Config, ConfigError, DEFAULT_PORT, VERSION};
pub use error::{DatabaseError, UserError};
pub use manager::{UserCache, UserManager};
pub use service::UserService;
pub use status::Status;
pub use store::UserServiceImpl;
pub use user::{hash_password, PasswordHash, User, MAX_USERNAME_LENGTH};
