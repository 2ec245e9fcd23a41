pub mod auth;
pub mod credentials;
pub mod exam;
pub mod game;
pub mod models;
pub mod router;
pub mod routes;
pub mod rpc;
pub mod store;
pub mod tokens;

pub use game::GameStrings;
