pub mod text;
pub mod assoc;
pub mod auth;
pub mod records;
pub mod models;
pub mod strategies;
pub mod streaming;
pub mod order;
pub mod alpaca;
pub mod routes;
pub mod credentials;
pub mod runner;
