pub mod text;
pub mod numbers;
pub mod telegram;
pub mod errors;
pub mod services;
pub mod card_rules;
pub mod import;
pub mod calendar;
pub mod config;
pub mod digest;
pub mod routes;
