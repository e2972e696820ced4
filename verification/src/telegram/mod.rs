pub mod commands;
pub mod parser;
pub mod replies;
pub mod webhook;
