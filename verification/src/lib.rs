pub mod commands;
pub mod handler;
pub mod input;
pub mod number;
pub mod service;
pub mod text;
pub mod theorems;
