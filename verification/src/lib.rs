pub mod auth;
pub mod components;
pub mod game;
pub mod model;
pub mod util;
