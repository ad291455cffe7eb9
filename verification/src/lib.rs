pub mod text;
pub mod types;
pub mod history;
pub mod estimator;
pub mod accounts;
pub mod launcher;
pub mod proxy;
pub mod chatgpt;
pub mod credentials;
pub mod tray;
pub mod config;
pub mod vault;
pub mod menu;
pub mod refresh;
pub mod selection;
