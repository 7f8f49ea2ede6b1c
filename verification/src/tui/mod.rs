pub mod app;
pub mod listing;
pub mod view;
