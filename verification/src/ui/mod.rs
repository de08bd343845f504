pub mod components;
pub mod screens;
pub mod toasts;
