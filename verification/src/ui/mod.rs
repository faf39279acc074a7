pub mod display;
pub mod events;
pub mod layout;
