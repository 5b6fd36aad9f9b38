pub mod account;
pub mod activation;
pub mod browse;
pub mod detail;
pub mod float_bits;
pub mod format;
pub mod home;
pub mod image_inventory;
pub mod label;
pub mod message;
pub mod modal;
pub mod navigation;
pub mod personal_lists;
pub mod player;
pub mod player_info;
pub mod routing;
pub mod scroll;
pub mod settings;
pub mod shortcuts;
pub mod subscriptions;
pub mod text;
