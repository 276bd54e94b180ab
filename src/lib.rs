pub mod fetch;
pub mod listing;
pub mod order;
pub mod text;
pub mod timestamp;
