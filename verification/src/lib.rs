pub mod chapter;
pub mod encode;
pub mod metadata;
pub mod session;
pub mod text;
pub mod time;
