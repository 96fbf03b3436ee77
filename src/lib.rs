pub mod wire;
pub mod game_info;
pub mod training_info;
pub mod session;
pub mod protocol;
pub mod mapping;
pub mod server;
pub mod dispatch;
