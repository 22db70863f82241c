pub mod device;
pub mod errors;
pub mod home;
pub mod room;
