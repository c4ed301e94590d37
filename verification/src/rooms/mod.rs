pub mod room_handler;
