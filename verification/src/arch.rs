pub mod pic;
