pub mod encode;
