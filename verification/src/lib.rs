pub mod bit_util;
pub mod bitmap;
pub mod buffer;
