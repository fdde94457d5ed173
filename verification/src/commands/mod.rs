pub mod risk;
pub mod misc;
pub mod special;
pub mod output;
pub mod complete;
