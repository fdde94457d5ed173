pub mod banner;
pub mod system_utils;
