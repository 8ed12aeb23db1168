pub mod export;
pub mod storage;
pub mod util;
