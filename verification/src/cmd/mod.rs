pub mod search;
pub mod run;
pub mod add;
pub mod list;
pub mod remove;
pub mod init;
