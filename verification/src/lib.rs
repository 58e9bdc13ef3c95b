pub mod about;
pub mod ascii;
pub mod cli;
pub mod errors;
pub mod install;
pub mod location;
pub mod path_list;
pub mod segments;
pub mod uninstall;
