pub mod characters;
pub mod selene;
