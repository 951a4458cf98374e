pub mod selene;
