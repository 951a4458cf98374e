pub mod animation;
pub mod sprite_alloc;
pub mod sprite_sheet;
pub mod fbo;
