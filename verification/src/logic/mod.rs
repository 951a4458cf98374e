pub mod entities;
pub mod timed;
pub mod level;
pub mod ldtk;
pub mod levels;
pub mod control;
