pub mod ecs;
pub mod time;
pub mod input;
pub mod graphics;
pub mod events;
