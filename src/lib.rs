pub mod components;
pub mod console_index;
pub mod map;
pub mod world;
pub mod visibility_system;
pub mod text;
pub mod item_use_system;
pub mod scheduler;
pub mod state;
pub mod damage_system;
pub mod map_indexing_system;
pub mod glyphs;
pub mod drop_system;
