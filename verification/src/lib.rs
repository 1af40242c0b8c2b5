//! Decoders for the data files of a legacy game client: item metadata, sprites,
//! the item-type table and the paged world map, and the sector store that the
//! decoded map fills.

pub mod datcontainer;
pub mod helpers;
pub mod map;
pub mod opentibia;
pub mod renderer;
pub mod spriteatlas;
pub mod spritecontainer;
