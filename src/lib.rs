//! Tile-grid chase game core: maze model, shortest-path search, enemy
//! targeting policies, tile-to-tile movement and player/enemy collision.

pub mod grid;
pub mod maze;
pub mod pathfinder;
pub mod ai;
pub mod combat;
pub mod movement;
pub mod enemies;
pub mod tracing_bridge;
pub mod narration;
pub mod resources;
pub mod player;
pub mod collectibles;
