//! Circle packing: fill a region with circles that keep clear of each other
//! and of the region's edges, each grown as far as its neighbours allow.

pub mod capacity;
pub mod collision;
pub mod config;
pub mod driver;
pub mod growth;
pub mod placement;
pub mod region;
pub mod replay;

pub use collision::circle_has_collision;
pub use driver::pack;
pub use growth::grow;
pub use placement::{try_create_circle, try_position_circle, try_seed_at};
pub use config::{CirclePackingDescriptor, ConfigError};
pub use region::Region;
