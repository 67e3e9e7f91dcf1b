//! A verified reader for the Mapsforge binary map format.
//!
//! Coordinates are whole micro-degrees throughout; the byte source is a
//! borrowed byte slice that holds the map file.

pub mod block;
pub mod decimal;
pub mod deserializer;
pub mod errors;
pub mod header;
pub mod index_cache;
pub mod laws;
pub mod map_data;
pub mod map_file;
pub mod mercator;
pub mod optional_field;
pub mod poi;
pub mod query;
pub mod query_calculations;
pub mod query_parameters;
pub mod reader;
pub mod required_field;
pub mod ring;
pub mod tile;
pub mod types;
pub mod way;

pub use deserializer::Deserializer;
pub use errors::{ErrorKind, MapFileException};
pub use header::{MapFileHeader, MapFileInfo, SubFileParameter, TileBoundary};
pub use map_data::{MapReadResult, PoiWayBundle, PointOfInterest, Way};
pub use map_file::{MapFile, Selector};
pub use mercator::MercatorProjection;
pub use query::TileGrid;
pub use query_parameters::QueryParameters;
pub use tile::Tile;
pub use types::{BoundingBox, LatLong, Tag};
