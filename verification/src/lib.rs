//! Elements: the units of data that make up the bundles of the game's network
//! protocol, with their length prefixes and the mapping of element ids.
pub mod codec;
pub mod element;
