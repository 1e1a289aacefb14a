//! Campaign graphs: the maps of a campaign, where they lie and how they are connected.
pub mod graph;
pub mod syntax;
pub mod trail;
