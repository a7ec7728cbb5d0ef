//! Verified core of the voxel world: coordinates, blocks, water bookkeeping.
use vstd::prelude::*;

pub mod geometry;
pub mod pos_set;
pub mod coords;
pub mod lod;
pub mod blocks;
pub mod boundary;
pub mod sleep;
pub mod sleep_manager;
pub mod queues;
pub mod riverbed;
#[allow(non_snake_case)]
pub mod PreGameLoadingSets;
#[allow(non_snake_case)]
pub mod GameSets;
pub mod world_data;
pub mod gravity;
pub mod raycast;
pub mod broadcast;
pub mod surface;
pub mod block_map;
pub mod rng;
pub mod flora;
pub mod packed;
pub mod interaction;
pub mod server_chunk;

verus! {
} // verus!
