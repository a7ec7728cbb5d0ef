//! Whether a player is subject to gravity: only when the chunk it stands in
//! and the chunks directly below and above it are loaded, so that it never
//! falls into terrain that does not exist yet.
use vstd::prelude::*;

use crate::geometry::IVec3;
use crate::pos_set::contains_pos;

verus! {

/// Whether the chunk `c` and the chunks directly below and above it are all loaded.
pub open spec fn gravity_spec(c: IVec3, loaded: Seq<IVec3>) -> bool {
    &&& loaded.contains(c)
    &&& loaded.contains(IVec3 { x: c.x, y: (c.y - 1) as i32, z: c.z })
    &&& loaded.contains(IVec3 { x: c.x, y: (c.y + 1) as i32, z: c.z })
}

/// Recomputes whether gravity applies to a player in `current_chunk`:
/// true when that chunk and the chunks below and above it are loaded.
pub fn compute_gravity_enabled(current_chunk: IVec3, loaded_chunks: &Vec<IVec3>) -> (r: bool)
    requires
        i32::MIN < current_chunk.y < i32::MAX,
    ensures
        r == gravity_spec(current_chunk, loaded_chunks@),
{
    let chunk_below = IVec3::new(current_chunk.x, current_chunk.y - 1, current_chunk.z);
    let chunk_above = IVec3::new(current_chunk.x, current_chunk.y + 1, current_chunk.z);
    contains_pos(loaded_chunks, &current_chunk) && contains_pos(loaded_chunks, &chunk_below)
        && contains_pos(loaded_chunks, &chunk_above)
}

/// The gravity flag after an update: recomputed from the loaded chunks when
/// the player entered a new chunk (or none was checked yet) or gravity is
/// still off; otherwise it stays on.
pub open spec fn gravity_after(
    enabled: bool,
    last_check: Option<IVec3>,
    current_chunk: IVec3,
    loaded: Seq<IVec3>,
) -> bool {
    if last_check != Some(current_chunk) || !enabled {
        gravity_spec(current_chunk, loaded)
    } else {
        true
    }
}

/// Updates a player's gravity flag, looking at the loaded chunks only when
/// the player entered a new chunk or gravity is still off (waiting for
/// chunks to load); the chunk of the check is remembered.
pub fn maybe_update_gravity_state(
    gravity_enabled: &mut bool,
    last_gravity_check_chunk: &mut Option<IVec3>,
    current_chunk: IVec3,
    loaded_chunks: &Vec<IVec3>,
)
    requires
        i32::MIN < current_chunk.y < i32::MAX,
    ensures
        *final(last_gravity_check_chunk) == Some(current_chunk),
        *final(gravity_enabled) == gravity_after(
            *old(gravity_enabled),
            *old(last_gravity_check_chunk),
            current_chunk,
            loaded_chunks@,
        ),
{
    let chunk_changed = match *last_gravity_check_chunk {
        Some(c) => c != current_chunk,
        None => true,
    };
    if chunk_changed {
        *last_gravity_check_chunk = Some(current_chunk);
        *gravity_enabled = compute_gravity_enabled(current_chunk, loaded_chunks);
    } else if !*gravity_enabled {
        *gravity_enabled = compute_gravity_enabled(current_chunk, loaded_chunks);
    }
}

/// Gravity is never switched on while the player's chunk, or the chunk
/// below or above it, is missing: an update that turns it on finds all
/// three loaded. And an update never switches gravity off for a player
/// who stays in the chunk of the last check with gravity on, even if
/// chunks were unloaded meanwhile.
pub proof fn lemma_gravity_switches_on_only_over_loaded_chunks(
    enabled: bool,
    last_check: Option<IVec3>,
    current_chunk: IVec3,
    loaded: Seq<IVec3>,
)
    ensures
        !enabled && gravity_after(enabled, last_check, current_chunk, loaded) ==> {
            &&& loaded.contains(current_chunk)
            &&& loaded.contains(IVec3 { x: current_chunk.x, y: (current_chunk.y - 1) as i32, z: current_chunk.z })
            &&& loaded.contains(IVec3 { x: current_chunk.x, y: (current_chunk.y + 1) as i32, z: current_chunk.z })
        },
        enabled && last_check == Some(current_chunk) ==> gravity_after(
            enabled,
            last_check,
            current_chunk,
            loaded,
        ),
{
}

} // verus!
