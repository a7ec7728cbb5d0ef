use rustcraft::riverbed::{
    inner_side_indices, linearize, outer_side_indices, pad_linearize, Face, CHUNKP_S1, CHUNKP_S2,
    CHUNK_S1, CHUNK_S1I,
};

fn plane(face: Face) -> [usize; 3] {
    match face {
        Face::Left => [0, 1, 1],
        Face::Down => [1, 0, 1],
        Face::Back => [1, 1, 0],
        Face::Right => [0, 1, 1],
        Face::Up => [1, 0, 1],
        Face::Front => [1, 1, 0],
    }
}

fn chunk_face_indices_safe(face: Face) -> Vec<usize> {
    let [nx, ny, nz] = face.n();
    let x = ((nx * CHUNK_S1I).max(1) + nx) as usize;
    let y = ((ny * CHUNK_S1I).max(1) + ny) as usize;
    let z = ((nz * CHUNK_S1I).max(1) + nz) as usize;
    let [tx, ty, tz] = plane(face);
    let mut res = vec![];
    for dy in 0..(CHUNK_S1 * ty).max(1) {
        for dx in 0..(CHUNK_S1 * tx).max(1) {
            for dz in 0..(CHUNK_S1 * tz).max(1) {
                let idx = linearize(x + dx, y + dy, z + dz);
                res.push(idx);
            }
        }
    }
    res
}

fn chunk_face_indices_fast(face: Face) -> Vec<usize> {
    let row_step = match face {
        Face::Left | Face::Right => 1,
        Face::Down | Face::Up => 1,
        Face::Back | Face::Front => CHUNKP_S1,
    };
    let col_step = match face {
        Face::Left | Face::Right => CHUNKP_S2 - CHUNK_S1,
        Face::Down | Face::Up => CHUNKP_S1 - CHUNK_S1,
        Face::Back | Face::Front => CHUNKP_S1 + CHUNKP_S1,
    };
    let [nx, ny, nz] = face.n();
    let mut self_i = linearize(
        ((nx * CHUNK_S1I).max(1) + nx) as usize,
        ((ny * CHUNK_S1I).max(1) + ny) as usize,
        ((nz * CHUNK_S1I).max(1) + nz) as usize,
    );
    let mut res = vec![];
    for _ in 0..CHUNK_S1 {
        for _ in 0..CHUNK_S1 {
            res.push(self_i);
            self_i += row_step;
        }
        self_i += col_step;
    }
    res
}

fn assert_chunk_face_indices(face: Face) {
    let safe = chunk_face_indices_safe(face);
    let fast = chunk_face_indices_fast(face);
    assert_eq!(safe, fast);
}

#[test]
fn test_face_idx() {
    assert_chunk_face_indices(Face::Left);
    assert_chunk_face_indices(Face::Down);
    assert_chunk_face_indices(Face::Back);
    assert_chunk_face_indices(Face::Right);
    assert_chunk_face_indices(Face::Up);
    assert_chunk_face_indices(Face::Front);
}

#[test]
fn library_walk_matches_plane_enumeration() {
    for face in [Face::Left, Face::Down, Face::Back, Face::Right, Face::Up, Face::Front] {
        assert_eq!(outer_side_indices(face), chunk_face_indices_safe(face));
    }
}

#[test]
fn inner_walk_reads_the_neighbours_edge_layer() {
    // The chunk filling its Left border reads the Right inner layer of its neighbour.
    let inner = inner_side_indices(Face::Right);
    assert_eq!(inner[0], linearize(CHUNK_S1, 1, 1));
    assert_eq!(inner[1], linearize(CHUNK_S1, 1, 2));
    assert_eq!(inner[CHUNK_S1], linearize(CHUNK_S1, 2, 1));
    let inner = inner_side_indices(Face::Down);
    assert_eq!(inner[0], linearize(1, 1, 1));
    assert_eq!(inner[CHUNK_S1 * CHUNK_S1 - 1], linearize(CHUNK_S1, 1, CHUNK_S1));
}

#[test]
fn linearize_values() {
    assert_eq!(linearize(0, 0, 0), 0);
    assert_eq!(linearize(1, 2, 3), 3 + 18 + 2 * 324);
    assert_eq!(pad_linearize(0, 0, 0), linearize(1, 1, 1));
    assert_eq!(pad_linearize(15, 15, 15), linearize(16, 16, 16));
}

#[test]
fn faces_are_paired() {
    for face in [Face::Left, Face::Down, Face::Back, Face::Right, Face::Up, Face::Front] {
        let o = face.opposite();
        assert_eq!(o.opposite(), face);
        let [a, b, c] = face.n();
        let [d, e, f] = o.n();
        assert_eq!((a + d, b + e, c + f), (0, 0, 0));
    }
}
