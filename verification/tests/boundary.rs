use rustcraft::boundary::{is_on_boundary, local_to_face_pos, wrap_to_neighbor_chunk, BoundaryFace};
use rustcraft::coords::CHUNK_SIZE;
use rustcraft::geometry::{IVec2, IVec3};

#[test]
fn test_boundary_face_properties() {
    assert_eq!(BoundaryFace::NegX.opposite(), BoundaryFace::PosX);
    assert_eq!(BoundaryFace::PosY.opposite(), BoundaryFace::NegY);
    assert_eq!(BoundaryFace::NegX.neighbor_chunk_offset(), IVec3::new(-1, 0, 0));
}

#[test]
fn test_wrap_to_neighbor_chunk() {
    let (offset, wrapped) = wrap_to_neighbor_chunk(IVec3::new(-1, 5, 5));
    assert_eq!(offset, IVec3::new(-1, 0, 0));
    assert_eq!(wrapped, IVec3::new(CHUNK_SIZE - 1, 5, 5));

    let (offset, wrapped) = wrap_to_neighbor_chunk(IVec3::new(5, 5, CHUNK_SIZE));
    assert_eq!(offset, IVec3::new(0, 0, 1));
    assert_eq!(wrapped, IVec3::new(5, 5, 0));

    let (offset, wrapped) = wrap_to_neighbor_chunk(IVec3::new(5, 5, 5));
    assert_eq!(offset, IVec3::zero());
    assert_eq!(wrapped, IVec3::new(5, 5, 5));
}

#[test]
fn test_is_on_boundary() {
    assert!(is_on_boundary(&IVec3::new(0, 5, 5), BoundaryFace::NegX));
    assert!(!is_on_boundary(&IVec3::new(1, 5, 5), BoundaryFace::NegX));
    assert!(is_on_boundary(&IVec3::new(CHUNK_SIZE - 1, 5, 5), BoundaryFace::PosX));
}

#[test]
fn test_wrap_corner_cases() {
    let (offset, wrapped) = wrap_to_neighbor_chunk(IVec3::new(-1, -1, -1));
    assert_eq!(offset, IVec3::new(-1, -1, -1));
    assert_eq!(wrapped, IVec3::new(CHUNK_SIZE - 1, CHUNK_SIZE - 1, CHUNK_SIZE - 1));

    let (offset, wrapped) = wrap_to_neighbor_chunk(IVec3::new(CHUNK_SIZE, 5, CHUNK_SIZE));
    assert_eq!(offset, IVec3::new(1, 0, 1));
    assert_eq!(wrapped, IVec3::new(0, 5, 0));
}

#[test]
fn test_boundary_face_symmetry() {
    for face in BoundaryFace::all() {
        let opposite = face.opposite();
        assert_eq!(
            face.neighbor_chunk_offset(),
            opposite.neighbor_chunk_offset().neg(),
            "Face {:?} and its opposite {:?} should have negated offsets",
            face,
            opposite
        );
        assert_eq!(face, opposite.opposite(), "Double opposite should return the same face");
    }
}

#[test]
fn test_local_to_face_pos_consistency() {
    let pos = IVec3::new(0, 7, 11);
    assert_eq!(local_to_face_pos(&pos, BoundaryFace::NegX), IVec2::new(7, 11));

    let pos = IVec3::new(CHUNK_SIZE - 1, 3, 9);
    assert_eq!(local_to_face_pos(&pos, BoundaryFace::PosX), IVec2::new(3, 9));

    let pos = IVec3::new(5, 0, 8);
    assert_eq!(local_to_face_pos(&pos, BoundaryFace::NegY), IVec2::new(5, 8));

    let pos = IVec3::new(4, 6, CHUNK_SIZE - 1);
    assert_eq!(local_to_face_pos(&pos, BoundaryFace::PosZ), IVec2::new(4, 6));
}

#[test]
fn horizontal_faces() {
    assert_eq!(
        BoundaryFace::horizontal(),
        [BoundaryFace::NegX, BoundaryFace::PosX, BoundaryFace::NegZ, BoundaryFace::PosZ]
    );
    for face in BoundaryFace::horizontal() {
        assert_eq!(face.neighbor_chunk_offset().y, 0);
    }
}

#[test]
fn stepping_across_a_face_lands_on_the_opposite_face() {
    for face in BoundaryFace::all() {
        let p = IVec3::new(
            if face == BoundaryFace::PosX { CHUNK_SIZE - 1 } else if face == BoundaryFace::NegX { 0 } else { 7 },
            if face == BoundaryFace::PosY { CHUNK_SIZE - 1 } else if face == BoundaryFace::NegY { 0 } else { 3 },
            if face == BoundaryFace::PosZ { CHUNK_SIZE - 1 } else if face == BoundaryFace::NegZ { 0 } else { 12 },
        );
        assert!(is_on_boundary(&p, face));
        let (offset, wrapped) = wrap_to_neighbor_chunk(p.add(face.neighbor_chunk_offset()));
        assert_eq!(offset, face.neighbor_chunk_offset());
        assert!(is_on_boundary(&wrapped, face.opposite()));
        assert_eq!(local_to_face_pos(&wrapped, face.opposite()), local_to_face_pos(&p, face));
    }
}
