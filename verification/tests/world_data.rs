use rustcraft::raycast::{FaceDirection, FaceDirectionExt};
use rustcraft::geometry::IVec3;
use rustcraft::world_data::{CallerType, GameState, WavePreset, WorldSeed};

#[test]
fn caller_type_prefixes() {
    assert_eq!(CallerType::Client.as_str(), "[CLIENT]");
    assert_eq!(CallerType::Server.as_str(), "[SERVER]");
}

#[test]
fn face_directions_are_unit_vectors() {
    assert_eq!(FaceDirection::PlusX.to_ivec3(), IVec3::new(1, 0, 0));
    assert_eq!(FaceDirection::MinusX.to_ivec3(), IVec3::new(-1, 0, 0));
    assert_eq!(FaceDirection::PlusY.to_ivec3(), IVec3::new(0, 1, 0));
    assert_eq!(FaceDirection::MinusY.to_ivec3(), IVec3::new(0, -1, 0));
    assert_eq!(FaceDirection::PlusZ.to_ivec3(), IVec3::new(0, 0, 1));
    assert_eq!(FaceDirection::MinusZ.to_ivec3(), IVec3::new(0, 0, -1));
}

#[test]
fn defaults_of_small_types() {
    assert_eq!(GameState::default(), GameState::Menu);
    assert_eq!(WavePreset::default(), WavePreset::Ocean);
    assert_eq!(WorldSeed::default(), WorldSeed(0));
}
