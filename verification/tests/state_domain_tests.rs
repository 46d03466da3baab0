use laurn::state::{DeterministicStateDomain, StateSerializationError};

struct ExampleGameState {
    pub player_x: i32,
    pub player_y: i32,
    pub active: bool,
}

impl DeterministicStateDomain for ExampleGameState {
    fn canonicalize(&self) -> Result<Vec<u8>, StateSerializationError> {
        // Borsh gives deterministic, padding-free little-endian serialization.
        let mut out = Vec::new();
        for part in [
            borsh::to_vec(&self.player_x),
            borsh::to_vec(&self.player_y),
            borsh::to_vec(&self.active),
        ] {
            out.extend(part.map_err(|_| StateSerializationError::SerializationFailed("borsh"))?);
        }
        Ok(out)
    }
}

#[test]
fn test_canonical_serialization_is_deterministic() {
    let state1 = ExampleGameState { player_x: 42, player_y: -15, active: true };
    let state2 = ExampleGameState { player_x: 42, player_y: -15, active: true };

    // Identical semantic state must produce identical byte arrays.
    assert_eq!(state1.canonicalize(), state2.canonicalize());
}

#[test]
fn test_canonical_serialization_numeric_handling() {
    let state = ExampleGameState { player_x: 0x0102_0304, player_y: 0, active: false };

    let bytes = state.canonicalize().unwrap();
    // Little-endian layout for numeric types
    assert_eq!(bytes[0], 0x04);
    assert_eq!(bytes[1], 0x03);
    assert_eq!(bytes[2], 0x02);
    assert_eq!(bytes[3], 0x01);
}
