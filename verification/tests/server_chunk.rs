use rustcraft::server_chunk::{PlayerSet, ServerChunk};

#[test]
fn sent_to_clients_deduplicates_players() {
    let mut chunk = ServerChunk::default();
    chunk.sent_to_clients.insert(1);
    chunk.sent_to_clients.insert(1);

    assert_eq!(chunk.sent_to_clients.len(), 1);
}

#[test]
fn player_set_holds_each_player_once() {
    let mut players = PlayerSet::new();
    assert!(players.is_empty());
    players.insert(7);
    players.insert(3);
    players.insert(7);
    assert_eq!(players.len(), 2);
    assert!(players.contains(3));
    assert!(!players.contains(4));
    players.clear();
    assert!(players.is_empty());
    assert!(!players.contains(7));
}

#[test]
fn default_chunk_is_empty() {
    let chunk = ServerChunk::default();
    assert_eq!(chunk.map.len(), 0);
    assert_eq!(chunk.ts, 0);
    assert!(chunk.sent_to_clients.is_empty());
}
