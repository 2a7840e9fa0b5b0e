use slippi_ratings::replay::PlayerKind;
use slippi_ratings::slp::decode_replay;
use slippi_ratings::stream::check_replay_stream;

const PRE: u16 = 200;
const POST: u16 = 200;
const FRAME_START: u16 = 50;
const FRAME_END: u16 = 50;
const GAME_START: u16 = 760;
const GAME_END: u16 = 6;

fn event(code: u8, size: u16, head: &[u8]) -> Vec<u8> {
    let mut v = vec![code];
    v.extend_from_slice(head);
    v.resize(1 + size as usize, 0);
    v
}

fn game_start() -> Vec<u8> {
    let mut p = vec![0u8; GAME_START as usize];
    p[0] = 3;
    p[1] = 18;
    // Port 1: Fox (2), human; port 2: Ice Climbers (14), human; ports 3 and 4 empty (3).
    p[100] = 2;
    p[101] = 0;
    p[136] = 14;
    p[137] = 0;
    p[173] = 3;
    p[209] = 3;
    let mut v = vec![0x36];
    v.extend_from_slice(&p);
    v
}

fn character_event(code: u8, size: u16, id: i32, port: u8, follower: bool) -> Vec<u8> {
    let mut head = id.to_be_bytes().to_vec();
    head.push(port);
    head.push(follower as u8);
    event(code, size, &head)
}

/// One frame in which the given (port, follower) characters send pre and post events.
fn frame(id: i32, pre: &[(u8, bool)], post: &[(u8, bool)]) -> Vec<u8> {
    let mut v = event(0x3a, FRAME_START, &id.to_be_bytes());
    for &(port, f) in pre {
        v.extend(character_event(0x37, PRE, id, port, f));
    }
    for &(port, f) in post {
        v.extend(character_event(0x38, POST, id, port, f));
    }
    v.extend(event(0x3c, FRAME_END, &id.to_be_bytes()));
    v
}

fn all_characters() -> Vec<(u8, bool)> {
    vec![(0, false), (1, false), (1, true)]
}

fn replay(frames: Vec<u8>, metadata: &[u8]) -> Vec<u8> {
    let table: Vec<(u8, u16)> = vec![
        (0x36, GAME_START),
        (0x37, PRE),
        (0x38, POST),
        (0x39, GAME_END),
        (0x3a, FRAME_START),
        (0x3c, FRAME_END),
    ];
    let mut raw = vec![0x35, (table.len() * 3 + 1) as u8];
    for (code, size) in &table {
        raw.push(*code);
        raw.extend_from_slice(&size.to_be_bytes());
    }
    raw.extend(game_start());
    raw.extend(frames);
    raw.extend(event(0x39, GAME_END, &[2, 255, 0, 1, 255, 255]));
    let mut v = vec![0x7b, 0x55, 0x03, 0x72, 0x61, 0x77, 0x5b, 0x24, 0x55, 0x23, 0x6c];
    v.extend_from_slice(&(raw.len() as u32).to_be_bytes());
    v.extend(raw);
    v.extend_from_slice(metadata);
    v.push(0x7d);
    v
}

fn start_at_metadata() -> Vec<u8> {
    let mut m = vec![0x55, 0x08];
    m.extend_from_slice(b"metadata{");
    m.extend_from_slice(&[0x55, 0x07]);
    m.extend_from_slice(b"startAt");
    m.extend_from_slice(&[0x53, 0x55, 20]);
    m.extend_from_slice(b"2024-01-02T03:04:05Z");
    m.push(0x7d);
    m
}

fn two_frames() -> Vec<u8> {
    let mut f = frame(-123, &all_characters(), &all_characters());
    f.extend(frame(-122, &all_characters(), &all_characters()));
    f
}

#[test]
fn a_complete_stream_passes_the_check() {
    assert!(check_replay_stream(&replay(two_frames(), &start_at_metadata())));
    assert!(check_replay_stream(&replay(two_frames(), &[])));
}

#[test]
fn a_complete_stream_decodes() {
    let bytes = replay(two_frames(), &start_at_metadata());
    let data = decode_replay(&bytes).unwrap();
    assert_eq!(data.frames.len(), 2);
    assert_eq!(data.frames[0].len(), 2);
    assert_eq!(data.players.len(), 2);
    assert_eq!(data.players[0].kind, PlayerKind::Human);
    assert_eq!(data.players[1].port, 1);
    assert!(data.hash.is_some());
    assert_eq!(data.match_id.as_deref(), Some(""));
    let md = data.metadata.unwrap();
    assert_eq!(md.start_at.as_deref(), Some("2024-01-02T03:04:05Z"));
    let end = data.end.unwrap();
    assert_eq!(end.placements, Some(vec![0, 1]));
    assert_eq!(end.lras_initiator, Some(None));
}

#[test]
fn a_pre_frame_event_without_its_post_frame_event_fails_the_check() {
    let f = frame(-123, &all_characters(), &[(0, false), (1, false)]);
    assert!(!check_replay_stream(&replay(f, &[])));
}

#[test]
fn an_event_of_an_empty_port_fails_the_check() {
    let f = frame(-123, &[(2, false)], &[(2, false)]);
    assert!(!check_replay_stream(&replay(f, &[])));
}

#[test]
fn a_port_byte_beyond_four_fails_the_check() {
    let f = frame(-123, &[(7, false)], &[(7, false)]);
    assert!(!check_replay_stream(&replay(f, &[])));
}

#[test]
fn a_follower_without_ice_climbers_fails_the_check() {
    let f = frame(-123, &[(0, true)], &[(0, true)]);
    assert!(!check_replay_stream(&replay(f, &[])));
}

#[test]
fn an_event_of_another_frame_fails_the_check() {
    let mut f = event(0x3a, FRAME_START, &(-123i32).to_be_bytes());
    f.extend(character_event(0x37, PRE, -100, 0, false));
    f.extend(character_event(0x38, POST, -100, 0, false));
    f.extend(event(0x3c, FRAME_END, &(-123i32).to_be_bytes()));
    assert!(!check_replay_stream(&replay(f, &[])));
}

#[test]
fn an_unclosed_frame_fails_the_check() {
    let f = event(0x3a, FRAME_START, &(-123i32).to_be_bytes());
    assert!(!check_replay_stream(&replay(f, &[])));
}

#[test]
fn a_missing_signature_fails_the_check() {
    let mut bytes = replay(two_frames(), &[]);
    bytes[0] = 0;
    assert!(!check_replay_stream(&bytes));
    assert!(!check_replay_stream(b"not a slippi replay at all"));
    assert!(!check_replay_stream(&[]));
}

#[test]
fn deeply_nested_metadata_fails_the_check() {
    let mut m = vec![0x55, 0x08];
    m.extend_from_slice(b"metadata{");
    for _ in 0..40 {
        m.extend_from_slice(&[0x55, 0x01, b'k', 0x7b]);
    }
    for _ in 0..41 {
        m.push(0x7d);
    }
    assert!(!check_replay_stream(&replay(two_frames(), &m)));
}
