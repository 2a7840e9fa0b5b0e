use vstd::prelude::*;

verus! {

// Event codes of the Slippi event stream.
pub const MESSAGE_SPLITTER: u8 = 0x10;
pub const EVENT_PAYLOADS: u8 = 0x35;
pub const GAME_START: u8 = 0x36;
pub const FRAME_PRE: u8 = 0x37;
pub const FRAME_POST: u8 = 0x38;
pub const GAME_END: u8 = 0x39;
pub const FRAME_START: u8 = 0x3a;
pub const ITEM: u8 = 0x3b;
pub const FRAME_END: u8 = 0x3c;
pub const FOD_PLATFORM: u8 = 0x3f;
pub const DREAMLAND_WHISPY: u8 = 0x40;
pub const STADIUM_TRANSFORMATION: u8 = 0x41;

/// The character number of the Ice Climbers, whose port carries a second (follower)
/// character.
pub const ICE_CLIMBERS: u8 = 14;

/// How deep the metadata's maps may nest.
pub const METADATA_DEPTH: u8 = 16;

/// The big-endian 16-bit number at `b[i..i + 2]`.
pub open spec fn be16(b: Seq<u8>, i: int) -> int {
    b[i] as int * 256 + b[i + 1] as int
}

/// The big-endian 32-bit number at `b[i..i + 4]`.
pub open spec fn be32(b: Seq<u8>, i: int) -> int {
    be16(b, i) * 65536 + be16(b, i + 2)
}

/// The bytes that open a `.slp` file: `{U\x03raw[$U#l`.
pub open spec fn file_signature() -> Seq<u8> {
    seq![0x7bu8, 0x55u8, 0x03u8, 0x72u8, 0x61u8, 0x77u8, 0x5bu8, 0x24u8, 0x55u8, 0x23u8, 0x6cu8]
}

/// The length of the `raw` element, from the header.
pub open spec fn raw_len(b: Seq<u8>) -> int {
    be32(b, 11)
}

/// The size byte of the Event Payloads event (its own byte counted).
pub open spec fn table_size(b: Seq<u8>) -> int {
    b[16] as int
}

/// How many (code, size) entries the Event Payloads event holds.
pub open spec fn table_entries(b: Seq<u8>) -> int {
    (table_size(b) - 1) / 3
}

/// The event code of entry `k` of the payload table.
pub open spec fn entry_code(b: Seq<u8>, k: int) -> int {
    b[17 + 3 * k] as int
}

/// The payload size of entry `k` of the payload table.
pub open spec fn entry_size(b: Seq<u8>, k: int) -> int {
    be16(b, 18 + 3 * k)
}

/// The payload size that the first `k` entries declare for `code`; a later entry
/// overrides an earlier one, and 0 stands for none.
pub open spec fn declared_size(b: Seq<u8>, k: int, code: int) -> int
    decreases k,
{
    if k <= 0 {
        0
    } else if entry_code(b, k - 1) == code {
        entry_size(b, k - 1)
    } else {
        declared_size(b, k - 1, code)
    }
}

/// The header and the Event Payloads event: the signature, a nonzero `raw` length, and a
/// table of nonzero payload sizes that declares the game start and the game end.
pub open spec fn table_ok(b: Seq<u8>) -> bool {
    &&& b.len() >= 17
    &&& b.subrange(0, 11) == file_signature()
    &&& raw_len(b) > 0
    &&& b[15] == EVENT_PAYLOADS
    &&& table_size(b) % 3 == 1
    &&& 16 + table_size(b) <= b.len()
    &&& forall|k: int| 0 <= k < table_entries(b) ==> #[trigger] entry_size(b, k) != 0
    &&& declared_size(b, table_entries(b), GAME_START as int) != 0
    &&& declared_size(b, table_entries(b), GAME_END as int) != 0
}

/// Where the game-start event begins.
pub open spec fn start_at(b: Seq<u8>) -> int {
    16 + table_size(b)
}

/// The payload size of the game start.
pub open spec fn start_size(b: Seq<u8>) -> int {
    declared_size(b, table_entries(b), GAME_START as int)
}

/// The 36-byte block of player `n` in the game-start payload.
pub open spec fn player_block(b: Seq<u8>, n: int) -> int {
    start_at(b) + 1 + 100 + 36 * n
}

/// The game start: it comes right after the payload table, fits in the bytes, holds the
/// player blocks, and records a Slippi version of 3.0 or later.
pub open spec fn start_ok(b: Seq<u8>) -> bool {
    &&& start_at(b) < b.len()
    &&& b[start_at(b)] == GAME_START
    &&& start_size(b) >= 316
    &&& start_at(b) + 1 + start_size(b) <= b.len()
    &&& b[start_at(b) + 1] >= 3
}

/// Whether port `n` holds a player (its type byte names a human, a CPU or a demo player).
pub open spec fn port_occupied(b: Seq<u8>, n: int) -> bool {
    b[player_block(b, n) + 1] <= 2
}

/// Whether port `n` holds the Ice Climbers, which bring a follower character.
pub open spec fn port_has_follower(b: Seq<u8>, n: int) -> bool {
    port_occupied(b, n) && b[player_block(b, n)] == ICE_CLIMBERS
}

/// Whether the version is 3.18 or later (the stage events exist).
pub open spec fn has_stage_events(b: Seq<u8>) -> bool {
    b[start_at(b) + 1] > 3 || b[start_at(b) + 2] >= 18
}

/// What the walk over the events needs of the header and the game start.
pub struct StreamCfg {
    pub raw_len: int,
    pub sizes: Seq<int>,
    pub occupied: Seq<bool>,
    pub follower: Seq<bool>,
    pub stage_events: bool,
}

pub open spec fn cfg_of(b: Seq<u8>) -> StreamCfg {
    StreamCfg {
        raw_len: raw_len(b),
        sizes: Seq::new(256, |c: int| declared_size(b, table_entries(b), c)),
        occupied: Seq::new(4, |n: int| port_occupied(b, n)),
        follower: Seq::new(4, |n: int| port_has_follower(b, n)),
        stage_events: has_stage_events(b),
    }
}

/// No character has sent a pre-frame or post-frame event yet.
pub open spec fn no_slots() -> Seq<bool> {
    Seq::new(8, |k: int| false)
}

/// A message splitter: 516 bytes, at most 512 of them used, and, where it is the last
/// piece, a wrapped event that is no frame event and no game end.
pub open spec fn splitter_ok(b: Seq<u8>, p: int, size: int) -> bool {
    &&& size == 516
    &&& be16(b, p + 512) <= 512
    &&& b[p + 515] != 0 ==> !frame_or_end_code(b[p + 514])
}

/// The codes of the frame events and of the game end.
pub open spec fn frame_or_end_code(code: u8) -> bool {
    code == FRAME_PRE || code == FRAME_POST || code == GAME_END || code == FRAME_START
        || code == ITEM || code == FRAME_END || code == FOD_PLATFORM || code == DREAMLAND_WHISPY
        || code == STADIUM_TRANSFORMATION
}

/// The port of a pre-frame or post-frame event whose payload starts at `p` holds a
/// player, and a follower where the event is a follower's.
pub open spec fn character_ok(b: Seq<u8>, c: StreamCfg, p: int) -> bool {
    &&& b[p + 4] < 4
    &&& c.occupied[b[p + 4] as int]
    &&& b[p + 5] != 0 ==> c.follower[b[p + 4] as int]
}

/// The slot of that character: two per port, leader then follower.
pub open spec fn character_slot(b: Seq<u8>, p: int) -> int {
    b[p + 4] as int * 2 + if b[p + 5] != 0 { 1int } else { 0int }
}

/// Walks the events from `pos` (the frame open or not, with id `id`, and the characters
/// that sent a pre-frame or post-frame event in it), as the decoder's event loop does:
/// until the `raw` length is consumed or a game end is read. Gives where the decoder
/// goes on after the loop, or `None` where the events leave the shape it handles:
/// every frame opened by a frame start and closed by a frame end, its other events
/// carrying its id, each character sending at most one pre-frame and one post-frame
/// event in it and both or neither, ports and followers that exist, stage events only
/// from version 3.18, well-formed message splitters, and no event cut short.
pub open spec fn walk(
    b: Seq<u8>,
    c: StreamCfg,
    pos: int,
    open: bool,
    id: int,
    pre: Seq<bool>,
    post: Seq<bool>,
) -> Option<int>
    decreases b.len() - pos,
{
    if pos < 15 || pos > b.len() {
        None
    } else if pos - 15 >= c.raw_len {
        if open { None } else { Some(pos) }
    } else if pos == b.len() {
        None
    } else {
        let code = b[pos];
        let size = c.sizes[code as int];
        let p = pos + 1;
        let next = p + size;
        if size <= 0 || next > b.len() {
            None
        } else if code == GAME_END {
            if open { None } else { Some(next) }
        } else if code == EVENT_PAYLOADS || code == GAME_START {
            None
        } else if code == MESSAGE_SPLITTER {
            if splitter_ok(b, p, size) { walk(b, c, next, open, id, pre, post) } else { None }
        } else if code == FRAME_START {
            if open || size < 4 { None } else { walk(b, c, next, true, be32(b, p), no_slots(), no_slots()) }
        } else if code == FRAME_PRE || code == FRAME_POST {
            if !open || size < 6 || be32(b, p) != id || !character_ok(b, c, p) {
                None
            } else if code == FRAME_PRE {
                if pre[character_slot(b, p)] {
                    None
                } else {
                    walk(b, c, next, open, id, pre.update(character_slot(b, p), true), post)
                }
            } else {
                if post[character_slot(b, p)] {
                    None
                } else {
                    walk(b, c, next, open, id, pre, post.update(character_slot(b, p), true))
                }
            }
        } else if code == ITEM || code == FOD_PLATFORM || code == DREAMLAND_WHISPY
            || code == STADIUM_TRANSFORMATION {
            if !open || size < 4 || be32(b, p) != id || (code != ITEM && !c.stage_events) {
                None
            } else {
                walk(b, c, next, open, id, pre, post)
            }
        } else if code == FRAME_END {
            if !open || size < 4 || be32(b, p) != id || pre != post {
                None
            } else {
                walk(b, c, next, false, id, pre, post)
            }
        } else {
            walk(b, c, next, open, id, pre, post)
        }
    }
}

/// Where the decoder reads the metadata, after the event loop stopped at `e`: past the
/// whole `raw` element where the loop stopped inside it.
pub open spec fn metadata_at(b: Seq<u8>, e: int) -> int {
    if e - 15 < raw_len(b) { 15 + raw_len(b) } else { e }
}

/// A UBJSON map from `pos` (its opening brace already read), as the decoder reads the
/// metadata: keys of `U` and a length, values that are `S` `U` strings, `l` integers or
/// maps, nested at most `depth` deep. Gives the position after its closing brace.
pub open spec fn ubjson_map(b: Seq<u8>, pos: int, depth: nat) -> Option<int>
    decreases depth, b.len() - pos,
{
    if pos < 0 || pos >= b.len() {
        None
    } else if b[pos] == 0x7d {
        Some(pos + 1)
    } else if b[pos] != 0x55 || pos + 1 >= b.len() {
        None
    } else {
        let v = pos + 2 + b[pos + 1] as int;
        if v >= b.len() {
            None
        } else if b[v] == 0x53 {
            if v + 2 >= b.len() || b[v + 1] != 0x55 || v + 3 + b[v + 2] as int > b.len() {
                None
            } else {
                ubjson_map(b, v + 3 + b[v + 2] as int, depth)
            }
        } else if b[v] == 0x6c {
            if v + 5 > b.len() { None } else { ubjson_map(b, v + 5, depth) }
        } else if b[v] == 0x7b {
            if depth == 0 {
                None
            } else {
                match ubjson_map(b, v + 1, (depth - 1) as nat) {
                    Some(e) => if pos < e <= b.len() { ubjson_map(b, e, depth) } else { None },
                    None => None,
                }
            }
        } else {
            None
        }
    }
}

/// The key that opens the metadata element, after its `U`: `metadata` and `{`.
pub open spec fn metadata_key() -> Seq<u8> {
    seq![0x08u8, 0x6du8, 0x65u8, 0x74u8, 0x61u8, 0x64u8, 0x61u8, 0x74u8, 0x61u8, 0x7bu8]
}

/// The end of the file: either no metadata, or a metadata map nested at most
/// `METADATA_DEPTH` deep, followed by the closing brace.
pub open spec fn metadata_ok(b: Seq<u8>, m: int) -> bool {
    &&& 0 <= m < b.len()
    &&& b[m] == 0x7d || {
        &&& b[m] == 0x55
        &&& m + 11 <= b.len()
        &&& b.subrange(m + 1, m + 11) == metadata_key()
        &&& match ubjson_map(b, m + 11, METADATA_DEPTH as nat) {
            Some(e) => e < b.len() && b[e] == 0x7d,
            None => false,
        }
    }
}

/// The shape of a `.slp` file that peppi's decoder reads without panicking: a complete
/// header and payload table, a game start of version 3.0 or later, events that keep the
/// frame columns aligned (see `walk`), and metadata of bounded depth.
pub open spec fn replay_stream_ok(b: Seq<u8>) -> bool {
    &&& table_ok(b)
    &&& start_ok(b)
    &&& match walk(b, cfg_of(b), start_at(b) + 1 + start_size(b), false, 0, no_slots(), no_slots()) {
        Some(e) => metadata_ok(b, metadata_at(b, e)),
        None => false,
    }
}

/// The configuration that the exec walk carries, as the spec walk reads it.
pub open spec fn cfg_from(raw: u32, sizes: Seq<u32>, occupied: Seq<bool>, follower: Seq<bool>, stage_events: bool) -> StreamCfg {
    StreamCfg {
        raw_len: raw as int,
        sizes: sizes.map_values(|x: u32| x as int),
        occupied,
        follower,
        stage_events,
    }
}

fn be16_at(b: &[u8], i: usize) -> (r: u32)
    requires
        i + 1 < b.len(),
    ensures
        r as int == be16(b@, i as int),
{
    b[i] as u32 * 256 + b[i + 1] as u32
}

fn be32_at(b: &[u8], i: usize) -> (r: u32)
    requires
        i + 3 < b.len(),
    ensures
        r as int == be32(b@, i as int),
{
    let hi = be16_at(b, i);
    let lo = be16_at(b, i + 2);
    hi * 65536 + lo
}

/// Eight empty character slots.
fn empty_slots() -> (res: Vec<bool>)
    ensures
        res@ == no_slots(),
{
    let mut v: Vec<bool> = Vec::new();
    let mut k: usize = 0;
    while k < 8
        invariant
            k <= 8,
            v@ == Seq::new(k as nat, |j: int| false),
        decreases 8 - k,
    {
        v.push(false);
        k = k + 1;
        assert(v@ =~= Seq::new(k as nat, |j: int| false));
    }
    assert(v@ =~= no_slots());
    v
}

/// Whether two slot vectors hold the same flags.
fn same_slots(a: &Vec<bool>, b: &Vec<bool>) -> (r: bool)
    requires
        a@.len() == 8,
        b@.len() == 8,
    ensures
        r == (a@ == b@),
{
    let mut k: usize = 0;
    while k < 8
        invariant
            k <= 8,
            a@.len() == 8,
            b@.len() == 8,
            forall|j: int| 0 <= j < k ==> a@[j] == b@[j],
        decreases 8 - k,
    {
        if a[k] != b[k] {
            return false;
        }
        k = k + 1;
    }
    assert(a@ =~= b@);
    true
}

/// Whether `code` is a frame event or the game end.
fn is_frame_or_end_code(code: u8) -> (r: bool)
    ensures
        r == frame_or_end_code(code),
{
    code == FRAME_PRE || code == FRAME_POST || code == GAME_END || code == FRAME_START
        || code == ITEM || code == FRAME_END || code == FOD_PLATFORM || code == DREAMLAND_WHISPY
        || code == STADIUM_TRANSFORMATION
}

/// Runs `walk` from `start` with no frame open.
fn walk_events(
    b: &[u8],
    raw: u32,
    sizes: &Vec<u32>,
    occupied: &Vec<bool>,
    follower: &Vec<bool>,
    stage_events: bool,
    start: usize,
) -> (res: Option<usize>)
    requires
        sizes@.len() == 256,
        occupied@.len() == 4,
        follower@.len() == 4,
        15 <= start <= b.len(),
        forall|c: int| 0 <= c < 256 ==> #[trigger] sizes@[c] <= 65535,
    ensures
        ({
            let w = walk(b@, cfg_from(raw, sizes@, occupied@, follower@, stage_events), start as int,
                false, 0, no_slots(), no_slots());
            match res {
                Some(e) => w == Some(e as int) && 15 <= e,
                None => w is None,
            }
        }),
{
    let ghost c = cfg_from(raw, sizes@, occupied@, follower@, stage_events);
    let ghost goal = walk(b@, c, start as int, false, 0, no_slots(), no_slots());
    let mut pos: usize = start;
    let mut open: bool = false;
    let mut id: u32 = 0;
    let mut pre = empty_slots();
    let mut post = empty_slots();
    loop
        invariant
            sizes@.len() == 256,
            occupied@.len() == 4,
            follower@.len() == 4,
            forall|c: int| 0 <= c < 256 ==> #[trigger] sizes@[c] <= 65535,
            c == cfg_from(raw, sizes@, occupied@, follower@, stage_events),
            goal == walk(b@, c, start as int, false, 0, no_slots(), no_slots()),
            15 <= pos <= b.len(),
            pre@.len() == 8,
            post@.len() == 8,
            walk(b@, c, pos as int, open, id as int, pre@, post@) == goal,
        decreases b.len() - pos,
    {
        if pos - 15 >= raw as usize {
            return if open { None } else { Some(pos) };
        }
        if pos == b.len() {
            return None;
        }
        let code = b[pos];
        let size = sizes[code as usize] as usize;
        assert(c.sizes[code as int] == size as int);
        if size == 0 || size > b.len() - pos - 1 {
            return None;
        }
        let p = pos + 1;
        let next = p + size;
        if code == GAME_END {
            return if open { None } else { Some(next) };
        } else if code == EVENT_PAYLOADS || code == GAME_START {
            return None;
        } else if code == MESSAGE_SPLITTER {
            if size != 516 || be16_at(b, p + 512) > 512 || (b[p + 515] != 0 && is_frame_or_end_code(b[p + 514])) {
                return None;
            }
        } else if code == FRAME_START {
            if open || size < 4 {
                return None;
            }
            id = be32_at(b, p);
            open = true;
            pre = empty_slots();
            post = empty_slots();
        } else if code == FRAME_PRE || code == FRAME_POST {
            if !open || size < 6 || be32_at(b, p) != id {
                return None;
            }
            let port = b[p + 4];
            if port >= 4 || !occupied[port as usize] || (b[p + 5] != 0 && !follower[port as usize]) {
                return None;
            }
            let slot: usize = port as usize * 2 + if b[p + 5] != 0 { 1 } else { 0 };
            assert(slot as int == character_slot(b@, p as int));
            if code == FRAME_PRE {
                if pre[slot] {
                    return None;
                }
                pre.set(slot, true);
            } else {
                if post[slot] {
                    return None;
                }
                post.set(slot, true);
            }
        } else if code == ITEM || code == FOD_PLATFORM || code == DREAMLAND_WHISPY
            || code == STADIUM_TRANSFORMATION {
            if !open || size < 4 || be32_at(b, p) != id || (code != ITEM && !stage_events) {
                return None;
            }
        } else if code == FRAME_END {
            if !open || size < 4 || be32_at(b, p) != id || !same_slots(&pre, &post) {
                return None;
            }
            open = false;
        }
        pos = next;
    }
}

/// Reads a metadata map from `pos` as `ubjson_map` does.
fn read_ubjson_map(b: &[u8], pos: usize, depth: u8) -> (res: Option<usize>)
    ensures
        match res {
            Some(e) => ubjson_map(b@, pos as int, depth as nat) == Some(e as int),
            None => ubjson_map(b@, pos as int, depth as nat) is None,
        },
    decreases depth, b.len() - pos,
{
    if pos >= b.len() {
        return None;
    }
    if b[pos] == 0x7d {
        return Some(pos + 1);
    }
    if b[pos] != 0x55 || pos + 1 >= b.len() {
        return None;
    }
    let key_len = b[pos + 1] as usize;
    if key_len + 2 >= b.len() - pos {
        return None;
    }
    let v = pos + 2 + key_len;
    if b[v] == 0x53 {
        if 2 >= b.len() - v || b[v + 1] != 0x55 {
            return None;
        }
        let str_len = b[v + 2] as usize;
        if str_len + 3 > b.len() - v {
            return None;
        }
        read_ubjson_map(b, v + 3 + str_len, depth)
    } else if b[v] == 0x6c {
        if 5 > b.len() - v {
            return None;
        }
        read_ubjson_map(b, v + 5, depth)
    } else if b[v] == 0x7b {
        if depth == 0 {
            return None;
        }
        match read_ubjson_map(b, v + 1, depth - 1) {
            Some(e) => {
                if pos < e && e <= b.len() {
                    read_ubjson_map(b, e, depth)
                } else {
                    None
                }
            },
            None => None,
        }
    } else {
        None
    }
}

/// Whether the file ends as `metadata_ok` says, from `m`.
fn metadata_ends_well(b: &[u8], m: usize) -> (r: bool)
    ensures
        r == metadata_ok(b@, m as int),
{
    if m >= b.len() {
        return false;
    }
    if b[m] == 0x7d {
        return true;
    }
    if b[m] != 0x55 || 11 > b.len() - m {
        return false;
    }
    let key_ok = b[m + 1] == 0x08 && b[m + 2] == 0x6d && b[m + 3] == 0x65 && b[m + 4] == 0x74
        && b[m + 5] == 0x61 && b[m + 6] == 0x64 && b[m + 7] == 0x61 && b[m + 8] == 0x74
        && b[m + 9] == 0x61 && b[m + 10] == 0x7b;
    assert(key_ok <==> b@.subrange(m + 1, m + 11) =~= metadata_key());
    if !key_ok {
        return false;
    }
    match read_ubjson_map(b, m + 11, METADATA_DEPTH) {
        Some(e) => e < b.len() && b[e] == 0x7d,
        None => false,
    }
}

/// Whether peppi's decoder reads `bytes` without panicking, as `replay_stream_ok` states
/// that shape.
pub fn check_replay_stream(b: &[u8]) -> (res: bool)
    ensures
        res == replay_stream_ok(b@),
{
    if b.len() < 17 {
        return false;
    }
    let sig_ok = b[0] == 0x7b && b[1] == 0x55 && b[2] == 0x03 && b[3] == 0x72 && b[4] == 0x61
        && b[5] == 0x77 && b[6] == 0x5b && b[7] == 0x24 && b[8] == 0x55 && b[9] == 0x23
        && b[10] == 0x6c;
    assert(sig_ok <==> b@.subrange(0, 11) =~= file_signature());
    if !sig_ok {
        return false;
    }
    let raw = be32_at(b, 11);
    if raw == 0 || b[15] != EVENT_PAYLOADS {
        return false;
    }
    let s = b[16] as usize;
    if s % 3 != 1 || s > b.len() - 16 {
        return false;
    }
    let n = (s - 1) / 3;
    assert(n == table_entries(b@));
    let mut sizes: Vec<u32> = Vec::new();
    let mut c: usize = 0;
    while c < 256
        invariant
            c <= 256,
            sizes@.len() == c,
            forall|j: int| 0 <= j < c ==> #[trigger] sizes@[j] == 0,
        decreases 256 - c,
    {
        sizes.push(0);
        c = c + 1;
    }
    let mut k: usize = 0;
    while k < n
        invariant
            k <= n,
            n == table_entries(b@),
            17 + 3 * n <= 16 + s <= b.len(),
            s == table_size(b@),
            sizes@.len() == 256,
            forall|j: int| 0 <= j < 256 ==> #[trigger] sizes@[j] as int == declared_size(b@, k as int, j),
            forall|j: int| 0 <= j < k ==> #[trigger] entry_size(b@, j) != 0,
        decreases n - k,
    {
        let code = b[17 + 3 * k];
        let size = be16_at(b, 18 + 3 * k);
        assert(size as int == entry_size(b@, k as int));
        if size == 0 {
            return false;
        }
        sizes.set(code as usize, size);
        k = k + 1;
        assert forall|j: int| 0 <= j < 256 implies #[trigger] sizes@[j] as int == declared_size(b@, k as int, j) by {
            assert(entry_code(b@, k - 1) == code as int);
        }
    }
    let start_size = sizes[GAME_START as usize] as usize;
    if start_size == 0 || sizes[GAME_END as usize] == 0 {
        return false;
    }
    assert(table_ok(b@));
    let st = 16 + s;
    if st >= b.len() || b[st] != GAME_START || start_size < 316 || start_size > b.len() - st - 1
        || b[st + 1] < 3 {
        return false;
    }
    assert(start_ok(b@));
    let mut occupied: Vec<bool> = Vec::new();
    let mut follower: Vec<bool> = Vec::new();
    let mut port: usize = 0;
    while port < 4
        invariant
            port <= 4,
            st == start_at(b@),
            st + 1 + start_size <= b.len(),
            start_size >= 316,
            occupied@.len() == port,
            follower@.len() == port,
            forall|j: int| 0 <= j < port ==> #[trigger] occupied@[j] == port_occupied(b@, j),
            forall|j: int| 0 <= j < port ==> #[trigger] follower@[j] == port_has_follower(b@, j),
        decreases 4 - port,
    {
        let block = st + 101 + 36 * port;
        assert(block as int == player_block(b@, port as int));
        let occ = b[block + 1] <= 2;
        occupied.push(occ);
        follower.push(occ && b[block] == ICE_CLIMBERS);
        port = port + 1;
    }
    let stage_events = b[st + 1] > 3 || b[st + 2] >= 18;
    let ghost cfg = cfg_from(raw, sizes@, occupied@, follower@, stage_events);
    assert(cfg.sizes =~= cfg_of(b@).sizes);
    assert(cfg.occupied =~= cfg_of(b@).occupied);
    assert(cfg.follower =~= cfg_of(b@).follower);
    assert(cfg == cfg_of(b@));
    proof {
        assert forall|j: int| 0 <= j < 256 implies #[trigger] sizes@[j] <= 65535 by {
            lemma_declared_size_bound(b@, n as int, j);
        }
    }
    let e = match walk_events(b, raw, &sizes, &occupied, &follower, stage_events, st + 1 + start_size) {
        Some(e) => e,
        None => return false,
    };
    let m: usize = if e - 15 < raw as usize {
        if raw as usize > b.len() - 15 {
            return false;
        }
        15 + raw as usize
    } else {
        e
    };
    metadata_ends_well(b, m)
}

proof fn lemma_declared_size_bound(b: Seq<u8>, k: int, code: int)
    ensures
        0 <= declared_size(b, k, code) <= 65535,
    decreases k,
{
    if k > 0 {
        lemma_declared_size_bound(b, k - 1, code);
    }
}

/// `o` moved by `k` bytes.
pub open spec fn shifted(o: Option<int>, k: int) -> Option<int> {
    match o {
        Some(e) => Some(e + k),
        None => None,
    }
}

/// A metadata entry whose value is an integer: `U`, the key's length, the key, `l` and
/// the four bytes of the number.
pub open spec fn int_entry(key: Seq<u8>, value: Seq<u8>) -> Seq<u8> {
    seq![0x55u8, key.len() as u8] + key + seq![0x6cu8] + value
}

/// The map reading depends only on the bytes from where it starts: the same bytes at
/// another place read the same, moved by the distance between the places.
pub proof fn lemma_ubjson_map_shift(b1: Seq<u8>, p1: int, b2: Seq<u8>, p2: int, depth: nat)
    requires
        0 <= p1 <= b1.len(),
        0 <= p2,
        b1.len() - p1 == b2.len() - p2,
        forall|j: int| p1 <= j < b1.len() ==> #[trigger] b1[j] == b2[j + (p2 - p1)],
    ensures
        ubjson_map(b2, p2, depth) == shifted(ubjson_map(b1, p1, depth), p2 - p1),
    decreases depth, b1.len() - p1,
{
    let k = p2 - p1;
    if p1 >= b1.len() {
    } else {
        assert(b2[p2] == b1[p1]);
        if b1[p1] == 0x7d || b1[p1] != 0x55 || p1 + 1 >= b1.len() {
            if p1 + 1 < b1.len() {
                assert(b2[p2 + 1] == b1[p1 + 1]);
            }
        } else {
            assert(b2[p2 + 1] == b1[p1 + 1]);
            let v1 = p1 + 2 + b1[p1 + 1] as int;
            let v2 = p2 + 2 + b2[p2 + 1] as int;
            assert(v2 == v1 + k);
            if v1 < b1.len() {
                assert(b2[v2] == b1[v1]);
                if b1[v1] == 0x53 {
                    if v1 + 2 < b1.len() {
                        assert(b2[v2 + 1] == b1[v1 + 1]);
                        assert(b2[v2 + 2] == b1[v1 + 2]);
                        let n1 = v1 + 3 + b1[v1 + 2] as int;
                        if b1[v1 + 1] == 0x55 && n1 <= b1.len() {
                            lemma_ubjson_map_shift(b1, n1, b2, n1 + k, depth);
                        }
                    }
                } else if b1[v1] == 0x6c {
                    if v1 + 5 <= b1.len() {
                        lemma_ubjson_map_shift(b1, v1 + 5, b2, v1 + 5 + k, depth);
                    }
                } else if b1[v1] == 0x7b {
                    if depth > 0 {
                        lemma_ubjson_map_shift(b1, v1 + 1, b2, v1 + 1 + k, (depth - 1) as nat);
                        match ubjson_map(b1, v1 + 1, (depth - 1) as nat) {
                            Some(e) => {
                                if p1 < e <= b1.len() {
                                    lemma_ubjson_map_shift(b1, e, b2, e + k, depth);
                                }
                            },
                            None => {},
                        }
                    }
                }
            }
        }
    }
}

/// An integer entry of a metadata map is the key and five bytes: the `l` and the four
/// bytes of the number. Reading goes on right after them.
pub proof fn lemma_int_entry_is_five_bytes(b: Seq<u8>, pos: int, depth: nat)
    requires
        0 <= pos,
        pos + 1 < b.len(),
        b[pos] == 0x55,
        pos + 2 + b[pos + 1] as int + 5 <= b.len(),
        b[pos + 2 + b[pos + 1] as int] == 0x6c,
    ensures
        ubjson_map(b, pos, depth) == ubjson_map(b, pos + 2 + b[pos + 1] as int + 5, depth),
{
}

/// Adding an integer entry at the start of a metadata map reads as the map did, ending
/// as many bytes later as were added.
pub proof fn lemma_int_entry_added(b: Seq<u8>, pos: int, key: Seq<u8>, value: Seq<u8>, depth: nat)
    requires
        0 <= pos <= b.len(),
        key.len() < 256,
        value.len() == 4,
    ensures
        ubjson_map(b.subrange(0, pos) + int_entry(key, value) + b.subrange(pos, b.len() as int), pos, depth)
            == shifted(ubjson_map(b, pos, depth), int_entry(key, value).len() as int),
{
    let e = int_entry(key, value);
    let b2 = b.subrange(0, pos) + e + b.subrange(pos, b.len() as int);
    let len_e = e.len() as int;
    assert(len_e == key.len() + 7);
    assert(b2.len() == b.len() + len_e);
    assert(b2[pos] == 0x55);
    assert(b2[pos + 1] == key.len() as u8);
    assert(b2[pos + 1] as int == key.len());
    assert(b2[pos + 2 + key.len()] == 0x6c);
    lemma_int_entry_is_five_bytes(b2, pos, depth);
    assert forall|j: int| pos <= j < b.len() implies #[trigger] b[j] == b2[j + (pos + len_e - pos)] by {}
    lemma_ubjson_map_shift(b, pos, b2, pos + len_e, depth);
}

/// Adding an integer entry to the metadata of a file keeps its end well-formed.
pub proof fn lemma_int_entry_keeps_metadata(b: Seq<u8>, m: int, key: Seq<u8>, value: Seq<u8>)
    requires
        metadata_ok(b, m),
        b[m] == 0x55,
        key.len() < 256,
        value.len() == 4,
    ensures
        metadata_ok(b.subrange(0, m + 11) + int_entry(key, value) + b.subrange(m + 11, b.len() as int), m),
{
    let e = int_entry(key, value);
    let b2 = b.subrange(0, m + 11) + e + b.subrange(m + 11, b.len() as int);
    lemma_int_entry_added(b, m + 11, key, value, METADATA_DEPTH as nat);
    assert(b2.subrange(m + 1, m + 11) =~= b.subrange(m + 1, m + 11));
    let end = ubjson_map(b, m + 11, METADATA_DEPTH as nat)->0;
    lemma_ubjson_map_end_after(b, m + 11, METADATA_DEPTH as nat);
    assert(b2[end + e.len()] == b[end]);
}

/// A map that reads ends no earlier than it starts.
proof fn lemma_ubjson_map_end_after(b: Seq<u8>, pos: int, depth: nat)
    ensures
        ubjson_map(b, pos, depth) matches Some(e) ==> pos < e <= b.len(),
    decreases depth, b.len() - pos,
{
    if 0 <= pos < b.len() && b[pos] != 0x7d && b[pos] == 0x55 && pos + 1 < b.len() {
        let v = pos + 2 + b[pos + 1] as int;
        if v < b.len() {
            if b[v] == 0x53 {
                if v + 2 < b.len() && b[v + 1] == 0x55 && v + 3 + b[v + 2] as int <= b.len() {
                    lemma_ubjson_map_end_after(b, v + 3 + b[v + 2] as int, depth);
                }
            } else if b[v] == 0x6c {
                if v + 5 <= b.len() {
                    lemma_ubjson_map_end_after(b, v + 5, depth);
                }
            } else if b[v] == 0x7b && depth > 0 {
                match ubjson_map(b, v + 1, (depth - 1) as nat) {
                    Some(e) => {
                        if pos < e <= b.len() {
                            lemma_ubjson_map_end_after(b, e, depth);
                        }
                    },
                    None => {},
                }
            }
        }
    }
}

/// Where the decoder reads the metadata of `b`, once the events have walked to their end.
pub open spec fn metadata_start(b: Seq<u8>) -> int {
    metadata_at(b, walk(b, cfg_of(b), start_at(b) + 1 + start_size(b), false, 0, no_slots(), no_slots())->0)
}

/// `b` with `e` put in at position `at`.
pub open spec fn inserted(b: Seq<u8>, at: int, e: Seq<u8>) -> Seq<u8> {
    b.subrange(0, at) + e + b.subrange(at, b.len() as int)
}

/// The walk over the events ends no earlier than it starts, and within the bytes.
proof fn lemma_walk_end_after(b: Seq<u8>, c: StreamCfg, pos: int, open: bool, id: int, pre: Seq<bool>, post: Seq<bool>)
    ensures
        walk(b, c, pos, open, id, pre, post) matches Some(e) ==> pos <= e <= b.len(),
    decreases b.len() - pos,
{
    if 15 <= pos < b.len() && pos - 15 < c.raw_len {
        let code = b[pos];
        let size = c.sizes[code as int];
        let p = pos + 1;
        let next = p + size;
        if size > 0 && next <= b.len() {
            if code == FRAME_START {
                lemma_walk_end_after(b, c, next, true, be32(b, p), no_slots(), no_slots());
            } else if code == FRAME_PRE && 6 <= size {
                lemma_walk_end_after(b, c, next, open, id, pre.update(character_slot(b, p), true), post);
            } else if code == FRAME_POST && 6 <= size {
                lemma_walk_end_after(b, c, next, open, id, pre, post.update(character_slot(b, p), true));
            } else if code == FRAME_END {
                lemma_walk_end_after(b, c, next, false, id, pre, post);
            } else {
                lemma_walk_end_after(b, c, next, open, id, pre, post);
            }
        }
    }
}

/// The walk over the events reads no byte at or past where it ends: another file that
/// agrees up to `k`, at least as far as the walk went, walks the same.
proof fn lemma_walk_prefix(b1: Seq<u8>, b2: Seq<u8>, k: int, c: StreamCfg, pos: int, open: bool, id: int, pre: Seq<bool>, post: Seq<bool>)
    requires
        walk(b1, c, pos, open, id, pre, post) matches Some(e) && e <= k,
        k <= b1.len(),
        k <= b2.len(),
        forall|j: int| 0 <= j < k ==> #[trigger] b1[j] == b2[j],
    ensures
        walk(b2, c, pos, open, id, pre, post) == walk(b1, c, pos, open, id, pre, post),
    decreases b1.len() - pos,
{
    lemma_walk_end_after(b1, c, pos, open, id, pre, post);
    if pos - 15 >= c.raw_len {
    } else {
        assert(15 <= pos < b1.len());
        let code = b1[pos];
        let size = c.sizes[code as int];
        let p = pos + 1;
        let next = p + size;
        if code != GAME_END {
            lemma_walk_end_after(b1, c, next, open, id, pre, post);
            lemma_walk_end_after(b1, c, next, true, be32(b1, p), no_slots(), no_slots());
            lemma_walk_end_after(b1, c, next, false, id, pre, post);
            if code == FRAME_PRE || code == FRAME_POST {
                lemma_walk_end_after(b1, c, next, open, id, pre.update(character_slot(b1, p), true), post);
                lemma_walk_end_after(b1, c, next, open, id, pre, post.update(character_slot(b1, p), true));
            }
        }
        assert(0 < size && next <= k);
        assert(b2[pos] == code);
        if size >= 4 && next <= k {
            assert(b1[p] == b2[p] && b1[p + 1] == b2[p + 1] && b1[p + 2] == b2[p + 2] && b1[p + 3] == b2[p + 3]);
            assert(be32(b1, p) == be32(b2, p));
        }
        if size >= 6 && next <= k {
            assert(b1[p + 4] == b2[p + 4] && b1[p + 5] == b2[p + 5]);
            assert(character_slot(b1, p) == character_slot(b2, p));
        }
        if size == 516 && next <= k {
            assert(b1[p + 512] == b2[p + 512] && b1[p + 513] == b2[p + 513]);
            assert(b1[p + 514] == b2[p + 514] && b1[p + 515] == b2[p + 515]);
        }
        if code == GAME_END {
        } else if code == FRAME_START {
            lemma_walk_prefix(b1, b2, k, c, next, true, be32(b1, p), no_slots(), no_slots());
        } else if code == FRAME_PRE && size >= 6 && next <= k {
            lemma_walk_prefix(b1, b2, k, c, next, open, id, pre.update(character_slot(b1, p), true), post);
        } else if code == FRAME_POST && size >= 6 && next <= k {
            lemma_walk_prefix(b1, b2, k, c, next, open, id, pre, post.update(character_slot(b1, p), true));
        } else if code == FRAME_END {
            lemma_walk_prefix(b1, b2, k, c, next, false, id, pre, post);
        } else if code != FRAME_PRE && code != FRAME_POST {
            lemma_walk_prefix(b1, b2, k, c, next, open, id, pre, post);
        }
    }
}

proof fn lemma_declared_size_prefix(b1: Seq<u8>, b2: Seq<u8>, n: int, code: int)
    requires
        0 <= n,
        17 + 3 * n <= b1.len(),
        17 + 3 * n <= b2.len(),
        forall|j: int| 0 <= j < 17 + 3 * n ==> #[trigger] b1[j] == b2[j],
    ensures
        declared_size(b1, n, code) == declared_size(b2, n, code),
    decreases n,
{
    if n > 0 {
        let i = 17 + 3 * (n - 1);
        assert(b1[i] == b2[i] && b1[i + 1] == b2[i + 1] && b1[i + 2] == b2[i + 2]);
        lemma_declared_size_prefix(b1, b2, n - 1, code);
    }
}

/// Adding an integer entry to the metadata of a file that passes the check keeps it
/// passing: such an entry is the key and five bytes, and nothing before the metadata moves.
pub proof fn lemma_int_entry_keeps_stream(b: Seq<u8>, key: Seq<u8>, value: Seq<u8>)
    requires
        replay_stream_ok(b),
        b[metadata_start(b)] == 0x55,
        key.len() < 256,
        value.len() == 4,
    ensures
        replay_stream_ok(inserted(b, metadata_start(b) + 11, int_entry(key, value))),
{
    let m = metadata_start(b);
    let b2 = inserted(b, m + 11, int_entry(key, value));
    let start = start_at(b) + 1 + start_size(b);
    let w = walk(b, cfg_of(b), start, false, 0, no_slots(), no_slots());
    let e = w->0;
    lemma_walk_end_after(b, cfg_of(b), start, false, 0, no_slots(), no_slots());
    assert(m + 11 <= b.len());
    assert(b2.len() == b.len() + int_entry(key, value).len());
    assert forall|j: int| 0 <= j < m + 11 implies #[trigger] b[j] == b2[j] by {}
    // The header, the payload table and the game start lie before the events.
    assert(b2.subrange(0, 11) =~= b.subrange(0, 11));
    assert(b[11] == b2[11] && b[12] == b2[12] && b[13] == b2[13] && b[14] == b2[14]);
    assert(b[15] == b2[15] && b[16] == b2[16]);
    let n = table_entries(b);
    assert forall|j: int| 0 <= j < 17 + 3 * n implies #[trigger] b[j] == b2[j] by {}
    assert forall|code: int| #[trigger] declared_size(b, n, code) == declared_size(b2, n, code) by {
        lemma_declared_size_prefix(b, b2, n, code);
    }
    assert forall|kk: int| 0 <= kk < table_entries(b2) implies #[trigger] entry_size(b2, kk) != 0 by {
        assert(entry_size(b, kk) != 0);
        let i = 18 + 3 * kk;
        assert(b[i] == b2[i] && b[i + 1] == b2[i + 1]);
    }
    assert(table_ok(b2));
    let st = start_at(b);
    assert(b[st] == b2[st] && b[st + 1] == b2[st + 1] && b[st + 2] == b2[st + 2]);
    assert(start_ok(b2));
    assert forall|pn: int| 0 <= pn < 4 implies #[trigger] port_occupied(b, pn) == port_occupied(b2, pn)
        && port_has_follower(b, pn) == port_has_follower(b2, pn) by {
        let blk = player_block(b, pn);
        assert(b[blk] == b2[blk] && b[blk + 1] == b2[blk + 1]);
    }
    assert(cfg_of(b2).sizes =~= cfg_of(b).sizes);
    assert(cfg_of(b2).occupied =~= cfg_of(b).occupied);
    assert(cfg_of(b2).follower =~= cfg_of(b).follower);
    assert(cfg_of(b2) == cfg_of(b));
    lemma_walk_prefix(b, b2, m + 11, cfg_of(b), start, false, 0, no_slots(), no_slots());
    lemma_int_entry_keeps_metadata(b, m, key, value);
}

} // verus!


