//! The Quantum Crest desktop portal: sealed snapshot, command and reply
//! records, and the single-slot mailboxes that hand them between the
//! kernel and the desktop session.
//!
//! Every record carries a keyed root over its fields in declaration order;
//! a record verifies only when its header is current, its sequence fields
//! are live and its root matches. Each mailbox holds at most one record:
//! a publish into a full slot is refused and a take empties the slot.

use vstd::prelude::*;

verus! {

pub const QUANTUM_CREST_ABI_MAJOR: u32 = 1;
pub const QUANTUM_CREST_ABI_MINOR: u32 = 0;
pub const QUANTUM_CREST_ABI_VERSION: u32 = 0x0001_0000;

pub const QUANTUM_CREST_PAYLOAD_BYTES: usize = 128;
pub const QUANTUM_CREST_ARGUMENTS: usize = 8;

pub const SNAPSHOT_FLAG_HERMES_ONLINE: u64 = 0x1;
pub const SNAPSHOT_FLAG_DISPLAY_ONLINE: u64 = 0x2;
pub const SNAPSHOT_FLAG_BLACKLAB_DEGRADED: u64 = 0x4;
pub const SNAPSHOT_FLAG_QUARANTINE_ACTIVE: u64 = 0x8;
pub const SNAPSHOT_FLAG_DMA_REVOKED: u64 = 0x10;
pub const SNAPSHOT_FLAG_RECOVERY_PENDING: u64 = 0x20;
pub const SNAPSHOT_FLAG_LEDGER_VERIFIED: u64 = 0x40;
pub const SNAPSHOT_FLAG_FRAME_DEADLINE_AT_RISK: u64 = 0x80;
pub const SNAPSHOT_FLAG_INPUT_PREDICTION_AVAILABLE: u64 = 0x100;
pub const SNAPSHOT_FLAG_SAFE_MODE: u64 = 0x200;

pub const DESKTOP_RIGHT_OBSERVE: u64 = 0x1;
pub const DESKTOP_RIGHT_PRESENT: u64 = 0x2;
pub const DESKTOP_RIGHT_FOCUS: u64 = 0x4;
pub const DESKTOP_RIGHT_CAPTURE: u64 = 0x8;
pub const DESKTOP_RIGHT_RECOVER: u64 = 0x10;
pub const DESKTOP_RIGHT_ADMINISTER: u64 = 0x20;

pub const OPCODE_PRESENT: u32 = 1;
pub const OPCODE_ACKNOWLEDGE_PLAN: u32 = 2;
pub const OPCODE_CAPTURE_CHECKPOINT: u32 = 3;
pub const OPCODE_REQUEST_RECOVERY: u32 = 4;
pub const OPCODE_SET_FOCUS: u32 = 5;
pub const OPCODE_RELEASE_SURFACE: u32 = 6;
pub const OPCODE_QUERY_OBJECT: u32 = 7;

pub const COMMAND_FLAG_PRESENT_CERTIFICATE_ONLY: u64 = 0x1;
pub const COMMAND_FLAG_PRESENT_ALLOW_TEARING: u64 = 0x2;
pub const COMMAND_FLAG_PRESENT_RECOVERY_FRAME: u64 = 0x4;
pub const COMMAND_FLAG_PRESENT_SECURE_CONTENT: u64 = 0x8;

pub const STATUS_OK: i32 = 0;
pub const STATUS_INVALID: i32 = -1;
pub const STATUS_DENIED: i32 = -2;
pub const STATUS_STALE: i32 = -3;
pub const STATUS_BUSY: i32 = -4;
pub const STATUS_UNSUPPORTED: i32 = -5;
pub const STATUS_CORRUPT: i32 = -6;
pub const STATUS_BACKEND: i32 = -7;
pub const STATUS_DEADLINE: i32 = -8;

/// Byte sizes of the records' C layouts.
pub const SNAPSHOT_WIRE_BYTES: u32 = 256;
pub const COMMAND_WIRE_BYTES: u32 = 272;
pub const REPLY_WIRE_BYTES: u32 = 176;

pub const SNAPSHOT_DOMAIN_TAG: u64 = 0x534e_4150_5348_4f54;
pub const COMMAND_DOMAIN_TAG: u64 = 0x434f_4d4d_414e_4421;
pub const REPLY_DOMAIN_TAG: u64 = 0x5245_504c_5921_2121;
pub const FRAME_DOMAIN_TAG: u64 = 0x4652_414d_4521_2121;

pub const ABSORB_MULTIPLIER: u64 = 0x9e37_79b9_7f4a_7c15;
pub const AVALANCHE_FIRST: u64 = 0xbf58_476d_1ce4_e5b9;
pub const AVALANCHE_SECOND: u64 = 0x94d0_49bb_1331_11eb;

// ---------------------------------------------------------------------------
// The keyed sponge

/// Rotation of a word to the left by `n` bits, `0 < n < 64`.
pub open spec fn rotl(x: u64, n: u64) -> u64 {
    (x << n) | (x >> (64 - n) as u64)
}

/// Rotation of a word to the right by `n` bits, `0 < n < 64`.
pub open spec fn rotr(x: u64, n: u64) -> u64 {
    (x >> n) | (x << (64 - n) as u64)
}

/// The finalizer that spreads every input bit over the word.
#[verifier::opaque]
pub open spec fn spec_avalanche(v: u64) -> u64 {
    let a = v ^ (v >> 30u64);
    let b = a.wrapping_mul(AVALANCHE_FIRST);
    let c = b ^ (b >> 27u64);
    let d = c.wrapping_mul(AVALANCHE_SECOND);
    d ^ (d >> 31u64)
}

/// One absorption of a word into the state.
pub open spec fn spec_absorb(state: u64, word: u64) -> u64 {
    spec_avalanche(state ^ word.wrapping_mul(ABSORB_MULTIPLIER))
}

/// The initial state for a record kind.
pub open spec fn spec_domain(secret: u64, tag: u64) -> u64 {
    spec_avalanche(secret ^ rotl(tag, 23))
}

/// Absorbs the words first to last.
pub open spec fn sponge(state: u64, words: Seq<u64>) -> u64
    decreases words.len(),
{
    if words.len() == 0 {
        state
    } else {
        spec_absorb(sponge(state, words.drop_last()), words.last())
    }
}

fn avalanche(v: u64) -> (r: u64)
    ensures
        r == spec_avalanche(v),
{
    reveal(spec_avalanche);
    let mut value = v ^ (v >> 30u64);
    value = value.wrapping_mul(AVALANCHE_FIRST);
    value = value ^ (value >> 27u64);
    value = value.wrapping_mul(AVALANCHE_SECOND);
    value ^ (value >> 31u64)
}

fn rotate_left(x: u64, n: u64) -> (r: u64)
    requires
        0 < n < 64,
    ensures
        r == rotl(x, n),
{
    (x << n) | (x >> (64 - n))
}

fn rotate_right(x: u64, n: u64) -> (r: u64)
    requires
        0 < n < 64,
    ensures
        r == rotr(x, n),
{
    (x >> n) | (x << (64 - n))
}

fn domain(secret: u64, tag: u64) -> (r: u64)
    ensures
        r == spec_domain(secret, tag),
{
    avalanche(secret ^ rotate_left(tag, 23))
}

fn absorb_all(state: u64, words: &Vec<u64>) -> (r: u64)
    ensures
        r == sponge(state, words@),
{
    let mut acc = state;
    let mut i: usize = 0;
    while i < words.len()
        invariant
            i <= words@.len(),
            acc == sponge(state, words@.take(i as int)),
        decreases words@.len() - i,
    {
        proof {
            assert(words@.take(i + 1).drop_last() =~= words@.take(i as int));
        }
        acc = avalanche(acc ^ words[i].wrapping_mul(ABSORB_MULTIPLIER));
        i = i + 1;
    }
    proof {
        assert(words@.take(words@.len() as int) =~= words@);
    }
    acc
}

/// The little-endian word of up to eight bytes.
pub open spec fn le_word(bytes: Seq<u8>) -> u64
    decreases bytes.len(),
{
    if bytes.len() == 0 {
        0
    } else {
        (bytes[0] as u64) | (le_word(bytes.drop_first()) << 8u64)
    }
}

/// The payload read as consecutive little-endian words.
pub open spec fn payload_words(payload: Seq<u8>) -> Seq<u64> {
    Seq::new(payload.len() / 8, |i: int| le_word(payload.subrange(8 * i, 8 * i + 8)))
}

fn bytes_word(payload: &[u8; 128], start: usize) -> (r: u64)
    requires
        start + 8 <= 128,
    ensures
        r == le_word(payload@.subrange(start as int, start + 8)),
{
    let ghost chunk = payload@.subrange(start as int, start + 8);
    let mut word: u64 = 0;
    let mut k: usize = 8;
    while k > 0
        invariant
            start + 8 <= 128,
            chunk == payload@.subrange(start as int, start + 8),
            k <= 8,
            word == le_word(chunk.subrange(k as int, 8)),
        decreases k,
    {
        k = k - 1;
        proof {
            let tail = chunk.subrange(k as int, 8);
            assert(tail.drop_first() =~= chunk.subrange(k + 1, 8));
            assert(tail[0] == payload@[start + k]);
        }
        word = (payload[start + k] as u64) | (word << 8u64);
    }
    proof {
        assert(chunk.subrange(0, 8) =~= chunk);
    }
    word
}

fn push_words(words: &mut Vec<u64>, source: &[u64; 8])
    ensures
        final(words)@ == old(words)@ + source@,
{
    let ghost start = words@;
    let mut i: usize = 0;
    while i < 8
        invariant
            i <= 8,
            source@.len() == 8,
            words@ == start + source@.take(i as int),
        decreases 8 - i,
    {
        words.push(source[i]);
        proof {
            assert(source@.take(i + 1) =~= source@.take(i as int).push(source@[i as int]));
            assert(start + source@.take(i + 1) =~= (start + source@.take(i as int)).push(
                source@[i as int],
            ));
        }
        i = i + 1;
    }
    proof {
        assert(source@.take(8) =~= source@);
    }
}

fn push_payload(words: &mut Vec<u64>, payload: &[u8; 128])
    ensures
        final(words)@ == old(words)@ + payload_words(payload@),
{
    let ghost start = words@;
    let ghost all = payload_words(payload@);
    assert(all.len() == 16);
    let mut i: usize = 0;
    while i < 16
        invariant
            i <= 16,
            payload@.len() == 128,
            all == payload_words(payload@),
            all.len() == 16,
            words@ == start + all.take(i as int),
        decreases 16 - i,
    {
        let word = bytes_word(payload, 8 * i);
        words.push(word);
        proof {
            assert(word == all[i as int]);
            assert(all.take(i + 1) =~= all.take(i as int).push(all[i as int]));
            assert(start + all.take(i + 1) =~= (start + all.take(i as int)).push(all[i as int]));
        }
        i = i + 1;
    }
    proof {
        assert(all.take(16) =~= all);
    }
}

// ---------------------------------------------------------------------------
// Records

#[derive(Clone, Copy, Debug, PartialEq, Eq, Structural)]
pub struct QuantumGpuState {
    pub vendor_id: u16,
    pub device_id: u16,
    pub revision: u8,
    pub gsp_wire_major: u8,
    pub gsp_wire_minor: u16,
    pub gsp_epoch: u32,
    pub negotiated_features: u64,
    pub firmware_version: u64,
    pub temperature_q16: i32,
    pub pressure_q16: i32,
    pub corrected_faults: u32,
    pub fatal_faults: u32,
}

impl QuantumGpuState {
    /// The all-zero state.
    pub fn zero() -> (r: QuantumGpuState)
        ensures
            r == gpu_zero(),
    {
        QuantumGpuState {
            vendor_id: 0,
            device_id: 0,
            revision: 0,
            gsp_wire_major: 0,
            gsp_wire_minor: 0,
            gsp_epoch: 0,
            negotiated_features: 0,
            firmware_version: 0,
            temperature_q16: 0,
            pressure_q16: 0,
            corrected_faults: 0,
            fatal_faults: 0,
        }
    }
}

pub open spec fn gpu_zero() -> QuantumGpuState {
    QuantumGpuState {
        vendor_id: 0,
        device_id: 0,
        revision: 0,
        gsp_wire_major: 0,
        gsp_wire_minor: 0,
        gsp_epoch: 0,
        negotiated_features: 0,
        firmware_version: 0,
        temperature_q16: 0,
        pressure_q16: 0,
        corrected_faults: 0,
        fatal_faults: 0,
    }
}

/// The words of a GPU state, in field order; signed fields by their bits.
pub open spec fn gpu_words(g: QuantumGpuState) -> Seq<u64> {
    seq![
        g.vendor_id as u64,
        g.device_id as u64,
        g.revision as u64,
        g.gsp_wire_major as u64,
        g.gsp_wire_minor as u64,
        g.gsp_epoch as u64,
        g.negotiated_features,
        g.firmware_version,
        (g.temperature_q16 as u32) as u64,
        (g.pressure_q16 as u32) as u64,
        g.corrected_faults as u64,
        g.fatal_faults as u64,
    ]
}

#[derive(Clone, Copy, Debug, PartialEq, Eq, Structural)]
pub struct QuantumBlackLabState {
    pub policy_epoch: u64,
    pub risk: u16,
    pub severity: u8,
    pub action: u8,
    pub temporal_violations: u16,
    pub evidence_votes: u16,
    pub plan_steps: u16,
    pub required_quorum: u8,
    pub reserved0: u8,
    pub ledger_epoch: u64,
    pub ledger_root: u64,
    pub evidence_root: u64,
    pub plan_root: u64,
    pub forecast_tick: u64,
}

pub open spec fn blacklab_zero() -> QuantumBlackLabState {
    QuantumBlackLabState {
        policy_epoch: 0,
        risk: 0,
        severity: 0,
        action: 0,
        temporal_violations: 0,
        evidence_votes: 0,
        plan_steps: 0,
        required_quorum: 0,
        reserved0: 0,
        ledger_epoch: 0,
        ledger_root: 0,
        evidence_root: 0,
        plan_root: 0,
        forecast_tick: 0,
    }
}

impl QuantumBlackLabState {
    /// The all-zero state.
    pub fn zero() -> (r: QuantumBlackLabState)
        ensures
            r == blacklab_zero(),
    {
        QuantumBlackLabState {
            policy_epoch: 0,
            risk: 0,
            severity: 0,
            action: 0,
            temporal_violations: 0,
            evidence_votes: 0,
            plan_steps: 0,
            required_quorum: 0,
            reserved0: 0,
            ledger_epoch: 0,
            ledger_root: 0,
            evidence_root: 0,
            plan_root: 0,
            forecast_tick: 0,
        }
    }
}

/// The words of a BlackLab state, in field order; the reserved byte is not
/// sealed.
pub open spec fn blacklab_words(b: QuantumBlackLabState) -> Seq<u64> {
    seq![
        b.policy_epoch,
        b.risk as u64,
        b.severity as u64,
        b.action as u64,
        b.temporal_violations as u64,
        b.evidence_votes as u64,
        b.plan_steps as u64,
        b.required_quorum as u64,
        b.ledger_epoch,
        b.ledger_root,
        b.evidence_root,
        b.plan_root,
        b.forecast_tick,
    ]
}

#[derive(Clone, Copy, Debug, PartialEq, Eq, Structural)]
pub struct QuantumDisplayState {
    pub width: u32,
    pub height: u32,
    pub pitch: u32,
    pub format: u32,
    pub refresh_millihertz: u32,
    pub beam_position: u32,
    pub present_sequence: u64,
    pub frame_budget_ticks: u64,
    pub predicted_render_ticks: u64,
    pub damage_tiles: u32,
    pub total_tiles: u32,
}

pub open spec fn display_zero() -> QuantumDisplayState {
    QuantumDisplayState {
        width: 0,
        height: 0,
        pitch: 0,
        format: 0,
        refresh_millihertz: 0,
        beam_position: 0,
        present_sequence: 0,
        frame_budget_ticks: 0,
        predicted_render_ticks: 0,
        damage_tiles: 0,
        total_tiles: 0,
    }
}

impl QuantumDisplayState {
    /// The all-zero state.
    pub fn zero() -> (r: QuantumDisplayState)
        ensures
            r == display_zero(),
    {
        QuantumDisplayState {
            width: 0,
            height: 0,
            pitch: 0,
            format: 0,
            refresh_millihertz: 0,
            beam_position: 0,
            present_sequence: 0,
            frame_budget_ticks: 0,
            predicted_render_ticks: 0,
            damage_tiles: 0,
            total_tiles: 0,
        }
    }
}

/// The words of a display state, in field order.
pub open spec fn display_words(d: QuantumDisplayState) -> Seq<u64> {
    seq![
        d.width as u64,
        d.height as u64,
        d.pitch as u64,
        d.format as u64,
        d.refresh_millihertz as u64,
        d.beam_position as u64,
        d.present_sequence,
        d.frame_budget_ticks,
        d.predicted_render_ticks,
        d.damage_tiles as u64,
        d.total_tiles as u64,
    ]
}

fn push_gpu(words: &mut Vec<u64>, g: QuantumGpuState)
    ensures
        final(words)@ == old(words)@ + gpu_words(g),
{
    let ghost start = words@;
    words.push(g.vendor_id as u64);
    words.push(g.device_id as u64);
    words.push(g.revision as u64);
    words.push(g.gsp_wire_major as u64);
    words.push(g.gsp_wire_minor as u64);
    words.push(g.gsp_epoch as u64);
    words.push(g.negotiated_features);
    words.push(g.firmware_version);
    words.push((g.temperature_q16 as u32) as u64);
    words.push((g.pressure_q16 as u32) as u64);
    words.push(g.corrected_faults as u64);
    words.push(g.fatal_faults as u64);
    assert(words@ =~= start + gpu_words(g));
}

fn push_blacklab(words: &mut Vec<u64>, b: QuantumBlackLabState)
    ensures
        final(words)@ == old(words)@ + blacklab_words(b),
{
    let ghost start = words@;
    words.push(b.policy_epoch);
    words.push(b.risk as u64);
    words.push(b.severity as u64);
    words.push(b.action as u64);
    words.push(b.temporal_violations as u64);
    words.push(b.evidence_votes as u64);
    words.push(b.plan_steps as u64);
    words.push(b.required_quorum as u64);
    words.push(b.ledger_epoch);
    words.push(b.ledger_root);
    words.push(b.evidence_root);
    words.push(b.plan_root);
    words.push(b.forecast_tick);
    assert(words@ =~= start + blacklab_words(b));
}

fn push_display(words: &mut Vec<u64>, d: QuantumDisplayState)
    ensures
        final(words)@ == old(words)@ + display_words(d),
{
    let ghost start = words@;
    words.push(d.width as u64);
    words.push(d.height as u64);
    words.push(d.pitch as u64);
    words.push(d.format as u64);
    words.push(d.refresh_millihertz as u64);
    words.push(d.beam_position as u64);
    words.push(d.present_sequence);
    words.push(d.frame_budget_ticks);
    words.push(d.predicted_render_ticks);
    words.push(d.damage_tiles as u64);
    words.push(d.total_tiles as u64);
    assert(words@ =~= start + display_words(d));
}

/// The kernel's sealed view of the desktop system.
#[derive(Clone, Copy, Debug, PartialEq, Eq, Structural)]
pub struct QuantumSystemSnapshot {
    pub abi_version: u32,
    pub struct_size: u32,
    pub sequence: u64,
    pub epoch: u64,
    pub logical_tick: u64,
    pub topology_epoch: u64,
    pub capability_epoch: u64,
    pub flags: u64,
    pub gpu: QuantumGpuState,
    pub blacklab: QuantumBlackLabState,
    pub display: QuantumDisplayState,
    pub desktop_rights: u64,
    pub desktop_session: u64,
    pub desktop_generation: u32,
    pub reserved0: u32,
    pub root: u64,
}

/// The sealed words of a snapshot: every field but the size, the reserved
/// word and the root, in field order.
pub open spec fn snapshot_words(s: QuantumSystemSnapshot) -> Seq<u64> {
    seq![
        s.abi_version as u64,
        s.sequence,
        s.epoch,
        s.logical_tick,
        s.topology_epoch,
        s.capability_epoch,
        s.flags,
    ] + gpu_words(s.gpu) + blacklab_words(s.blacklab) + display_words(s.display) + seq![
        s.desktop_rights,
        s.desktop_session,
        s.desktop_generation as u64,
    ]
}

pub open spec fn spec_snapshot_root(secret: u64, s: QuantumSystemSnapshot) -> u64 {
    spec_avalanche(
        sponge(spec_domain(secret, SNAPSHOT_DOMAIN_TAG), snapshot_words(s)) ^ rotl(secret, 17),
    )
}

/// The header and liveness conditions of a snapshot, before its root.
pub open spec fn snapshot_header_ok(s: QuantumSystemSnapshot) -> bool {
    &&& s.abi_version >> 16u32 == QUANTUM_CREST_ABI_MAJOR
    &&& s.struct_size >= SNAPSHOT_WIRE_BYTES
    &&& s.sequence != 0
    &&& s.epoch != 0
    &&& s.desktop_session != 0
    &&& s.desktop_generation != 0
}

pub open spec fn snapshot_verifies(s: QuantumSystemSnapshot, secret: u64) -> bool {
    snapshot_header_ok(s) && s.root == spec_snapshot_root(secret, s)
}

/// The keyed root of a snapshot; the root field itself is not sealed.
pub fn snapshot_root(secret: u64, snapshot: &QuantumSystemSnapshot) -> (r: u64)
    ensures
        r == spec_snapshot_root(secret, *snapshot),
{
    let s = *snapshot;
    let mut words: Vec<u64> = Vec::new();
    words.push(s.abi_version as u64);
    words.push(s.sequence);
    words.push(s.epoch);
    words.push(s.logical_tick);
    words.push(s.topology_epoch);
    words.push(s.capability_epoch);
    words.push(s.flags);
    push_gpu(&mut words, s.gpu);
    push_blacklab(&mut words, s.blacklab);
    push_display(&mut words, s.display);
    let ghost middle = words@;
    words.push(s.desktop_rights);
    words.push(s.desktop_session);
    words.push(s.desktop_generation as u64);
    proof {
        assert(words@ =~= middle + seq![
            s.desktop_rights,
            s.desktop_session,
            s.desktop_generation as u64,
        ]);
        assert(words@ =~= snapshot_words(s));
    }
    let state = absorb_all(domain(secret, SNAPSHOT_DOMAIN_TAG), &words);
    avalanche(state ^ rotate_left(secret, 17))
}

pub open spec fn empty_snapshot() -> QuantumSystemSnapshot {
    QuantumSystemSnapshot {
        abi_version: QUANTUM_CREST_ABI_VERSION,
        struct_size: SNAPSHOT_WIRE_BYTES,
        sequence: 0,
        epoch: 0,
        logical_tick: 0,
        topology_epoch: 0,
        capability_epoch: 0,
        flags: 0,
        gpu: gpu_zero(),
        blacklab: blacklab_zero(),
        display: display_zero(),
        desktop_rights: 0,
        desktop_session: 0,
        desktop_generation: 0,
        reserved0: 0,
        root: 0,
    }
}

impl QuantumSystemSnapshot {
    /// A current-version snapshot with every other field zero.
    pub fn empty() -> (r: QuantumSystemSnapshot)
        ensures
            r == empty_snapshot(),
    {
        QuantumSystemSnapshot {
            abi_version: QUANTUM_CREST_ABI_VERSION,
            struct_size: SNAPSHOT_WIRE_BYTES,
            sequence: 0,
            epoch: 0,
            logical_tick: 0,
            topology_epoch: 0,
            capability_epoch: 0,
            flags: 0,
            gpu: QuantumGpuState::zero(),
            blacklab: QuantumBlackLabState::zero(),
            display: QuantumDisplayState::zero(),
            desktop_rights: 0,
            desktop_session: 0,
            desktop_generation: 0,
            reserved0: 0,
            root: 0,
        }
    }

    /// Stores the keyed root of every other field.
    pub fn seal(&mut self, secret: u64)
        ensures
            *final(self) == (QuantumSystemSnapshot {
                root: spec_snapshot_root(secret, *old(self)),
                ..*old(self)
            }),
    {
        self.root = 0;
        let root = snapshot_root(secret, self);
        self.root = root;
    }

    /// The snapshot is current, live and sealed under `secret`.
    pub fn verify(&self, secret: u64) -> (r: bool)
        ensures
            r == snapshot_verifies(*self, secret),
    {
        self.abi_version >> 16u32 == QUANTUM_CREST_ABI_MAJOR && self.struct_size
            >= SNAPSHOT_WIRE_BYTES && self.sequence != 0 && self.epoch != 0 && self.desktop_session
            != 0 && self.desktop_generation != 0 && self.root == snapshot_root(secret, self)
    }
}

/// A sealed command from the desktop session to the kernel.
#[derive(Clone, Copy, Debug, PartialEq, Eq)]
pub struct QuantumDesktopCommand {
    pub abi_version: u32,
    pub struct_size: u32,
    pub sequence: u64,
    pub epoch: u64,
    pub session: u64,
    pub generation: u32,
    pub opcode: u32,
    pub flags: u64,
    pub object: u64,
    pub deadline_tick: u64,
    pub arguments: [u64; 8],
    pub payload_length: u16,
    pub reserved: [u8; 6],
    pub payload: [u8; 128],
    pub root: u64,
}

/// The sealed words of a command: the header, the arguments, the payload
/// length and the payload as little-endian words.
pub open spec fn command_words(c: QuantumDesktopCommand) -> Seq<u64> {
    seq![
        c.abi_version as u64,
        c.sequence,
        c.epoch,
        c.session,
        c.generation as u64,
        c.opcode as u64,
        c.flags,
        c.object,
        c.deadline_tick,
    ] + c.arguments@ + seq![c.payload_length as u64] + payload_words(c.payload@)
}

pub open spec fn spec_command_root(secret: u64, c: QuantumDesktopCommand) -> u64 {
    spec_avalanche(
        sponge(spec_domain(secret, COMMAND_DOMAIN_TAG), command_words(c)) ^ rotr(secret, 9),
    )
}

pub open spec fn command_header_ok(c: QuantumDesktopCommand) -> bool {
    &&& c.abi_version >> 16u32 == QUANTUM_CREST_ABI_MAJOR
    &&& c.struct_size >= COMMAND_WIRE_BYTES
    &&& c.sequence != 0
    &&& c.epoch != 0
    &&& c.session != 0
    &&& c.generation != 0
    &&& c.opcode != 0
    &&& c.payload_length <= QUANTUM_CREST_PAYLOAD_BYTES
}

pub open spec fn command_verifies(c: QuantumDesktopCommand, secret: u64) -> bool {
    command_header_ok(c) && c.root == spec_command_root(secret, c)
}

/// The keyed root of a command; the root field itself is not sealed.
pub fn command_root(secret: u64, command: &QuantumDesktopCommand) -> (r: u64)
    ensures
        r == spec_command_root(secret, *command),
{
    let mut words: Vec<u64> = Vec::new();
    words.push(command.abi_version as u64);
    words.push(command.sequence);
    words.push(command.epoch);
    words.push(command.session);
    words.push(command.generation as u64);
    words.push(command.opcode as u64);
    words.push(command.flags);
    words.push(command.object);
    words.push(command.deadline_tick);
    let ghost header = words@;
    push_words(&mut words, &command.arguments);
    words.push(command.payload_length as u64);
    let ghost before_payload = words@;
    push_payload(&mut words, &command.payload);
    proof {
        assert(before_payload =~= header + command.arguments@ + seq![
            command.payload_length as u64,
        ]);
        assert(words@ =~= command_words(*command));
    }
    let state = absorb_all(domain(secret, COMMAND_DOMAIN_TAG), &words);
    avalanche(state ^ rotate_right(secret, 9))
}

impl QuantumDesktopCommand {
    /// A current-version command with every other field zero.
    pub fn empty() -> (r: QuantumDesktopCommand)
        ensures
            r.abi_version == QUANTUM_CREST_ABI_VERSION,
            r.struct_size == COMMAND_WIRE_BYTES,
            r.sequence == 0 && r.epoch == 0 && r.session == 0 && r.generation == 0,
            r.opcode == 0 && r.flags == 0 && r.object == 0 && r.deadline_tick == 0,
            r.payload_length == 0 && r.root == 0,
            forall|i: int| 0 <= i < 8 ==> #[trigger] r.arguments@[i] == 0,
            forall|i: int| 0 <= i < 6 ==> #[trigger] r.reserved@[i] == 0,
            forall|i: int| 0 <= i < 128 ==> #[trigger] r.payload@[i] == 0,
    {
        QuantumDesktopCommand {
            abi_version: QUANTUM_CREST_ABI_VERSION,
            struct_size: COMMAND_WIRE_BYTES,
            sequence: 0,
            epoch: 0,
            session: 0,
            generation: 0,
            opcode: 0,
            flags: 0,
            object: 0,
            deadline_tick: 0,
            arguments: [0u64; 8],
            payload_length: 0,
            reserved: [0u8; 6],
            payload: [0u8; 128],
            root: 0,
        }
    }

    /// Stores the keyed root of every other field.
    pub fn seal(&mut self, secret: u64)
        ensures
            *final(self) == (QuantumDesktopCommand {
                root: spec_command_root(secret, *old(self)),
                ..*old(self)
            }),
    {
        self.root = 0;
        let root = command_root(secret, self);
        self.root = root;
    }

    /// The command is current, live, within its payload bound and sealed
    /// under `secret`.
    pub fn verify(&self, secret: u64) -> (r: bool)
        ensures
            r == command_verifies(*self, secret),
    {
        self.abi_version >> 16u32 == QUANTUM_CREST_ABI_MAJOR && self.struct_size
            >= COMMAND_WIRE_BYTES && self.sequence != 0 && self.epoch != 0 && self.session != 0
            && self.generation != 0 && self.opcode != 0 && (self.payload_length as usize)
            <= QUANTUM_CREST_PAYLOAD_BYTES && self.root == command_root(secret, self)
    }
}

/// The kernel's certificate for one presented frame.
#[derive(Clone, Copy, Debug, PartialEq, Eq)]
pub struct QuantumFrameCertificate {
    pub frame_sequence: u64,
    pub snapshot_sequence: u64,
    pub scene_epoch: u64,
    pub damage_root: u64,
    pub scene_root: u64,
    pub present_tick: u64,
    pub rendered_tiles: u32,
    pub skipped_tiles: u32,
    pub lane_votes: u8,
    pub reserved: [u8; 7],
    pub root: u64,
}

impl QuantumFrameCertificate {
    /// The all-zero certificate.
    pub fn zero() -> (r: QuantumFrameCertificate)
        ensures
            r.frame_sequence == 0 && r.snapshot_sequence == 0 && r.scene_epoch == 0,
            r.damage_root == 0 && r.scene_root == 0 && r.present_tick == 0,
            r.rendered_tiles == 0 && r.skipped_tiles == 0 && r.lane_votes == 0 && r.root == 0,
            forall|i: int| 0 <= i < 7 ==> #[trigger] r.reserved@[i] == 0,
    {
        QuantumFrameCertificate {
            frame_sequence: 0,
            snapshot_sequence: 0,
            scene_epoch: 0,
            damage_root: 0,
            scene_root: 0,
            present_tick: 0,
            rendered_tiles: 0,
            skipped_tiles: 0,
            lane_votes: 0,
            reserved: [0u8; 7],
            root: 0,
        }
    }
}

/// The sealed words of a frame certificate, in field order.
pub open spec fn frame_words(f: QuantumFrameCertificate) -> Seq<u64> {
    seq![
        f.frame_sequence,
        f.snapshot_sequence,
        f.scene_epoch,
        f.damage_root,
        f.scene_root,
        f.present_tick,
        f.rendered_tiles as u64,
        f.skipped_tiles as u64,
        f.lane_votes as u64,
    ]
}

fn push_frame(words: &mut Vec<u64>, f: &QuantumFrameCertificate)
    ensures
        final(words)@ == old(words)@ + frame_words(*f),
{
    let ghost start = words@;
    words.push(f.frame_sequence);
    words.push(f.snapshot_sequence);
    words.push(f.scene_epoch);
    words.push(f.damage_root);
    words.push(f.scene_root);
    words.push(f.present_tick);
    words.push(f.rendered_tiles as u64);
    words.push(f.skipped_tiles as u64);
    words.push(f.lane_votes as u64);
    assert(words@ =~= start + frame_words(*f));
}

pub open spec fn spec_frame_root(secret: u64, f: QuantumFrameCertificate) -> u64 {
    spec_avalanche(sponge(spec_domain(secret, FRAME_DOMAIN_TAG), frame_words(f)))
}

/// The keyed root of a frame certificate.
pub fn frame_root(secret: u64, frame: &QuantumFrameCertificate) -> (r: u64)
    ensures
        r == spec_frame_root(secret, *frame),
{
    let mut words: Vec<u64> = Vec::new();
    push_frame(&mut words, frame);
    assert(words@ =~= frame_words(*frame));
    avalanche(absorb_all(domain(secret, FRAME_DOMAIN_TAG), &words))
}

/// The kernel's sealed answer to a command.
#[derive(Clone, Copy, Debug, PartialEq, Eq)]
pub struct QuantumDesktopReply {
    pub abi_version: u32,
    pub struct_size: u32,
    pub command_sequence: u64,
    pub snapshot_sequence: u64,
    pub status: i32,
    pub flags: u32,
    pub outputs: [u64; 8],
    pub frame: QuantumFrameCertificate,
    pub root: u64,
}

/// The sealed words of a reply: the header, the status by its bits, the
/// outputs and the frame certificate's words.
pub open spec fn reply_words(r: QuantumDesktopReply) -> Seq<u64> {
    seq![
        r.abi_version as u64,
        r.command_sequence,
        r.snapshot_sequence,
        (r.status as u32) as u64,
        r.flags as u64,
    ] + r.outputs@ + frame_words(r.frame)
}

pub open spec fn spec_reply_root(secret: u64, r: QuantumDesktopReply) -> u64 {
    spec_avalanche(sponge(spec_domain(secret, REPLY_DOMAIN_TAG), reply_words(r)) ^ rotl(secret, 31))
}

pub open spec fn reply_header_ok(r: QuantumDesktopReply) -> bool {
    &&& r.abi_version >> 16u32 == QUANTUM_CREST_ABI_MAJOR
    &&& r.struct_size >= REPLY_WIRE_BYTES
    &&& r.command_sequence != 0
}

pub open spec fn reply_verifies(r: QuantumDesktopReply, secret: u64) -> bool {
    reply_header_ok(r) && r.root == spec_reply_root(secret, r)
}

/// The keyed root of a reply; the root field itself is not sealed.
pub fn reply_root(secret: u64, reply: &QuantumDesktopReply) -> (r: u64)
    ensures
        r == spec_reply_root(secret, *reply),
{
    let mut words: Vec<u64> = Vec::new();
    words.push(reply.abi_version as u64);
    words.push(reply.command_sequence);
    words.push(reply.snapshot_sequence);
    words.push((reply.status as u32) as u64);
    words.push(reply.flags as u64);
    let ghost header = words@;
    push_words(&mut words, &reply.outputs);
    let ghost before_frame = words@;
    push_frame(&mut words, &reply.frame);
    proof {
        assert(before_frame =~= header + reply.outputs@);
        assert(words@ =~= reply_words(*reply));
    }
    let state = absorb_all(domain(secret, REPLY_DOMAIN_TAG), &words);
    avalanche(state ^ rotate_left(secret, 31))
}

impl QuantumDesktopReply {
    /// A current-version reply marked invalid, every other field zero.
    pub fn empty() -> (r: QuantumDesktopReply)
        ensures
            r.abi_version == QUANTUM_CREST_ABI_VERSION,
            r.struct_size == REPLY_WIRE_BYTES,
            r.command_sequence == 0 && r.snapshot_sequence == 0,
            r.status == STATUS_INVALID && r.flags == 0 && r.root == 0,
            forall|i: int| 0 <= i < 8 ==> #[trigger] r.outputs@[i] == 0,
            r.frame.frame_sequence == 0 && r.frame.root == 0,
    {
        QuantumDesktopReply {
            abi_version: QUANTUM_CREST_ABI_VERSION,
            struct_size: REPLY_WIRE_BYTES,
            command_sequence: 0,
            snapshot_sequence: 0,
            status: STATUS_INVALID,
            flags: 0,
            outputs: [0u64; 8],
            frame: QuantumFrameCertificate::zero(),
            root: 0,
        }
    }

    /// Stores the keyed root of every other field.
    pub fn seal(&mut self, secret: u64)
        ensures
            *final(self) == (QuantumDesktopReply {
                root: spec_reply_root(secret, *old(self)),
                ..*old(self)
            }),
    {
        self.root = 0;
        let root = reply_root(secret, self);
        self.root = root;
    }

    /// The reply is current, answers a command and is sealed under `secret`.
    pub fn verify(&self, secret: u64) -> (r: bool)
        ensures
            r == reply_verifies(*self, secret),
    {
        self.abi_version >> 16u32 == QUANTUM_CREST_ABI_MAJOR && self.struct_size
            >= REPLY_WIRE_BYTES && self.command_sequence != 0 && self.root == reply_root(
            secret,
            self,
        )
    }
}

/// A record sealed under a secret verifies under it whenever its header is
/// current and live: the root does not cover the root field.
pub proof fn lemma_sealed_records_verify(
    s: QuantumSystemSnapshot,
    c: QuantumDesktopCommand,
    r: QuantumDesktopReply,
    secret: u64,
)
    ensures
        snapshot_header_ok(s) ==> snapshot_verifies(
            QuantumSystemSnapshot { root: spec_snapshot_root(secret, s), ..s },
            secret,
        ),
        command_header_ok(c) ==> command_verifies(
            QuantumDesktopCommand { root: spec_command_root(secret, c), ..c },
            secret,
        ),
        reply_header_ok(r) ==> reply_verifies(
            QuantumDesktopReply { root: spec_reply_root(secret, r), ..r },
            secret,
        ),
{
    let s2 = QuantumSystemSnapshot { root: spec_snapshot_root(secret, s), ..s };
    let c2 = QuantumDesktopCommand { root: spec_command_root(secret, c), ..c };
    let r2 = QuantumDesktopReply { root: spec_reply_root(secret, r), ..r };
    assert(snapshot_words(s2) =~= snapshot_words(s));
    assert(command_words(c2) =~= command_words(c));
    assert(reply_words(r2) =~= reply_words(r));
}

// ---------------------------------------------------------------------------
// The portal page

#[derive(Clone, Copy, Debug, PartialEq, Eq, Structural)]
pub enum QuantumPortalError {
    Busy,
    Empty,
    Corrupt,
    Invalid,
}

/// A single-slot mailbox after a publish of `value`: a full slot refuses it.
pub open spec fn mailbox_publish<T>(slot: Option<T>, value: T) -> (Option<T>, Result<
    (),
    QuantumPortalError,
>) {
    match slot {
        Some(_) => (slot, Err(QuantumPortalError::Busy)),
        None => (Some(value), Ok(())),
    }
}

/// A single-slot mailbox after a take: the slot is emptied and its record
/// handed out.
pub open spec fn mailbox_take<T>(slot: Option<T>) -> (Option<T>, Option<T>) {
    (None, slot)
}

/// The kernel/user shared page: three single-slot mailboxes and the last
/// epochs each side announced.
pub struct QuantumCrestPage {
    snapshot: Option<QuantumSystemSnapshot>,
    command: Option<QuantumDesktopCommand>,
    reply: Option<QuantumDesktopReply>,
    kernel_epoch: u64,
    user_epoch: u64,
}

/// The abstract value of a portal page.
pub struct PortalView {
    pub snapshot: Option<QuantumSystemSnapshot>,
    pub command: Option<QuantumDesktopCommand>,
    pub reply: Option<QuantumDesktopReply>,
    pub kernel_epoch: u64,
    pub user_epoch: u64,
}

impl View for QuantumCrestPage {
    type V = PortalView;

    closed spec fn view(&self) -> PortalView {
        PortalView {
            snapshot: self.snapshot,
            command: self.command,
            reply: self.reply,
            kernel_epoch: self.kernel_epoch,
            user_epoch: self.user_epoch,
        }
    }
}

pub open spec fn empty_portal() -> PortalView {
    PortalView { snapshot: None, command: None, reply: None, kernel_epoch: 0, user_epoch: 0 }
}

impl QuantumCrestPage {
    /// A page with every mailbox free and no epoch announced.
    pub fn new() -> (r: QuantumCrestPage)
        ensures
            r@ == empty_portal(),
    {
        QuantumCrestPage { snapshot: None, command: None, reply: None, kernel_epoch: 0, user_epoch: 0 }
    }

    /// The kernel announces the snapshot's epoch and offers the snapshot;
    /// a snapshot without a live epoch and sequence is refused untouched.
    pub fn kernel_publish_snapshot(&mut self, snapshot: QuantumSystemSnapshot) -> (r: Result<
        (),
        QuantumPortalError,
    >)
        ensures
            snapshot.epoch == 0 || snapshot.sequence == 0 ==> r == Err::<(), QuantumPortalError>(
                QuantumPortalError::Invalid,
            ) && final(self)@ == old(self)@,
            snapshot.epoch != 0 && snapshot.sequence != 0 ==> ({
                let (slot, result) = mailbox_publish(old(self)@.snapshot, snapshot);
                &&& r == result
                &&& final(self)@ == PortalView {
                    snapshot: slot,
                    kernel_epoch: snapshot.epoch,
                    ..old(self)@
                }
            }),
    {
        if snapshot.epoch == 0 || snapshot.sequence == 0 {
            return Err(QuantumPortalError::Invalid);
        }
        self.kernel_epoch = snapshot.epoch;
        if self.snapshot.is_some() {
            return Err(QuantumPortalError::Busy);
        }
        self.snapshot = Some(snapshot);
        Ok(())
    }

    /// The session takes the pending snapshot, if any.
    pub fn user_read_snapshot(&mut self) -> (r: Result<
        Option<QuantumSystemSnapshot>,
        QuantumPortalError,
    >)
        ensures
            r == Ok::<Option<QuantumSystemSnapshot>, QuantumPortalError>(old(self)@.snapshot),
            final(self)@ == (PortalView { snapshot: None, ..old(self)@ }),
    {
        let taken = self.snapshot;
        self.snapshot = None;
        Ok(taken)
    }

    /// The session announces the command's epoch and offers the command; a
    /// command without a live epoch and sequence is refused untouched.
    pub fn user_submit_command(&mut self, command: QuantumDesktopCommand) -> (r: Result<
        (),
        QuantumPortalError,
    >)
        ensures
            command.epoch == 0 || command.sequence == 0 ==> r == Err::<(), QuantumPortalError>(
                QuantumPortalError::Invalid,
            ) && final(self)@ == old(self)@,
            command.epoch != 0 && command.sequence != 0 ==> ({
                let (slot, result) = mailbox_publish(old(self)@.command, command);
                &&& r == result
                &&& final(self)@ == PortalView {
                    command: slot,
                    user_epoch: command.epoch,
                    ..old(self)@
                }
            }),
    {
        if command.epoch == 0 || command.sequence == 0 {
            return Err(QuantumPortalError::Invalid);
        }
        self.user_epoch = command.epoch;
        if self.command.is_some() {
            return Err(QuantumPortalError::Busy);
        }
        self.command = Some(command);
        Ok(())
    }

    /// The kernel takes the pending command, if any.
    pub fn kernel_take_command(&mut self) -> (r: Result<
        Option<QuantumDesktopCommand>,
        QuantumPortalError,
    >)
        ensures
            r == Ok::<Option<QuantumDesktopCommand>, QuantumPortalError>(old(self)@.command),
            final(self)@ == (PortalView { command: None, ..old(self)@ }),
    {
        let taken = self.command;
        self.command = None;
        Ok(taken)
    }

    /// The kernel offers a reply; one that answers no command is refused.
    pub fn kernel_publish_reply(&mut self, reply: QuantumDesktopReply) -> (r: Result<
        (),
        QuantumPortalError,
    >)
        ensures
            reply.command_sequence == 0 ==> r == Err::<(), QuantumPortalError>(
                QuantumPortalError::Invalid,
            ) && final(self)@ == old(self)@,
            reply.command_sequence != 0 ==> ({
                let (slot, result) = mailbox_publish(old(self)@.reply, reply);
                &&& r == result
                &&& final(self)@ == PortalView { reply: slot, ..old(self)@ }
            }),
    {
        if reply.command_sequence == 0 {
            return Err(QuantumPortalError::Invalid);
        }
        if self.reply.is_some() {
            return Err(QuantumPortalError::Busy);
        }
        self.reply = Some(reply);
        Ok(())
    }

    /// The session takes the pending reply, if any.
    pub fn user_take_reply(&mut self) -> (r: Result<Option<QuantumDesktopReply>, QuantumPortalError>)
        ensures
            r == Ok::<Option<QuantumDesktopReply>, QuantumPortalError>(old(self)@.reply),
            final(self)@ == (PortalView { reply: None, ..old(self)@ }),
    {
        let taken = self.reply;
        self.reply = None;
        Ok(taken)
    }

    /// The last epochs announced by the kernel and by the session.
    pub fn epochs(&self) -> (r: (u64, u64))
        ensures
            r == (self@.kernel_epoch, self@.user_epoch),
    {
        (self.kernel_epoch, self.user_epoch)
    }
}

impl Default for QuantumCrestPage {
    fn default() -> (r: QuantumCrestPage)
        ensures
            r@ == empty_portal(),
    {
        QuantumCrestPage::new()
    }
}

/// A mailbox hands out exactly the record published into it, once: after a
/// publish into a free slot, a take returns the record and frees the slot,
/// and a publish into a full slot is refused without touching the slot.
pub proof fn lemma_mailbox_transfers_ownership<T>(slot: Option<T>, value: T)
    ensures
        slot is None ==> mailbox_publish(slot, value) == (Some(value), Ok::<
            (),
            QuantumPortalError,
        >(())) && mailbox_take(mailbox_publish(slot, value).0) == (None::<T>, Some(value))
            && mailbox_take(mailbox_take(mailbox_publish(slot, value).0).0) == (None::<T>, None::<
            T,
        >),
        slot is Some ==> mailbox_publish(slot, value) == (slot, Err::<(), QuantumPortalError>(
            QuantumPortalError::Busy,
        )),
{
}

// ---------------------------------------------------------------------------
// The sealed words determine the sealed fields

/// Eight bytes as a little-endian word, written out.
pub open spec fn le8(b0: u8, b1: u8, b2: u8, b3: u8, b4: u8, b5: u8, b6: u8, b7: u8) -> u64 {
    (b0 as u64) | (((b1 as u64) | (((b2 as u64) | (((b3 as u64) | (((b4 as u64) | (((b5 as u64)
        | (((b6 as u64) | (((b7 as u64) | (0u64 << 8u64)) << 8u64)) << 8u64)) << 8u64)) << 8u64))
        << 8u64)) << 8u64)) << 8u64)
}

proof fn lemma_le_word_eight(s: Seq<u8>)
    requires
        s.len() == 8,
    ensures
        le_word(s) == le8(s[0], s[1], s[2], s[3], s[4], s[5], s[6], s[7]),
{
    let s1 = s.drop_first();
    let s2 = s1.drop_first();
    let s3 = s2.drop_first();
    let s4 = s3.drop_first();
    let s5 = s4.drop_first();
    let s6 = s5.drop_first();
    let s7 = s6.drop_first();
    let s8 = s7.drop_first();
    assert(le_word(s8) == 0);
    assert(le_word(s7) == (s[7] as u64) | (le_word(s8) << 8u64));
    assert(le_word(s6) == (s[6] as u64) | (le_word(s7) << 8u64));
    assert(le_word(s5) == (s[5] as u64) | (le_word(s6) << 8u64));
    assert(le_word(s4) == (s[4] as u64) | (le_word(s5) << 8u64));
    assert(le_word(s3) == (s[3] as u64) | (le_word(s4) << 8u64));
    assert(le_word(s2) == (s[2] as u64) | (le_word(s3) << 8u64));
    assert(le_word(s1) == (s[1] as u64) | (le_word(s2) << 8u64));
    assert(le_word(s) == (s[0] as u64) | (le_word(s1) << 8u64));
}

/// Distinct eight-byte groups are distinct little-endian words.
pub proof fn lemma_le_word_injective(s: Seq<u8>, t: Seq<u8>)
    requires
        s.len() == 8,
        t.len() == 8,
        le_word(s) == le_word(t),
    ensures
        s == t,
{
    lemma_le_word_eight(s);
    lemma_le_word_eight(t);
    let (a0, a1, a2, a3, a4, a5, a6, a7) = (s[0], s[1], s[2], s[3], s[4], s[5], s[6], s[7]);
    let (b0, b1, b2, b3, b4, b5, b6, b7) = (t[0], t[1], t[2], t[3], t[4], t[5], t[6], t[7]);
    assert(a0 == b0 && a1 == b1 && a2 == b2 && a3 == b3 && a4 == b4 && a5 == b5 && a6 == b6 && a7
        == b7) by (bit_vector)
        requires
            le8(a0, a1, a2, a3, a4, a5, a6, a7) == le8(b0, b1, b2, b3, b4, b5, b6, b7),
    ;
    assert(s =~= t);
}

/// Distinct payloads read as distinct words.
pub proof fn lemma_payload_words_injective(p: Seq<u8>, q: Seq<u8>)
    requires
        p.len() == QUANTUM_CREST_PAYLOAD_BYTES,
        q.len() == QUANTUM_CREST_PAYLOAD_BYTES,
        payload_words(p) == payload_words(q),
    ensures
        p == q,
{
    assert forall|k: int| 0 <= k < p.len() implies p[k] == q[k] by {
        let i = k / 8;
        assert(0 <= i < 16);
        assert(payload_words(p)[i] == payload_words(q)[i]);
        let sp = p.subrange(8 * i, 8 * i + 8);
        let sq = q.subrange(8 * i, 8 * i + 8);
        assert(payload_words(p)[i] == le_word(sp));
        assert(payload_words(q)[i] == le_word(sq));
        lemma_le_word_injective(sp, sq);
        assert(sp[k - 8 * i] == sq[k - 8 * i]);
    }
    assert(p =~= q);
}

/// Two's-complement bits of a signed word tell it apart.
proof fn lemma_signed_bits_injective(a: i32, b: i32)
    ensures
        (a as u32) as u64 == (b as u32) as u64 ==> a == b,
{
    assert((a as u32) as u64 == (b as u32) as u64 ==> a == b) by (bit_vector);
}

/// The sealed words of a command determine every sealed field: two
/// commands with the same words agree on the header (version, sequence,
/// epoch, session, generation, opcode, flags, object, deadline), the
/// arguments, the payload length and the payload. A command changed in any
/// of them is sealed over different words.
pub proof fn lemma_command_words_determine_fields(a: QuantumDesktopCommand, b: QuantumDesktopCommand)
    requires
        command_words(a) == command_words(b),
    ensures
        a.abi_version == b.abi_version,
        a.sequence == b.sequence,
        a.epoch == b.epoch,
        a.session == b.session,
        a.generation == b.generation,
        a.opcode == b.opcode,
        a.flags == b.flags,
        a.object == b.object,
        a.deadline_tick == b.deadline_tick,
        a.arguments@ == b.arguments@,
        a.payload_length == b.payload_length,
        a.payload@ == b.payload@,
{
    let wa = command_words(a);
    let wb = command_words(b);
    let ha = seq![
        a.abi_version as u64,
        a.sequence,
        a.epoch,
        a.session,
        a.generation as u64,
        a.opcode as u64,
        a.flags,
        a.object,
        a.deadline_tick,
    ];
    let hb = seq![
        b.abi_version as u64,
        b.sequence,
        b.epoch,
        b.session,
        b.generation as u64,
        b.opcode as u64,
        b.flags,
        b.object,
        b.deadline_tick,
    ];
    assert(wa.subrange(0, 9) =~= ha);
    assert(wb.subrange(0, 9) =~= hb);
    assert(ha[0] == hb[0] && ha[1] == hb[1] && ha[2] == hb[2] && ha[3] == hb[3] && ha[4] == hb[4]
        && ha[5] == hb[5] && ha[6] == hb[6] && ha[7] == hb[7] && ha[8] == hb[8]);
    assert(wa.subrange(9, 17) =~= a.arguments@);
    assert(wb.subrange(9, 17) =~= b.arguments@);
    assert(wa[17] == a.payload_length as u64);
    assert(wb[17] == b.payload_length as u64);
    assert(payload_words(a.payload@) =~= wa.subrange(18, 34));
    assert(payload_words(b.payload@) =~= wb.subrange(18, 34));
    lemma_payload_words_injective(a.payload@, b.payload@);
}

/// The sealed words of a frame certificate determine every field but the
/// reserved bytes and the root.
pub proof fn lemma_frame_words_determine_fields(a: QuantumFrameCertificate, b: QuantumFrameCertificate)
    requires
        frame_words(a) == frame_words(b),
    ensures
        a == (QuantumFrameCertificate { reserved: a.reserved, root: a.root, ..b }),
{
    let wa = frame_words(a);
    let wb = frame_words(b);
    assert(wa[0] == wb[0] && wa[1] == wb[1] && wa[2] == wb[2] && wa[3] == wb[3] && wa[4] == wb[4]
        && wa[5] == wb[5] && wa[6] == wb[6] && wa[7] == wb[7] && wa[8] == wb[8]);
}

/// The sealed words of a reply determine every sealed field: the header,
/// the status, the outputs and the frame certificate's sealed fields.
pub proof fn lemma_reply_words_determine_fields(a: QuantumDesktopReply, b: QuantumDesktopReply)
    requires
        reply_words(a) == reply_words(b),
    ensures
        a.abi_version == b.abi_version,
        a.command_sequence == b.command_sequence,
        a.snapshot_sequence == b.snapshot_sequence,
        a.status == b.status,
        a.flags == b.flags,
        a.outputs@ == b.outputs@,
        a.frame == (QuantumFrameCertificate { reserved: a.frame.reserved, root: a.frame.root, ..b.frame }),
{
    let wa = reply_words(a);
    let wb = reply_words(b);
    assert(wa[0] == wb[0] && wa[1] == wb[1] && wa[2] == wb[2] && wa[3] == wb[3] && wa[4] == wb[4]);
    lemma_signed_bits_injective(a.status, b.status);
    assert forall|i: int| 0 <= i < 8 implies a.outputs@[i] == b.outputs@[i] by {
        assert(wa[5 + i] == wb[5 + i]);
    }
    assert(a.outputs@ =~= b.outputs@);
    assert(frame_words(a.frame) =~= wa.subrange(13, 22));
    assert(frame_words(b.frame) =~= wb.subrange(13, 22));
    lemma_frame_words_determine_fields(a.frame, b.frame);
}

/// The sealed words of a snapshot determine every sealed field: the
/// header, the GPU, BlackLab and display states (all but BlackLab's
/// reserved byte) and the desktop rights, session and generation.
pub proof fn lemma_snapshot_words_determine_fields(a: QuantumSystemSnapshot, b: QuantumSystemSnapshot)
    requires
        snapshot_words(a) == snapshot_words(b),
    ensures
        a.abi_version == b.abi_version,
        a.sequence == b.sequence,
        a.epoch == b.epoch,
        a.logical_tick == b.logical_tick,
        a.topology_epoch == b.topology_epoch,
        a.capability_epoch == b.capability_epoch,
        a.flags == b.flags,
        a.gpu == b.gpu,
        a.blacklab == (QuantumBlackLabState { reserved0: a.blacklab.reserved0, ..b.blacklab }),
        a.display == b.display,
        a.desktop_rights == b.desktop_rights,
        a.desktop_session == b.desktop_session,
        a.desktop_generation == b.desktop_generation,
{
    let wa = snapshot_words(a);
    let wb = snapshot_words(b);
    assert forall|i: int| 0 <= i < wa.len() implies wa[i] == wb[i] by {}
    assert(wa[0] == wb[0] && wa[1] == wb[1] && wa[2] == wb[2] && wa[3] == wb[3] && wa[4] == wb[4]
        && wa[5] == wb[5] && wa[6] == wb[6]);
    let ga = gpu_words(a.gpu);
    let gb = gpu_words(b.gpu);
    assert(ga =~= wa.subrange(7, 19));
    assert(gb =~= wb.subrange(7, 19));
    assert(ga[0] == gb[0] && ga[1] == gb[1] && ga[2] == gb[2] && ga[3] == gb[3] && ga[4] == gb[4]
        && ga[5] == gb[5] && ga[6] == gb[6] && ga[7] == gb[7] && ga[8] == gb[8] && ga[9] == gb[9]
        && ga[10] == gb[10] && ga[11] == gb[11]);
    lemma_signed_bits_injective(a.gpu.temperature_q16, b.gpu.temperature_q16);
    lemma_signed_bits_injective(a.gpu.pressure_q16, b.gpu.pressure_q16);
    let la = blacklab_words(a.blacklab);
    let lb = blacklab_words(b.blacklab);
    assert(la =~= wa.subrange(19, 32));
    assert(lb =~= wb.subrange(19, 32));
    assert(la[0] == lb[0] && la[1] == lb[1] && la[2] == lb[2] && la[3] == lb[3] && la[4] == lb[4]
        && la[5] == lb[5] && la[6] == lb[6] && la[7] == lb[7] && la[8] == lb[8] && la[9] == lb[9]
        && la[10] == lb[10] && la[11] == lb[11] && la[12] == lb[12]);
    let da = display_words(a.display);
    let db = display_words(b.display);
    assert(da =~= wa.subrange(32, 43));
    assert(db =~= wb.subrange(32, 43));
    assert(da[0] == db[0] && da[1] == db[1] && da[2] == db[2] && da[3] == db[3] && da[4] == db[4]
        && da[5] == db[5] && da[6] == db[6] && da[7] == db[7] && da[8] == db[8] && da[9] == db[9]
        && da[10] == db[10]);
    assert(wa[43] == wb[43] && wa[44] == wb[44] && wa[45] == wb[45]);
}

} // verus!
