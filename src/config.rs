//! Development settings of the network session.
use vstd::prelude::*;

verus! {

/// Server ticks per second.
pub const DEV_SERVER_TICK_RATE: u32 = 20;

/// Network ticks per second.
pub const DEV_NETWORK_TICK_RATE: u16 = 10;

/// Length of a network tick, in microseconds.
pub const DEV_NETWORK_TICK_DELTA: i64 = 100_000;

pub const DEV_SERVER_LISTEN_PORT: u16 = 5000;

pub const DEV_SERVER_MAX_CLIENTS: usize = 10;

pub const DEV_CLIENT_TIME_OUT_SEC: i32 = 15;

pub const DEV_TOKEN_EXPIRE_SEC: u64 = 300;

pub const DEV_MAX_UPDATE_SNAPSHOT_SIZE: usize = 2560;

pub const DEV_MAX_SNAPSHOT_SIZE: usize = 64;

/// Base movement speed, in micrometres per second.
pub const BASE_SPEED: i64 = 10_000_000;

/// Base turning speed, in microradians per second.
pub const BASE_ANGULAR_SPEED: i64 = 25_000_000;

/// Distance, in micrometres, between predicted and published positions beyond
/// which a tick counts as a mismatch: about the distance covered at `BASE_SPEED`
/// in one network tick.
pub const TRANSLATION_ERROR_THRESHOLD: i64 = 1_000_000;

/// Yaw difference, in microradians, beyond which a tick counts as a mismatch.
pub const ROTATION_ERROR_THRESHOLD: i64 = 1_000_000;

/// Consecutive mismatching ticks (one second of network ticks) after which the
/// prediction is snapped to the authority.
pub const PREDICTION_ERROR_COUNT_THRESHOLD: u32 = 10;

pub const DISTANCE_CULLING_THREASHOLD: i64 = 100_000_000;

/// Physics ticks per second.
pub const PHYSICS_FIXED_TICK_RATE: u32 = 64;

/// Length of a physics tick, in microseconds.
pub const PHYSICS_FIXED_TICK_DELTA: i64 = 15_625;

/// Substep multiplier of the default acceleration.
pub const PHYSICS_SUBSTEP: i64 = 12;

/// Protocol identifier shared by the development client and server.
pub const DEV_PROTOCOL_ID: u64 = 0x655ea1eecade99ad;

/// Protocol identifier of a development session.
pub fn get_dev_protocol_id() -> (r: u64)
    ensures
        r == DEV_PROTOCOL_ID,
{
    DEV_PROTOCOL_ID
}

/// The key that development tokens are signed with.
pub open spec fn dev_private_key() -> Seq<u8> {
    seq![
        0x78u8, 0xe8, 0xbb, 0x30, 0xa2, 0x0b, 0x11, 0xf2,
        0xaa, 0xf6, 0x61, 0x3e, 0xa3, 0xb9, 0xf2, 0x9a,
        0x53, 0x1f, 0xa7, 0x63, 0x27, 0x27, 0x53, 0x69,
        0xe4, 0xb2, 0x34, 0x54, 0x15, 0x48, 0x2c, 0xaf,
    ]
}

/// Private key of a development session.
pub fn get_dev_private_key() -> (r: [u8; 32])
    ensures
        r@ == dev_private_key(),
{
    let r: [u8; 32] = [
        0x78, 0xe8, 0xbb, 0x30, 0xa2, 0x0b, 0x11, 0xf2,
        0xaa, 0xf6, 0x61, 0x3e, 0xa3, 0xb9, 0xf2, 0x9a,
        0x53, 0x1f, 0xa7, 0x63, 0x27, 0x27, 0x53, 0x69,
        0xe4, 0xb2, 0x34, 0x54, 0x15, 0x48, 0x2c, 0xaf,
    ];
    assert(r@ =~= dev_private_key());
    r
}

/// The user data of a connect token: the session id in its first sixteen bytes,
/// zero after them.
pub open spec fn user_data_of(session: Seq<u8>) -> Seq<u8> {
    Seq::new(256, |i: int| if i < 16 { session[i] } else { 0u8 })
}

/// User data for a connect token that carries `session`.
pub fn user_data_from_session(session: &[u8; 16]) -> (r: [u8; 256])
    ensures
        r@ == user_data_of(session@),
{
    let mut r: [u8; 256] = [0u8; 256];
    let mut i: usize = 0;
    while i < 16
        invariant
            0 <= i <= 16,
            r@.len() == 256,
            forall|j: int| 0 <= j < i ==> r@[j] == session@[j],
            forall|j: int| 16 <= j < 256 ==> r@[j] == 0,
        decreases 16 - i,
    {
        r[i] = session[i];
        i = i + 1;
    }
    assert(r@ =~= user_data_of(session@));
    r
}

} // verus!
