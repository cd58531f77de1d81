use vstd::prelude::*;
use crate::communication::robot_sender::{configured_ip, ids_distinct, spec_configured_ip};

verus! {

/// The first wait before reconnecting a socket, in seconds.
pub const INITIAL_RECONNECT_DELAY_SECS: u64 = 1;

/// The longest wait before reconnecting a socket, in seconds.
pub const MAX_RECONNECT_DELAY_SECS: u64 = 30;

/// The wait after a failed attempt that waited `delay_secs`: doubled, at most
/// the longest wait.
pub open spec fn spec_next_reconnect_delay(delay_secs: u64) -> u64 {
    if 2 * delay_secs <= MAX_RECONNECT_DELAY_SECS {
        (2 * delay_secs) as u64
    } else {
        MAX_RECONNECT_DELAY_SECS
    }
}

/// The wait after a failed attempt that waited `delay_secs`: doubled, at most
/// the longest wait. A successful attempt starts again from the first wait.
pub fn next_reconnect_delay(delay_secs: u64) -> (r: u64)
    requires
        delay_secs <= MAX_RECONNECT_DELAY_SECS,
    ensures
        r == spec_next_reconnect_delay(delay_secs),
{
    let doubled = delay_secs * 2;
    if doubled <= MAX_RECONNECT_DELAY_SECS {
        doubled
    } else {
        MAX_RECONNECT_DELAY_SECS
    }
}

/// The reconnect wait never leaves the range from the first to the longest
/// wait, and it never shrinks while attempts keep failing.
pub proof fn lemma_reconnect_delay_bounded(delay_secs: u64)
    requires
        INITIAL_RECONNECT_DELAY_SECS <= delay_secs <= MAX_RECONNECT_DELAY_SECS,
    ensures
        INITIAL_RECONNECT_DELAY_SECS <= spec_next_reconnect_delay(delay_secs) <= MAX_RECONNECT_DELAY_SECS,
        delay_secs <= spec_next_reconnect_delay(delay_secs),
{
}

/// Number of robot slots in the event buffer.
pub const ROBOT_SLOTS: usize = 16;

/// The slot of the event buffer that data of `robot_id` goes to, or `None`
/// for an id outside the table (such data is reported and dropped).
pub fn robot_slot(robot_id: u8) -> (r: Option<usize>)
    ensures
        (robot_id as usize) < ROBOT_SLOTS ==> r == Some(robot_id as usize),
        (robot_id as usize) >= ROBOT_SLOTS ==> (r is None),
{
    if (robot_id as usize) < ROBOT_SLOTS {
        Some(robot_id as usize)
    } else {
        None
    }
}

/// What a datagram on the robot multicast group carries, told by its size.
#[derive(Debug, Clone, Copy, PartialEq, Eq, Structural)]
pub enum DatagramKind {
    Telemetry,
    Debug,
    /// Our own command frame, echoed back by the multicast group.
    OwnCommandFrame,
    Unexpected,
}

/// The kind of a datagram of `size` bytes, given the encoded lengths of
/// telemetry, debug data and command frames (checked in that order).
pub fn classify_datagram(size: usize, telemetry_len: usize, debug_len: usize, frame_len: usize) -> (r: DatagramKind)
    ensures
        r == if size == telemetry_len {
            DatagramKind::Telemetry
        } else if size == debug_len {
            DatagramKind::Debug
        } else if size == frame_len {
            DatagramKind::OwnCommandFrame
        } else {
            DatagramKind::Unexpected
        },
{
    if size == telemetry_len {
        DatagramKind::Telemetry
    } else if size == debug_len {
        DatagramKind::Debug
    } else if size == frame_len {
        DatagramKind::OwnCommandFrame
    } else {
        DatagramKind::Unexpected
    }
}

/// Whether feedback claiming to come from `robot_id` is accepted: a robot
/// with that id is configured and its address is the datagram's source.
pub open spec fn spec_accepts_feedback(configured: Seq<(u32, [u8; 4])>, robot_id: u32, source: [u8; 4]) -> bool {
    spec_configured_ip(configured, robot_id) == Some(source)
}

/// The heartbeat slot that feedback from `source` claiming to come from
/// `robot_id` refreshes, or `None` when the feedback is ignored: no robot
/// with that id is configured at that address, or the id has no heartbeat
/// slot.
pub fn feedback_slot(configured: &Vec<(u32, [u8; 4])>, robot_id: u32, source: [u8; 4]) -> (r: Option<usize>)
    requires
        ids_distinct(configured@),
    ensures
        r == if spec_accepts_feedback(configured@, robot_id, source) && robot_id < ROBOT_SLOTS {
            Some(robot_id as usize)
        } else {
            None
        },
{
    match configured_ip(configured, robot_id) {
        Some(address) => {
            if address[0] == source[0] && address[1] == source[1] && address[2] == source[2]
                && address[3] == source[3] {
                assert(address =~= source);
                if (robot_id as usize) < ROBOT_SLOTS {
                    Some(robot_id as usize)
                } else {
                    None
                }
            } else {
                assert(!(address =~= source));
                None
            }
        },
        None => None,
    }
}

} // verus!
