use vstd::prelude::*;
use crate::text::{decimal, push_decimal, push_str, str_eq};

verus! {

/// Team label of a tracked robot.
#[derive(Clone, Copy, Debug, Eq, PartialEq, Structural)]
pub enum RobotTeam {
    Yellow,
    Blue,
    Unknown,
}

impl RobotTeam {
    /// The label of the team in metric labels.
    pub open spec fn spec_label(self) -> Seq<char> {
        match self {
            RobotTeam::Yellow => "yellow"@,
            RobotTeam::Blue => "blue"@,
            RobotTeam::Unknown => "unknown"@,
        }
    }

    /// The place of the team's label in alphabetical order.
    pub open spec fn label_rank(self) -> int {
        match self {
            RobotTeam::Blue => 0,
            RobotTeam::Unknown => 1,
            RobotTeam::Yellow => 2,
        }
    }

    /// The team for a wire team code: `1` yellow, `2` blue, anything else unknown.
    pub open spec fn spec_from_code(code: Option<i32>) -> RobotTeam {
        match code {
            Some(1) => RobotTeam::Yellow,
            Some(2) => RobotTeam::Blue,
            _ => RobotTeam::Unknown,
        }
    }

    /// The label of the team in metric labels.
    pub fn as_str(self) -> (r: &'static str)
        ensures
            r@ == self.spec_label(),
    {
        match self {
            RobotTeam::Yellow => "yellow",
            RobotTeam::Blue => "blue",
            RobotTeam::Unknown => "unknown",
        }
    }

    /// The team for a wire team code: `1` yellow, `2` blue, anything else unknown.
    pub fn from_code(code: Option<i32>) -> (r: RobotTeam)
        ensures
            r == RobotTeam::spec_from_code(code),
    {
        match code {
            Some(1) => RobotTeam::Yellow,
            Some(2) => RobotTeam::Blue,
            _ => RobotTeam::Unknown,
        }
    }
}

/// A boolean as a gauge value.
pub open spec fn spec_bool_to_u8(value: bool) -> u8 {
    if value {
        1
    } else {
        0
    }
}

/// A boolean as a gauge value.
pub fn bool_to_u8(value: bool) -> (r: u8)
    ensures
        r == spec_bool_to_u8(value),
{
    if value {
        1
    } else {
        0
    }
}

/// What the metrics read of a robot feedback packet.
#[derive(Debug, Clone, Copy, PartialEq, Eq, Structural)]
pub struct RobotFeedback {
    pub robot_id: u32,
    pub battery_voltage: Option<u32>,
    pub current: Option<u32>,
    pub kicker_ready: bool,
    pub has_ball: bool,
    pub has_error: Option<bool>,
    pub acting: Option<bool>,
    pub last_rec_packet: Option<u32>,
}

/// The metrics kept for one robot. Timestamps are kept as the text that the
/// caller rendered them to (Unix seconds).
#[derive(Debug)]
pub struct RobotMetrics {
    pub battery_voltage: Option<u32>,
    pub current: Option<u32>,
    pub kicker_ready: bool,
    pub has_ball: bool,
    pub has_error: Option<bool>,
    pub acting: Option<bool>,
    pub last_rec_packet: Option<u32>,
    pub feedback_seen_total: u64,
    pub send_success_total: u64,
    pub send_failure_total: u64,
    pub last_feedback_unix_seconds: Option<String>,
    pub last_send_unix_seconds: Option<String>,
    pub last_send_success: Option<bool>,
}

/// The metrics of a robot that nothing has been recorded for.
pub open spec fn empty_metrics() -> RobotMetrics {
    RobotMetrics {
        battery_voltage: None,
        current: None,
        kicker_ready: false,
        has_ball: false,
        has_error: None,
        acting: None,
        last_rec_packet: None,
        feedback_seen_total: 0,
        send_success_total: 0,
        send_failure_total: 0,
        last_feedback_unix_seconds: None,
        last_send_unix_seconds: None,
        last_send_success: None,
    }
}

/// A counter increased by one, staying at its maximum.
pub open spec fn saturating_inc(n: u64) -> u64 {
    if n < u64::MAX {
        (n + 1) as u64
    } else {
        n
    }
}

/// The metrics after a feedback packet arrived at `now`.
pub open spec fn with_feedback(m: RobotMetrics, feedback: RobotFeedback, now: String) -> RobotMetrics {
    RobotMetrics {
        battery_voltage: feedback.battery_voltage,
        current: feedback.current,
        kicker_ready: feedback.kicker_ready,
        has_ball: feedback.has_ball,
        has_error: feedback.has_error,
        acting: feedback.acting,
        last_rec_packet: feedback.last_rec_packet,
        feedback_seen_total: saturating_inc(m.feedback_seen_total),
        last_feedback_unix_seconds: Some(now),
        ..m
    }
}

/// The metrics after a send attempt at `now`.
pub open spec fn with_send_result(m: RobotMetrics, success: bool, now: String) -> RobotMetrics {
    RobotMetrics {
        last_send_unix_seconds: Some(now),
        last_send_success: Some(success),
        send_success_total: if success {
            saturating_inc(m.send_success_total)
        } else {
            m.send_success_total
        },
        send_failure_total: if success {
            m.send_failure_total
        } else {
            saturating_inc(m.send_failure_total)
        },
        ..m
    }
}

/// A robot that nothing has been recorded for has all counters at zero and
/// no readings or times.
pub proof fn lemma_fresh_robot_has_nothing_counted()
    ensures
        empty_metrics().feedback_seen_total == 0,
        empty_metrics().send_success_total == 0,
        empty_metrics().send_failure_total == 0,
        empty_metrics().last_feedback_unix_seconds is None,
        empty_metrics().last_send_unix_seconds is None,
        empty_metrics().last_send_success is None,
{
}

/// Every feedback packet counts once: the robot's feedback counter goes up
/// by one (and stays at its maximum once there), the packet's readings
/// replace the previous ones, its arrival time is kept, and the send
/// bookkeeping is untouched. The first packet of a new robot counts one.
pub proof fn lemma_feedback_counted_once(m: RobotMetrics, feedback: RobotFeedback, now: String)
    ensures
        ({
            let n = with_feedback(m, feedback, now);
            &&& m.feedback_seen_total < u64::MAX ==> n.feedback_seen_total == m.feedback_seen_total + 1
            &&& m.feedback_seen_total == u64::MAX ==> n.feedback_seen_total == u64::MAX
            &&& n.battery_voltage == feedback.battery_voltage
            &&& n.current == feedback.current
            &&& n.kicker_ready == feedback.kicker_ready
            &&& n.has_ball == feedback.has_ball
            &&& n.has_error == feedback.has_error
            &&& n.acting == feedback.acting
            &&& n.last_rec_packet == feedback.last_rec_packet
            &&& n.last_feedback_unix_seconds == Some(now)
            &&& n.send_success_total == m.send_success_total
            &&& n.send_failure_total == m.send_failure_total
            &&& n.last_send_unix_seconds == m.last_send_unix_seconds
            &&& n.last_send_success == m.last_send_success
        }),
        with_feedback(empty_metrics(), feedback, now).feedback_seen_total == 1,
{
}

/// Every send attempt counts once, as a success or as a failure: exactly
/// one of the two counters goes up by one (staying at its maximum), the
/// attempt's time and outcome are kept, and the feedback bookkeeping is
/// untouched.
pub proof fn lemma_send_attempt_counted_once(m: RobotMetrics, success: bool, now: String)
    ensures
        ({
            let n = with_send_result(m, success, now);
            let (hit, miss) = if success {
                (n.send_success_total, n.send_failure_total)
            } else {
                (n.send_failure_total, n.send_success_total)
            };
            let (hit_before, miss_before) = if success {
                (m.send_success_total, m.send_failure_total)
            } else {
                (m.send_failure_total, m.send_success_total)
            };
            &&& hit_before < u64::MAX ==> hit == hit_before + 1
            &&& hit_before == u64::MAX ==> hit == u64::MAX
            &&& miss == miss_before
            &&& n.last_send_unix_seconds == Some(now)
            &&& n.last_send_success == Some(success)
            &&& n.feedback_seen_total == m.feedback_seen_total
            &&& n.last_feedback_unix_seconds == m.last_feedback_unix_seconds
        }),
{
}

fn clone_text(t: &Option<String>) -> (r: Option<String>)
    ensures
        r == *t,
{
    match t {
        Some(s) => Some(s.clone()),
        None => None,
    }
}

impl RobotMetrics {
    /// Metrics with nothing recorded.
    pub fn new() -> (r: RobotMetrics)
        ensures
            r == empty_metrics(),
    {
        RobotMetrics {
            battery_voltage: None,
            current: None,
            kicker_ready: false,
            has_ball: false,
            has_error: None,
            acting: None,
            last_rec_packet: None,
            feedback_seen_total: 0,
            send_success_total: 0,
            send_failure_total: 0,
            last_feedback_unix_seconds: None,
            last_send_unix_seconds: None,
            last_send_success: None,
        }
    }

    fn duplicate(&self) -> (r: RobotMetrics)
        ensures
            r == *self,
    {
        RobotMetrics {
            battery_voltage: self.battery_voltage,
            current: self.current,
            kicker_ready: self.kicker_ready,
            has_ball: self.has_ball,
            has_error: self.has_error,
            acting: self.acting,
            last_rec_packet: self.last_rec_packet,
            feedback_seen_total: self.feedback_seen_total,
            send_success_total: self.send_success_total,
            send_failure_total: self.send_failure_total,
            last_feedback_unix_seconds: clone_text(&self.last_feedback_unix_seconds),
            last_send_unix_seconds: clone_text(&self.last_send_unix_seconds),
            last_send_success: self.last_send_success,
        }
    }
}

/// Identifies a tracked robot: its id and team.
#[derive(Clone, Copy, Debug, Eq, PartialEq, Structural)]
pub struct TrackedRobotKey {
    pub robot_id: u32,
    pub team: RobotTeam,
}

/// The latest tracked speed of a robot and when it was seen, both as the text
/// that the caller rendered them to.
#[derive(Debug)]
pub struct TrackedRobotVelocity {
    pub velocity_mps: String,
    pub last_seen_unix_seconds: String,
}

/// Order of tracked robots in the output: by id, then by team label.
pub open spec fn key_before(a: TrackedRobotKey, b: TrackedRobotKey) -> bool {
    a.robot_id < b.robot_id || (a.robot_id == b.robot_id && a.team.label_rank() < b.team.label_rank())
}

/// The metrics state: robot metrics ordered by robot id and tracked speeds
/// ordered by robot id and team label, each key once. The entries are kept in
/// sorted vectors rather than hash maps because the exposition text lists
/// them in that order: a hash map would have to be sorted on every render,
/// and walking one gives no order that a contract could state.
pub struct MetricsState {
    pub robots: Vec<(u32, RobotMetrics)>,
    pub tracked_robot_velocities: Vec<(TrackedRobotKey, TrackedRobotVelocity)>,
}

/// Whether the robot entries are ordered by strictly increasing id.
pub open spec fn ids_sorted(s: Seq<(u32, RobotMetrics)>) -> bool {
    forall|i: int, j: int| 0 <= i < j < s.len() ==> s[i].0 < s[j].0
}

/// Whether the speed entries are ordered by strictly increasing key.
pub open spec fn keys_sorted(s: Seq<(TrackedRobotKey, TrackedRobotVelocity)>) -> bool {
    forall|i: int, j: int| 0 <= i < j < s.len() ==> key_before(s[i].0, s[j].0)
}

/// Whether some robot entry has `id`.
pub open spec fn has_id(s: Seq<(u32, RobotMetrics)>, id: u32) -> bool {
    exists|i: int| 0 <= i < s.len() && s[i].0 == id
}

/// The metrics of the entry with `id`.
pub open spec fn metrics_of(s: Seq<(u32, RobotMetrics)>, id: u32) -> RobotMetrics {
    s[choose|i: int| 0 <= i < s.len() && s[i].0 == id].1
}

/// The robot entries as a map from robot id to metrics.
pub open spec fn robots_map(s: Seq<(u32, RobotMetrics)>) -> Map<u32, RobotMetrics> {
    Map::new(|id: u32| has_id(s, id), |id: u32| metrics_of(s, id))
}

/// Whether some speed entry has `key`.
pub open spec fn has_key(s: Seq<(TrackedRobotKey, TrackedRobotVelocity)>, key: TrackedRobotKey) -> bool {
    exists|i: int| 0 <= i < s.len() && s[i].0 == key
}

/// The speed entries as a map from key to (speed, last seen).
pub open spec fn velocities_map(s: Seq<(TrackedRobotKey, TrackedRobotVelocity)>) -> Map<
    TrackedRobotKey,
    (Seq<char>, Seq<char>),
> {
    Map::new(
        |k: TrackedRobotKey| has_key(s, k),
        |k: TrackedRobotKey|
            (velocity_of(s, k).velocity_mps@, velocity_of(s, k).last_seen_unix_seconds@),
    )
}

/// The speed entry with `key`.
pub open spec fn velocity_of(
    s: Seq<(TrackedRobotKey, TrackedRobotVelocity)>,
    key: TrackedRobotKey,
) -> TrackedRobotVelocity {
    s[key_index(s, key)].1
}

/// The index of the speed entry with `key`.
pub open spec fn key_index(s: Seq<(TrackedRobotKey, TrackedRobotVelocity)>, key: TrackedRobotKey) -> int {
    choose|i: int| 0 <= i < s.len() && s[i].0 == key
}

proof fn lemma_metrics_at(s: Seq<(u32, RobotMetrics)>, i: int)
    requires
        ids_sorted(s),
        0 <= i < s.len(),
    ensures
        has_id(s, s[i].0),
        metrics_of(s, s[i].0) == s[i].1,
{
    let id = s[i].0;
    assert(0 <= i < s.len() && s[i].0 == id);
    let j = choose|j: int| 0 <= j < s.len() && s[j].0 == id;
    if j < i {
        assert(s[j].0 < s[i].0);
    } else if i < j {
        assert(s[i].0 < s[j].0);
    }
}

proof fn lemma_velocity_at(s: Seq<(TrackedRobotKey, TrackedRobotVelocity)>, idx: int)
    requires
        keys_sorted(s),
        0 <= idx < s.len(),
    ensures
        has_key(s, s[idx].0),
        velocity_of(s, s[idx].0) == s[idx].1,
        velocities_map(s)[s[idx].0] == (s[idx].1.velocity_mps@, s[idx].1.last_seen_unix_seconds@),
{
    let key = s[idx].0;
    assert(0 <= idx < s.len() && s[idx].0 == key);
    let c = key_index(s, key);
    assert(0 <= c < s.len() && s[c].0 == key);
    if c < idx {
        assert(key_before(s[c].0, s[idx].0));
    } else if idx < c {
        assert(key_before(s[idx].0, s[c].0));
    }
    assert(velocity_of(s, key) == s[c].1);
}

/// The text of one robot metric line.
pub open spec fn robot_line(name: Seq<char>, robot_id: u32, value: Seq<char>) -> Seq<char> {
    name + "{robot_id=\""@ + decimal(robot_id as nat) + "\"} "@ + value + "\n"@
}

/// A timestamp as rendered, or `0` when there is none.
pub open spec fn time_text(t: Option<String>) -> Seq<char> {
    match t {
        Some(s) => s@,
        None => "0"@,
    }
}

/// An optional count as rendered, zero when absent.
pub open spec fn count_text(n: Option<u32>) -> Seq<char> {
    decimal(
        match n {
            Some(v) => v as nat,
            None => 0,
        },
    )
}

/// An optional flag as rendered, zero when absent.
pub open spec fn flag_text(b: Option<bool>) -> Seq<char> {
    decimal(
        spec_bool_to_u8(
            match b {
                Some(v) => v,
                None => false,
            },
        ) as nat,
    )
}

/// The first lines of one robot: registration, feedback and battery.
pub open spec fn robot_block_feedback(id: u32, m: RobotMetrics) -> Seq<char> {
    robot_line("crashpilot_robot_registered"@, id, "1"@)
        + robot_line("crashpilot_robot_feedback_present"@, id, flag_text(Some(m.last_feedback_unix_seconds is Some)))
        + robot_line("crashpilot_robot_battery_voltage"@, id, count_text(m.battery_voltage))
        + robot_line("crashpilot_robot_current"@, id, count_text(m.current))
        + robot_line("crashpilot_robot_kicker_ready"@, id, flag_text(Some(m.kicker_ready)))
}

/// The middle lines of one robot: reported state and counters.
pub open spec fn robot_block_state(id: u32, m: RobotMetrics) -> Seq<char> {
    robot_line("crashpilot_robot_has_ball"@, id, flag_text(Some(m.has_ball)))
        + robot_line("crashpilot_robot_has_error"@, id, flag_text(m.has_error))
        + robot_line("crashpilot_robot_acting"@, id, flag_text(m.acting))
        + robot_line("crashpilot_robot_last_rec_packet"@, id, count_text(m.last_rec_packet))
        + robot_line("crashpilot_robot_feedback_seen_total"@, id, decimal(m.feedback_seen_total as nat))
}

/// The last lines of one robot: sending and timestamps.
pub open spec fn robot_block_send(id: u32, m: RobotMetrics) -> Seq<char> {
    robot_line("crashpilot_robot_send_success_total"@, id, decimal(m.send_success_total as nat))
        + robot_line("crashpilot_robot_send_failure_total"@, id, decimal(m.send_failure_total as nat))
        + robot_line("crashpilot_robot_last_feedback_unix_seconds"@, id, time_text(m.last_feedback_unix_seconds))
        + robot_line("crashpilot_robot_last_send_unix_seconds"@, id, time_text(m.last_send_unix_seconds))
        + robot_line("crashpilot_robot_last_send_success"@, id, flag_text(m.last_send_success))
}

/// The lines of one robot.
pub open spec fn robot_block(id: u32, m: RobotMetrics) -> Seq<char> {
    robot_block_feedback(id, m) + robot_block_state(id, m) + robot_block_send(id, m)
}

/// The lines of all robots, in the order of the entries.
pub open spec fn robots_text(s: Seq<(u32, RobotMetrics)>) -> Seq<char>
    decreases s.len(),
{
    if s.len() == 0 {
        Seq::empty()
    } else {
        robots_text(s.drop_last()) + robot_block(s.last().0, s.last().1)
    }
}

/// The text of one tracked-robot metric line.
pub open spec fn velocity_line(name: Seq<char>, key: TrackedRobotKey, value: Seq<char>) -> Seq<char> {
    name + "{robot_id=\""@ + decimal(key.robot_id as nat) + "\",team=\""@ + key.team.spec_label() + "\"} "@ + value + "\n"@
}

/// The lines of one tracked robot.
pub open spec fn velocity_block(key: TrackedRobotKey, v: TrackedRobotVelocity) -> Seq<char> {
    velocity_line("crashpilot_robot_velocity_mps"@, key, v.velocity_mps@)
        + velocity_line("crashpilot_robot_velocity_last_seen_unix_seconds"@, key, v.last_seen_unix_seconds@)
}

/// The lines of all tracked robots, in the order of the entries.
pub open spec fn velocities_text(s: Seq<(TrackedRobotKey, TrackedRobotVelocity)>) -> Seq<char>
    decreases s.len(),
{
    if s.len() == 0 {
        Seq::empty()
    } else {
        velocities_text(s.drop_last()) + velocity_block(s.last().0, s.last().1)
    }
}

/// The help and type lines of every metric.
pub open spec fn header_text() -> Seq<char> {
    "# HELP crashpilot_robot_registered Whether CrashPilot knows about this robot_id.\n# TYPE crashpilot_robot_registered gauge\n# HELP crashpilot_robot_feedback_present Whether a feedback packet has been received for this robot.\n# TYPE crashpilot_robot_feedback_present gauge\n# HELP crashpilot_robot_battery_voltage Battery voltage reported by the robot.\n# TYPE crashpilot_robot_battery_voltage gauge\n# HELP crashpilot_robot_current Current reported by the robot.\n# TYPE crashpilot_robot_current gauge\n# HELP crashpilot_robot_kicker_ready Whether the kicker is ready.\n# TYPE crashpilot_robot_kicker_ready gauge\n# HELP crashpilot_robot_has_ball Whether the robot reports having the ball.\n# TYPE crashpilot_robot_has_ball gauge\n# HELP crashpilot_robot_has_error Whether the robot reports an error.\n# TYPE crashpilot_robot_has_error gauge\n# HELP crashpilot_robot_acting Whether the robot reports that it is acting.\n# TYPE crashpilot_robot_acting gauge\n# HELP crashpilot_robot_last_rec_packet Last received packet id reported by the robot.\n# TYPE crashpilot_robot_last_rec_packet gauge\n# HELP crashpilot_robot_feedback_seen_total Number of feedback packets received from this robot.\n# TYPE crashpilot_robot_feedback_seen_total counter\n# HELP crashpilot_robot_send_success_total Number of UDP packets successfully sent to this robot.\n# TYPE crashpilot_robot_send_success_total counter\n# HELP crashpilot_robot_send_failure_total Number of UDP packets that failed to send to this robot.\n# TYPE crashpilot_robot_send_failure_total counter\n# HELP crashpilot_robot_last_feedback_unix_seconds Unix timestamp of the latest feedback packet seen for this robot.\n# TYPE crashpilot_robot_last_feedback_unix_seconds gauge\n# HELP crashpilot_robot_last_send_unix_seconds Unix timestamp of the latest UDP send attempt for this robot.\n# TYPE crashpilot_robot_last_send_unix_seconds gauge\n# HELP crashpilot_robot_last_send_success Whether the latest UDP send attempt for this robot succeeded.\n# TYPE crashpilot_robot_last_send_success gauge\n# HELP crashpilot_robot_velocity_mps Magnitude of the tracked robot velocity in meters per second.\n# TYPE crashpilot_robot_velocity_mps gauge\n# HELP crashpilot_robot_velocity_last_seen_unix_seconds Unix timestamp of the latest tracked velocity sample for this robot.\n# TYPE crashpilot_robot_velocity_last_seen_unix_seconds gauge\n"@
}

/// The whole exposition text.
pub open spec fn render_text(state: MetricsState) -> Seq<char> {
    header_text() + robots_text(state.robots@) + velocities_text(state.tracked_robot_velocities@)
}

fn push_robot_line(out: &mut String, name: &str, robot_id: u32, value: u64)
    ensures
        final(out)@ == old(out)@ + robot_line(name@, robot_id, decimal(value as nat)),
{
    let ghost start = out@;
    push_str(out, name);
    push_str(out, "{robot_id=\"");
    push_decimal(out, robot_id as u64);
    push_str(out, "\"} ");
    push_decimal(out, value);
    push_str(out, "\n");
    assert(out@ =~= start + robot_line(name@, robot_id, decimal(value as nat)));
}

fn push_robot_text_line(out: &mut String, name: &str, robot_id: u32, value: &str)
    ensures
        final(out)@ == old(out)@ + robot_line(name@, robot_id, value@),
{
    let ghost start = out@;
    push_str(out, name);
    push_str(out, "{robot_id=\"");
    push_decimal(out, robot_id as u64);
    push_str(out, "\"} ");
    push_str(out, value);
    push_str(out, "\n");
    assert(out@ =~= start + robot_line(name@, robot_id, value@));
}

fn push_time_line(out: &mut String, name: &str, robot_id: u32, t: &Option<String>)
    ensures
        final(out)@ == old(out)@ + robot_line(name@, robot_id, time_text(*t)),
{
    match t {
        Some(s) => push_robot_text_line(out, name, robot_id, s.as_str()),
        None => push_robot_text_line(out, name, robot_id, "0"),
    }
}

fn count_value(n: Option<u32>) -> (r: u64)
    ensures
        decimal(r as nat) == count_text(n),
{
    match n {
        Some(v) => v as u64,
        None => 0,
    }
}

fn flag_value(b: Option<bool>) -> (r: u64)
    ensures
        decimal(r as nat) == flag_text(b),
{
    let v = match b {
        Some(v) => v,
        None => false,
    };
    bool_to_u8(v) as u64
}

fn push_robot_block_feedback(out: &mut String, robot_id: u32, m: &RobotMetrics)
    ensures
        final(out)@ == old(out)@ + robot_block_feedback(robot_id, *m),
{
    let ghost start = out@;
    let feedback_present = match m.last_feedback_unix_seconds {
        Some(_) => true,
        None => false,
    };
    proof {
        reveal_strlit("1");
        assert(decimal(1) =~= "1"@);
    }
    push_robot_line(out, "crashpilot_robot_registered", robot_id, 1);
    push_robot_line(out, "crashpilot_robot_feedback_present", robot_id, flag_value(Some(feedback_present)));
    push_robot_line(out, "crashpilot_robot_battery_voltage", robot_id, count_value(m.battery_voltage));
    push_robot_line(out, "crashpilot_robot_current", robot_id, count_value(m.current));
    push_robot_line(out, "crashpilot_robot_kicker_ready", robot_id, flag_value(Some(m.kicker_ready)));
    assert(out@ =~= start + robot_block_feedback(robot_id, *m));
}

fn push_robot_block_state(out: &mut String, robot_id: u32, m: &RobotMetrics)
    ensures
        final(out)@ == old(out)@ + robot_block_state(robot_id, *m),
{
    let ghost start = out@;
    push_robot_line(out, "crashpilot_robot_has_ball", robot_id, flag_value(Some(m.has_ball)));
    push_robot_line(out, "crashpilot_robot_has_error", robot_id, flag_value(m.has_error));
    push_robot_line(out, "crashpilot_robot_acting", robot_id, flag_value(m.acting));
    push_robot_line(out, "crashpilot_robot_last_rec_packet", robot_id, count_value(m.last_rec_packet));
    push_robot_line(out, "crashpilot_robot_feedback_seen_total", robot_id, m.feedback_seen_total);
    assert(out@ =~= start + robot_block_state(robot_id, *m));
}

fn push_robot_block_send(out: &mut String, robot_id: u32, m: &RobotMetrics)
    ensures
        final(out)@ == old(out)@ + robot_block_send(robot_id, *m),
{
    let ghost start = out@;
    push_robot_line(out, "crashpilot_robot_send_success_total", robot_id, m.send_success_total);
    push_robot_line(out, "crashpilot_robot_send_failure_total", robot_id, m.send_failure_total);
    push_time_line(out, "crashpilot_robot_last_feedback_unix_seconds", robot_id, &m.last_feedback_unix_seconds);
    push_time_line(out, "crashpilot_robot_last_send_unix_seconds", robot_id, &m.last_send_unix_seconds);
    push_robot_line(out, "crashpilot_robot_last_send_success", robot_id, flag_value(m.last_send_success));
    assert(out@ =~= start + robot_block_send(robot_id, *m));
}

fn push_robot_block(out: &mut String, robot_id: u32, m: &RobotMetrics)
    ensures
        final(out)@ == old(out)@ + robot_block(robot_id, *m),
{
    let ghost start = out@;
    push_robot_block_feedback(out, robot_id, m);
    push_robot_block_state(out, robot_id, m);
    push_robot_block_send(out, robot_id, m);
    assert(out@ =~= start + robot_block(robot_id, *m));
}

fn push_velocity_line(out: &mut String, name: &str, key: TrackedRobotKey, value: &str)
    ensures
        final(out)@ == old(out)@ + velocity_line(name@, key, value@),
{
    let ghost start = out@;
    push_str(out, name);
    push_str(out, "{robot_id=\"");
    push_decimal(out, key.robot_id as u64);
    push_str(out, "\",team=\"");
    push_str(out, key.team.as_str());
    push_str(out, "\"} ");
    push_str(out, value);
    push_str(out, "\n");
    assert(out@ =~= start + velocity_line(name@, key, value@));
}

impl MetricsState {
    /// The state invariant: entries ordered by key, each key once.
    pub open spec fn wf(&self) -> bool {
        &&& ids_sorted(self.robots@)
        &&& keys_sorted(self.tracked_robot_velocities@)
    }

    /// A state with nothing recorded.
    pub fn new() -> (r: MetricsState)
        ensures
            r.wf(),
            r.robots@.len() == 0,
            r.tracked_robot_velocities@.len() == 0,
    {
        MetricsState { robots: Vec::new(), tracked_robot_velocities: Vec::new() }
    }

    fn locate(&self, robot_id: u32) -> (r: Result<usize, usize>)
        requires
            self.wf(),
        ensures
            r matches Ok(i) ==> i < self.robots@.len() && self.robots@[i as int].0 == robot_id,
            r matches Err(p) ==> p <= self.robots@.len() && (forall|k: int|
                0 <= k < p ==> self.robots@[k].0 < robot_id) && (forall|k: int|
                p <= k < self.robots@.len() ==> self.robots@[k].0 > robot_id),
    {
        let mut i: usize = 0;
        while i < self.robots.len()
            invariant
                self.wf(),
                i <= self.robots@.len(),
                forall|k: int| 0 <= k < i ==> self.robots@[k].0 < robot_id,
            decreases self.robots@.len() - i,
        {
            let id = self.robots[i].0;
            if id == robot_id {
                return Ok(i);
            }
            if id > robot_id {
                return Err(i);
            }
            i = i + 1;
        }
        Err(i)
    }

    /// Makes sure an entry for `robot_id` exists and returns its index; a new
    /// entry has nothing recorded.
    fn entry_index(&mut self, robot_id: u32) -> (r: usize)
        requires
            old(self).wf(),
        ensures
            final(self).wf(),
            r < final(self).robots@.len(),
            final(self).robots@[r as int].0 == robot_id,
            robots_map(final(self).robots@) == if has_id(old(self).robots@, robot_id) {
                robots_map(old(self).robots@)
            } else {
                robots_map(old(self).robots@).insert(robot_id, empty_metrics())
            },
            final(self).tracked_robot_velocities == old(self).tracked_robot_velocities,
            has_id(old(self).robots@, robot_id) ==> final(self).robots@ == old(self).robots@,
    {
        match self.locate(robot_id) {
            Ok(i) => {
                proof {
                    lemma_metrics_at(self.robots@, i as int);
                }
                i
            },
            Err(p) => {
                let ghost old_s = self.robots@;
                proof {
                    assert forall|k: int| 0 <= k < old_s.len() implies old_s[k].0 != robot_id by {
                        if k < p {
                        } else {
                        }
                    }
                }
                self.robots.insert(p, (robot_id, RobotMetrics::new()));
                proof {
                    let s = self.robots@;
                    assert forall|a: int, b: int| 0 <= a < b < s.len() implies s[a].0 < s[b].0 by {
                        if a < p && b < p {
                            assert(s[a] == old_s[a] && s[b] == old_s[b]);
                        } else if a < p && b == p {
                        } else if a < p && b > p {
                            assert(s[b] == old_s[b - 1]);
                        } else if a == p {
                            assert(s[b] == old_s[b - 1]);
                        } else {
                            assert(s[a] == old_s[a - 1] && s[b] == old_s[b - 1]);
                        }
                    }
                    assert(s[p as int] == (robot_id, empty_metrics()));
                    lemma_metrics_at(s, p as int);
                    assert(!has_id(old_s, robot_id));
                    assert forall|id: u32| #![auto] has_id(s, id) <==> (has_id(old_s, id) || id == robot_id) by {
                        if has_id(s, id) {
                            let k = choose|k: int| 0 <= k < s.len() && s[k].0 == id;
                            if k < p {
                                assert(old_s[k].0 == id);
                            } else if k > p {
                                assert(old_s[k - 1].0 == id);
                            }
                        }
                        if has_id(old_s, id) {
                            let k = choose|k: int| 0 <= k < old_s.len() && old_s[k].0 == id;
                            if k < p {
                                assert(s[k].0 == id);
                            } else {
                                assert(s[k + 1].0 == id);
                            }
                        }
                    }
                    assert forall|id: u32| has_id(old_s, id) implies metrics_of(s, id) == metrics_of(old_s, id) by {
                        let k = choose|k: int| 0 <= k < old_s.len() && old_s[k].0 == id;
                        lemma_metrics_at(old_s, k);
                        if k < p {
                            lemma_metrics_at(s, k);
                        } else {
                            lemma_metrics_at(s, k + 1);
                        }
                    }
                    assert(robots_map(s) =~= robots_map(old_s).insert(robot_id, empty_metrics()));
                }
                p
            },
        }
    }

    /// Replaces the metrics at index `i`, keeping its id.
    fn replace_at(&mut self, i: usize, m: RobotMetrics)
        requires
            old(self).wf(),
            i < old(self).robots@.len(),
        ensures
            final(self).wf(),
            final(self).robots@ == old(self).robots@.update(i as int, (old(self).robots@[i as int].0, m)),
            robots_map(final(self).robots@) == robots_map(old(self).robots@).insert(
                old(self).robots@[i as int].0,
                m,
            ),
            final(self).tracked_robot_velocities == old(self).tracked_robot_velocities,
    {
        let id = self.robots[i].0;
        let ghost old_s = self.robots@;
        self.robots[i] = (id, m);
        proof {
            let s = self.robots@;
            assert(s =~= old_s.update(i as int, (id, m)));
            assert forall|a: int, b: int| 0 <= a < b < s.len() implies s[a].0 < s[b].0 by {
                assert(s[a].0 == old_s[a].0 && s[b].0 == old_s[b].0);
            }
            assert forall|k: u32| #![auto] has_id(s, k) <==> has_id(old_s, k) by {
                if has_id(s, k) {
                    let j = choose|j: int| 0 <= j < s.len() && s[j].0 == k;
                    assert(old_s[j].0 == k);
                }
                if has_id(old_s, k) {
                    let j = choose|j: int| 0 <= j < old_s.len() && old_s[j].0 == k;
                    assert(s[j].0 == k);
                }
            }
            lemma_metrics_at(old_s, i as int);
            lemma_metrics_at(s, i as int);
            assert forall|k: u32| has_id(old_s, k) && k != id implies metrics_of(s, k) == metrics_of(old_s, k) by {
                let j = choose|j: int| 0 <= j < old_s.len() && old_s[j].0 == k;
                lemma_metrics_at(old_s, j);
                lemma_metrics_at(s, j);
            }
            assert(robots_map(s) =~= robots_map(old_s).insert(id, m));
        }
    }

    /// Registers a robot so that its series exist even before any feedback.
    pub fn register_robot(&mut self, robot_id: u32)
        requires
            old(self).wf(),
        ensures
            final(self).wf(),
            robots_map(final(self).robots@) == if has_id(old(self).robots@, robot_id) {
                robots_map(old(self).robots@)
            } else {
                robots_map(old(self).robots@).insert(robot_id, empty_metrics())
            },
            final(self).tracked_robot_velocities == old(self).tracked_robot_velocities,
    {
        let _ = self.entry_index(robot_id);
    }

    /// Records a feedback packet received at `now` (rendered Unix seconds); a
    /// robot not seen before is registered.
    pub fn record_robot_feedback(&mut self, feedback: RobotFeedback, now: String)
        requires
            old(self).wf(),
        ensures
            final(self).wf(),
            robots_map(final(self).robots@) == robots_map(old(self).robots@).insert(
                feedback.robot_id,
                with_feedback(
                    if has_id(old(self).robots@, feedback.robot_id) {
                        metrics_of(old(self).robots@, feedback.robot_id)
                    } else {
                        empty_metrics()
                    },
                    feedback,
                    now,
                ),
            ),
            final(self).tracked_robot_velocities == old(self).tracked_robot_velocities,
    {
        let ghost old_map = robots_map(old(self).robots@);
        let i = self.entry_index(feedback.robot_id);
        let ghost prior = if has_id(old(self).robots@, feedback.robot_id) {
            metrics_of(old(self).robots@, feedback.robot_id)
        } else {
            empty_metrics()
        };
        proof {
            lemma_metrics_at(self.robots@, i as int);
            assert(robots_map(self.robots@)[feedback.robot_id] == metrics_of(self.robots@, feedback.robot_id));
            assert(self.robots@[i as int].1 == prior);
        }
        let mut m = self.robots[i].1.duplicate();
        m.battery_voltage = feedback.battery_voltage;
        m.current = feedback.current;
        m.kicker_ready = feedback.kicker_ready;
        m.has_ball = feedback.has_ball;
        m.has_error = feedback.has_error;
        m.acting = feedback.acting;
        m.last_rec_packet = feedback.last_rec_packet;
        m.feedback_seen_total = m.feedback_seen_total.saturating_add(1);
        let ghost now_text = now;
        m.last_feedback_unix_seconds = Some(now);
        let ghost expected = with_feedback(prior, feedback, now_text);
        assert(m == expected);
        self.replace_at(i, m);
        proof {
            assert(robots_map(self.robots@) =~= old_map.insert(feedback.robot_id, expected));
        }
    }

    /// Records a send attempt at `now` (rendered Unix seconds); a robot not
    /// seen before is registered.
    pub fn record_send_result(&mut self, robot_id: u32, success: bool, now: String)
        requires
            old(self).wf(),
        ensures
            final(self).wf(),
            robots_map(final(self).robots@) == robots_map(old(self).robots@).insert(
                robot_id,
                with_send_result(
                    if has_id(old(self).robots@, robot_id) {
                        metrics_of(old(self).robots@, robot_id)
                    } else {
                        empty_metrics()
                    },
                    success,
                    now,
                ),
            ),
            final(self).tracked_robot_velocities == old(self).tracked_robot_velocities,
    {
        let ghost old_map = robots_map(old(self).robots@);
        let i = self.entry_index(robot_id);
        let ghost prior = if has_id(old(self).robots@, robot_id) {
            metrics_of(old(self).robots@, robot_id)
        } else {
            empty_metrics()
        };
        proof {
            lemma_metrics_at(self.robots@, i as int);
            assert(robots_map(self.robots@)[robot_id] == metrics_of(self.robots@, robot_id));
            assert(self.robots@[i as int].1 == prior);
        }
        let ghost now_text = now;
        let mut m = self.robots[i].1.duplicate();
        m.last_send_unix_seconds = Some(now);
        m.last_send_success = Some(success);
        if success {
            m.send_success_total = m.send_success_total.saturating_add(1);
        } else {
            m.send_failure_total = m.send_failure_total.saturating_add(1);
        }
        let ghost expected = with_send_result(prior, success, now_text);
        assert(m == expected);
        self.replace_at(i, m);
        proof {
            assert(robots_map(self.robots@) =~= old_map.insert(robot_id, expected));
        }
    }

    /// Records the tracked speed of one robot of a tracked frame, seen at
    /// `now`. A robot without id is skipped; the team code gives the team label.
    pub fn record_tracked_robot(
        &mut self,
        robot_id: Option<u32>,
        team_code: Option<i32>,
        velocity_mps: String,
        now: String,
    )
        requires
            old(self).wf(),
        ensures
            final(self).wf(),
            final(self).robots == old(self).robots,
            velocities_map(final(self).tracked_robot_velocities@) == match robot_id {
                Some(id) => velocities_map(old(self).tracked_robot_velocities@).insert(
                    TrackedRobotKey { robot_id: id, team: RobotTeam::spec_from_code(team_code) },
                    (velocity_mps@, now@),
                ),
                None => velocities_map(old(self).tracked_robot_velocities@),
            },
    {
        let id = match robot_id {
            Some(id) => id,
            None => {
                return;
            },
        };
        let key = TrackedRobotKey { robot_id: id, team: RobotTeam::from_code(team_code) };
        let ghost old_s = self.tracked_robot_velocities@;
        let value = TrackedRobotVelocity { velocity_mps, last_seen_unix_seconds: now };
        let (i, found) = self.locate_key(key);
        if found {
            self.tracked_robot_velocities[i] = (key, value);
        } else {
            self.tracked_robot_velocities.insert(i, (key, value));
        }
        proof {
            let s = self.tracked_robot_velocities@;
            if found {
                assert(old_s[i as int].0 == key);
                assert(s =~= old_s.update(i as int, (key, value)));
            } else {
                assert(s =~= old_s.insert(i as int, (key, value)));
            }
            assert forall|a: int, b: int| 0 <= a < b < s.len() implies key_before(s[a].0, s[b].0) by {
                if found {
                    if a == i {
                        assert(key_before(old_s[a].0, old_s[b].0));
                    } else if b == i {
                        assert(key_before(old_s[a].0, old_s[b].0));
                    }
                } else {
                    if a < i && b == i {
                    } else if a < i && b > i {
                        assert(s[b] == old_s[b - 1]);
                    } else if a == i {
                        assert(s[b] == old_s[b - 1]);
                    } else if a > i {
                        assert(s[a] == old_s[a - 1] && s[b] == old_s[b - 1]);
                        assert(key_before(old_s[a - 1].0, old_s[b - 1].0));
                    } else {
                        assert(key_before(old_s[a].0, old_s[b].0));
                    }
                }
            }
            assert forall|k: TrackedRobotKey| #![auto] has_key(s, k) <==> (has_key(old_s, k) || k == key) by {
                if has_key(s, k) {
                    let j = choose|j: int| 0 <= j < s.len() && s[j].0 == k;
                    if found {
                        if j != i {
                            assert(old_s[j].0 == k);
                        }
                    } else if j < i {
                        assert(old_s[j].0 == k);
                    } else if j > i {
                        assert(old_s[j - 1].0 == k);
                    }
                }
                if has_key(old_s, k) {
                    let j = choose|j: int| 0 <= j < old_s.len() && old_s[j].0 == k;
                    if found || j < i {
                        assert(s[j].0 == k || j == i);
                    } else {
                        assert(s[j + 1].0 == k);
                    }
                }
                if k == key {
                    assert(s[i as int].0 == key);
                }
            }
            let vs = velocities_map(s);
            let vo = velocities_map(old_s);
            lemma_velocity_at(s, i as int);
            assert forall|k: TrackedRobotKey| has_key(old_s, k) && k != key implies vs[k] == vo[k] by {
                let j = choose|j: int| 0 <= j < old_s.len() && old_s[j].0 == k;
                lemma_velocity_at(old_s, j);
                if found || j < i {
                    lemma_velocity_at(s, j);
                } else {
                    lemma_velocity_at(s, j + 1);
                }
            }
            assert(vs =~= vo.insert(key, (value.velocity_mps@, value.last_seen_unix_seconds@)));
        }
    }

    fn locate_key(&self, key: TrackedRobotKey) -> (r: (usize, bool))
        requires
            self.wf(),
        ensures
            r.0 <= self.tracked_robot_velocities@.len(),
            r.1 ==> r.0 < self.tracked_robot_velocities@.len()
                && self.tracked_robot_velocities@[r.0 as int].0 == key,
            !r.1 ==> (forall|k: int|
                0 <= k < r.0 ==> key_before(self.tracked_robot_velocities@[k].0, key)) && (forall|
                k: int,
            |
                r.0 <= k < self.tracked_robot_velocities@.len() ==> key_before(
                    key,
                    self.tracked_robot_velocities@[k].0,
                )),
    {
        let rank = team_rank(key.team);
        let mut i: usize = 0;
        while i < self.tracked_robot_velocities.len()
            invariant
                self.wf(),
                i <= self.tracked_robot_velocities@.len(),
                rank == key.team.label_rank(),
                forall|k: int| 0 <= k < i ==> key_before(self.tracked_robot_velocities@[k].0, key),
            decreases self.tracked_robot_velocities@.len() - i,
        {
            let k = self.tracked_robot_velocities[i].0;
            let k_rank = team_rank(k.team);
            if k.robot_id == key.robot_id && k_rank == rank {
                proof {
                    lemma_rank_injective(k.team, key.team);
                }
                return (i, true);
            }
            if k.robot_id > key.robot_id || (k.robot_id == key.robot_id && k_rank > rank) {
                proof {
                    assert forall|j: int|
                        i <= j < self.tracked_robot_velocities@.len() implies key_before(
                        key,
                        self.tracked_robot_velocities@[j].0,
                    ) by {
                        if j > i {
                            assert(key_before(
                                self.tracked_robot_velocities@[i as int].0,
                                self.tracked_robot_velocities@[j].0,
                            ));
                        }
                    }
                }
                return (i, false);
            }
            i = i + 1;
        }
        (i, false)
    }

    /// The Prometheus exposition text: the help and type lines of every
    /// metric, then the lines of every robot in increasing id order, then the
    /// speed lines of every tracked robot ordered by id and team label.
    pub fn render(&self) -> (r: String)
        ensures
            r@ == render_text(*self),
    {
        let mut out = String::new();
        push_str(&mut out, "# HELP crashpilot_robot_registered Whether CrashPilot knows about this robot_id.\n# TYPE crashpilot_robot_registered gauge\n# HELP crashpilot_robot_feedback_present Whether a feedback packet has been received for this robot.\n# TYPE crashpilot_robot_feedback_present gauge\n# HELP crashpilot_robot_battery_voltage Battery voltage reported by the robot.\n# TYPE crashpilot_robot_battery_voltage gauge\n# HELP crashpilot_robot_current Current reported by the robot.\n# TYPE crashpilot_robot_current gauge\n# HELP crashpilot_robot_kicker_ready Whether the kicker is ready.\n# TYPE crashpilot_robot_kicker_ready gauge\n# HELP crashpilot_robot_has_ball Whether the robot reports having the ball.\n# TYPE crashpilot_robot_has_ball gauge\n# HELP crashpilot_robot_has_error Whether the robot reports an error.\n# TYPE crashpilot_robot_has_error gauge\n# HELP crashpilot_robot_acting Whether the robot reports that it is acting.\n# TYPE crashpilot_robot_acting gauge\n# HELP crashpilot_robot_last_rec_packet Last received packet id reported by the robot.\n# TYPE crashpilot_robot_last_rec_packet gauge\n# HELP crashpilot_robot_feedback_seen_total Number of feedback packets received from this robot.\n# TYPE crashpilot_robot_feedback_seen_total counter\n# HELP crashpilot_robot_send_success_total Number of UDP packets successfully sent to this robot.\n# TYPE crashpilot_robot_send_success_total counter\n# HELP crashpilot_robot_send_failure_total Number of UDP packets that failed to send to this robot.\n# TYPE crashpilot_robot_send_failure_total counter\n# HELP crashpilot_robot_last_feedback_unix_seconds Unix timestamp of the latest feedback packet seen for this robot.\n# TYPE crashpilot_robot_last_feedback_unix_seconds gauge\n# HELP crashpilot_robot_last_send_unix_seconds Unix timestamp of the latest UDP send attempt for this robot.\n# TYPE crashpilot_robot_last_send_unix_seconds gauge\n# HELP crashpilot_robot_last_send_success Whether the latest UDP send attempt for this robot succeeded.\n# TYPE crashpilot_robot_last_send_success gauge\n# HELP crashpilot_robot_velocity_mps Magnitude of the tracked robot velocity in meters per second.\n# TYPE crashpilot_robot_velocity_mps gauge\n# HELP crashpilot_robot_velocity_last_seen_unix_seconds Unix timestamp of the latest tracked velocity sample for this robot.\n# TYPE crashpilot_robot_velocity_last_seen_unix_seconds gauge\n");
        let mut i: usize = 0;
        while i < self.robots.len()
            invariant
                i <= self.robots@.len(),
                out@ == header_text() + robots_text(self.robots@.take(i as int)),
            decreases self.robots@.len() - i,
        {
            let ghost before = out@;
            push_robot_block(&mut out, self.robots[i].0, &self.robots[i].1);
            proof {
                let t = self.robots@.take(i + 1 as int);
                assert(t.drop_last() =~= self.robots@.take(i as int));
                assert(out@ =~= header_text() + robots_text(t));
            }
            i = i + 1;
        }
        assert(self.robots@.take(self.robots@.len() as int) =~= self.robots@);
        let ghost robots_done = out@;
        let mut j: usize = 0;
        while j < self.tracked_robot_velocities.len()
            invariant
                j <= self.tracked_robot_velocities@.len(),
                robots_done == header_text() + robots_text(self.robots@),
                out@ == robots_done + velocities_text(self.tracked_robot_velocities@.take(j as int)),
            decreases self.tracked_robot_velocities@.len() - j,
        {
            let key = self.tracked_robot_velocities[j].0;
            push_velocity_line(
                &mut out,
                "crashpilot_robot_velocity_mps",
                key,
                self.tracked_robot_velocities[j].1.velocity_mps.as_str(),
            );
            push_velocity_line(
                &mut out,
                "crashpilot_robot_velocity_last_seen_unix_seconds",
                key,
                self.tracked_robot_velocities[j].1.last_seen_unix_seconds.as_str(),
            );
            proof {
                let t = self.tracked_robot_velocities@.take(j + 1 as int);
                assert(t.drop_last() =~= self.tracked_robot_velocities@.take(j as int));
                assert(out@ =~= robots_done + velocities_text(t));
            }
            j = j + 1;
        }
        assert(self.tracked_robot_velocities@.take(self.tracked_robot_velocities@.len() as int)
            =~= self.tracked_robot_velocities@);
        out
    }
}

fn team_rank(team: RobotTeam) -> (r: u8)
    ensures
        r as int == team.label_rank(),
{
    match team {
        RobotTeam::Blue => 0,
        RobotTeam::Unknown => 1,
        RobotTeam::Yellow => 2,
    }
}

proof fn lemma_rank_injective(a: RobotTeam, b: RobotTeam)
    requires
        a.label_rank() == b.label_rank(),
    ensures
        a == b,
{
}

/// What the metrics server answers a request with.
#[derive(Debug, Clone, Copy, PartialEq, Eq, Structural)]
pub enum MetricsRoute {
    /// `GET /metrics`: the exposition text, status 200.
    Metrics,
    /// `GET /health`: `ok`, status 200.
    Health,
    /// Any other `GET`: `not found`, status 404.
    NotFound,
    /// Any other method: `method not allowed`, status 405.
    MethodNotAllowed,
}

/// The answer to a request whose method is `GET` or not and whose path is `path`.
pub open spec fn spec_route(is_get: bool, path: Seq<char>) -> MetricsRoute {
    if !is_get {
        MetricsRoute::MethodNotAllowed
    } else if path == "/metrics"@ {
        MetricsRoute::Metrics
    } else if path == "/health"@ {
        MetricsRoute::Health
    } else {
        MetricsRoute::NotFound
    }
}

/// The HTTP status of an answer.
pub open spec fn route_status(route: MetricsRoute) -> u16 {
    match route {
        MetricsRoute::Metrics => 200,
        MetricsRoute::Health => 200,
        MetricsRoute::NotFound => 404,
        MetricsRoute::MethodNotAllowed => 405,
    }
}

/// The answer to a request: what it gets, by method and path.
pub fn route(is_get: bool, path: &str) -> (r: MetricsRoute)
    ensures
        r == spec_route(is_get, path@),
{
    if !is_get {
        MetricsRoute::MethodNotAllowed
    } else if str_eq(path, "/metrics") {
        MetricsRoute::Metrics
    } else if str_eq(path, "/health") {
        MetricsRoute::Health
    } else {
        MetricsRoute::NotFound
    }
}

impl MetricsState {
    /// The status and plain-text body of the answer to a request.
    pub fn respond(&self, is_get: bool, path: &str) -> (r: (u16, String))
        ensures
            r.0 == route_status(spec_route(is_get, path@)),
            r.1@ == match spec_route(is_get, path@) {
                MetricsRoute::Metrics => render_text(*self),
                MetricsRoute::Health => "ok\n"@,
                MetricsRoute::NotFound => "not found\n"@,
                MetricsRoute::MethodNotAllowed => "method not allowed\n"@,
            },
    {
        let mut body = String::new();
        match route(is_get, path) {
            MetricsRoute::Metrics => (200, self.render()),
            MetricsRoute::Health => {
                push_str(&mut body, "ok\n");
                (200, body)
            },
            MetricsRoute::NotFound => {
                push_str(&mut body, "not found\n");
                (404, body)
            },
            MetricsRoute::MethodNotAllowed => {
                push_str(&mut body, "method not allowed\n");
                (405, body)
            },
        }
    }
}

/// Whether `line` occurs in `text` as a contiguous piece.
pub open spec fn has_line(text: Seq<char>, line: Seq<char>) -> bool {
    exists|i: int| 0 <= i && i + line.len() <= text.len() && #[trigger] text.subrange(i, i + line.len()) == line
}

proof fn lemma_has_line_at(text: Seq<char>, line: Seq<char>, i: int)
    requires
        0 <= i && i + line.len() <= text.len(),
        text.subrange(i, i + line.len()) == line,
    ensures
        has_line(text, line),
{
}

proof fn lemma_has_line_within(text: Seq<char>, piece: Seq<char>, line: Seq<char>)
    requires
        has_line(text, piece),
        has_line(piece, line),
    ensures
        has_line(text, line),
{
    let i = choose|i: int| 0 <= i && i + piece.len() <= text.len() && #[trigger] text.subrange(i, i + piece.len()) == piece;
    let j = choose|j: int| 0 <= j && j + line.len() <= piece.len() && #[trigger] piece.subrange(j, j + line.len()) == line;
    assert(text.subrange(i + j, i + j + line.len()) =~= line) by {
        assert forall|t: int| 0 <= t < line.len() implies text.subrange(i + j, i + j + line.len())[t] == line[t] by {
            assert(piece[j + t] == text.subrange(i, i + piece.len())[j + t]);
            assert(line[t] == piece.subrange(j, j + line.len())[t]);
        }
    }
    lemma_has_line_at(text, line, i + j);
}

proof fn lemma_has_line_in_sum(a: Seq<char>, b: Seq<char>)
    ensures
        has_line(a + b, a),
        has_line(a + b, b),
{
    assert((a + b).subrange(0, a.len() as int) =~= a);
    lemma_has_line_at(a + b, a, 0);
    assert((a + b).subrange(a.len() as int, (a.len() + b.len()) as int) =~= b);
    lemma_has_line_at(a + b, b, a.len() as int);
}

#[verifier::spinoff_prover]
proof fn lemma_robots_text_has_block(s: Seq<(u32, RobotMetrics)>, k: int)
    requires
        0 <= k < s.len(),
    ensures
        has_line(robots_text(s), robot_block(s[k].0, s[k].1)),
    decreases s.len(),
{
    let rest = s.drop_last();
    assert(robots_text(s) == robots_text(rest) + robot_block(s.last().0, s.last().1));
    lemma_has_line_in_sum(robots_text(rest), robot_block(s.last().0, s.last().1));
    if k < s.len() - 1 {
        lemma_robots_text_has_block(rest, k);
        assert(rest[k] == s[k]);
        lemma_has_line_within(robots_text(s), robots_text(rest), robot_block(s[k].0, s[k].1));
    }
}

/// The exposition shows the counters of every robot it knows: for each
/// robot, the line of its feedback counter and the lines of its send
/// success and failure counters, each with the robot's own count.
pub proof fn lemma_render_shows_robot_counters(state: MetricsState, k: int)
    requires
        0 <= k < state.robots@.len(),
    ensures
        ({
            let id = state.robots@[k].0;
            let m = state.robots@[k].1;
            let text = render_text(state);
            &&& has_line(text, robot_line("crashpilot_robot_feedback_seen_total"@, id, decimal(m.feedback_seen_total as nat)))
            &&& has_line(text, robot_line("crashpilot_robot_send_success_total"@, id, decimal(m.send_success_total as nat)))
            &&& has_line(text, robot_line("crashpilot_robot_send_failure_total"@, id, decimal(m.send_failure_total as nat)))
        }),
{
    let id = state.robots@[k].0;
    let m = state.robots@[k].1;
    let text = render_text(state);
    let block = robot_block(id, m);
    lemma_robots_text_has_block(state.robots@, k);
    lemma_has_line_in_sum(header_text(), robots_text(state.robots@));
    lemma_has_line_in_sum(header_text() + robots_text(state.robots@), velocities_text(state.tracked_robot_velocities@));
    lemma_has_line_within(header_text() + robots_text(state.robots@), robots_text(state.robots@), block);
    lemma_has_line_within(text, header_text() + robots_text(state.robots@), block);
    let f = robot_block_feedback(id, m);
    let st = robot_block_state(id, m);
    let sd = robot_block_send(id, m);
    lemma_has_line_in_sum(f + st, sd);
    lemma_has_line_in_sum(f, st);
    lemma_has_line_within(block, f + st, st);
    lemma_has_line_within(text, block, st);
    lemma_has_line_within(text, block, sd);
    let fl = robot_line("crashpilot_robot_feedback_seen_total"@, id, decimal(m.feedback_seen_total as nat));
    let st_front = robot_line("crashpilot_robot_has_ball"@, id, flag_text(Some(m.has_ball)))
        + robot_line("crashpilot_robot_has_error"@, id, flag_text(m.has_error))
        + robot_line("crashpilot_robot_acting"@, id, flag_text(m.acting))
        + robot_line("crashpilot_robot_last_rec_packet"@, id, count_text(m.last_rec_packet));
    lemma_has_line_in_sum(st_front, fl);
    lemma_has_line_within(text, st, fl);
    let ok = robot_line("crashpilot_robot_send_success_total"@, id, decimal(m.send_success_total as nat));
    let bad = robot_line("crashpilot_robot_send_failure_total"@, id, decimal(m.send_failure_total as nat));
    let sd_back = robot_line("crashpilot_robot_last_feedback_unix_seconds"@, id, time_text(m.last_feedback_unix_seconds))
        + robot_line("crashpilot_robot_last_send_unix_seconds"@, id, time_text(m.last_send_unix_seconds))
        + robot_line("crashpilot_robot_last_send_success"@, id, flag_text(m.last_send_success));
    assert(sd =~= ((ok + bad) + robot_line("crashpilot_robot_last_feedback_unix_seconds"@, id, time_text(m.last_feedback_unix_seconds)))
        + robot_line("crashpilot_robot_last_send_unix_seconds"@, id, time_text(m.last_send_unix_seconds))
        + robot_line("crashpilot_robot_last_send_success"@, id, flag_text(m.last_send_success)));
    let a1 = (ok + bad) + robot_line("crashpilot_robot_last_feedback_unix_seconds"@, id, time_text(m.last_feedback_unix_seconds));
    let a2 = a1 + robot_line("crashpilot_robot_last_send_unix_seconds"@, id, time_text(m.last_send_unix_seconds));
    lemma_has_line_in_sum(a2, robot_line("crashpilot_robot_last_send_success"@, id, flag_text(m.last_send_success)));
    lemma_has_line_in_sum(a1, robot_line("crashpilot_robot_last_send_unix_seconds"@, id, time_text(m.last_send_unix_seconds)));
    lemma_has_line_in_sum(ok + bad, robot_line("crashpilot_robot_last_feedback_unix_seconds"@, id, time_text(m.last_feedback_unix_seconds)));
    lemma_has_line_in_sum(ok, bad);
    lemma_has_line_within(sd, a2, a1);
    lemma_has_line_within(sd, a1, ok + bad);
    lemma_has_line_within(sd, ok + bad, ok);
    lemma_has_line_within(sd, ok + bad, bad);
    lemma_has_line_within(text, sd, ok);
    lemma_has_line_within(text, sd, bad);
}

} // verus!
