use vstd::prelude::*;
use crate::text::{padded_decimal, push_padded_decimal, push_str};

verus! {

/// Kind of a logged packet that the vision-filter replay plays back.
#[derive(Debug, Clone, Copy, PartialEq, Eq, Structural)]
pub enum ReplayKind {
    Raw,
    Tracker,
    Referee,
}

impl ReplayKind {
    /// Human-readable name of the kind.
    pub open spec fn spec_label(self) -> Seq<char> {
        match self {
            ReplayKind::Raw => "raw vision"@,
            ReplayKind::Tracker => "tracked vision"@,
            ReplayKind::Referee => "referee"@,
        }
    }

    /// Human-readable name of the kind.
    pub fn label(self) -> (r: &'static str)
        ensures
            r@ == self.spec_label(),
    {
        match self {
            ReplayKind::Raw => "raw vision",
            ReplayKind::Tracker => "tracked vision",
            ReplayKind::Referee => "referee",
        }
    }

    /// Whether the packet carries vision.
    pub open spec fn is_vision(self) -> bool {
        self == ReplayKind::Raw || self == ReplayKind::Tracker
    }
}

/// The cursor a replay opens at: just after the first vision packet, or 1 when
/// there is none.
pub fn initial_cursor(kinds: &Vec<ReplayKind>) -> (r: usize)
    ensures
        (exists|i: int| 0 <= i < kinds@.len() && kinds@[i].is_vision()) ==> ({
            let first = r - 1;
            &&& 0 <= first < kinds@.len()
            &&& kinds@[first].is_vision()
            &&& forall|j: int| 0 <= j < first ==> !kinds@[j].is_vision()
        }),
        !(exists|i: int| 0 <= i < kinds@.len() && kinds@[i].is_vision()) ==> r == 1,
{
    let mut i: usize = 0;
    while i < kinds.len()
        invariant
            i <= kinds@.len(),
            forall|j: int| 0 <= j < i ==> !kinds@[j].is_vision(),
        decreases kinds@.len() - i,
    {
        match kinds[i] {
            ReplayKind::Raw => {
                return i + 1;
            },
            ReplayKind::Tracker => {
                return i + 1;
            },
            ReplayKind::Referee => {},
        }
        i = i + 1;
    }
    1
}

/// The number of leading events with a timestamp at or before `target_ns`;
/// for a log in time order, the number of events up to that time.
pub fn events_until(timestamps: &Vec<i64>, target_ns: i64) -> (r: usize)
    ensures
        r <= timestamps@.len(),
        forall|j: int| 0 <= j < r ==> timestamps@[j] <= target_ns,
        r < timestamps@.len() ==> timestamps@[r as int] > target_ns,
{
    let mut i: usize = 0;
    while i < timestamps.len()
        invariant
            i <= timestamps@.len(),
            forall|j: int| 0 <= j < i ==> timestamps@[j] <= target_ns,
        decreases timestamps@.len() - i,
    {
        if timestamps[i] > target_ns {
            return i;
        }
        i = i + 1;
    }
    i
}

/// How the replay reaches a given number of applied events.
#[derive(Debug, Clone, Copy, PartialEq, Eq, Structural)]
pub enum CursorMove {
    /// Start over and apply events up to this count.
    Rebuild(usize),
    /// Apply further events up to this count.
    Forward(usize),
}

/// How to get from `cursor` applied events to `applied` of `len` events: the
/// target is capped at the log's length; going back needs a rebuild.
pub fn cursor_move(cursor: usize, applied: usize, len: usize) -> (r: CursorMove)
    ensures
        ({
            let target = if applied <= len {
                applied
            } else {
                len
            };
            r == if target < cursor {
                CursorMove::Rebuild(target)
            } else {
                CursorMove::Forward(target)
            }
        }),
{
    let target = if applied <= len {
        applied
    } else {
        len
    };
    if target < cursor {
        CursorMove::Rebuild(target)
    } else {
        CursorMove::Forward(target)
    }
}

/// The applied-event count one step back, never before the first vision packet.
pub fn step_back_target(cursor: usize, initial: usize) -> (r: usize)
    ensures
        ({
            let back: int = if cursor >= 1 {
                cursor - 1
            } else {
                0
            };
            r == if back >= initial {
                back
            } else {
                initial as int
            }
        }),
{
    let back = cursor.saturating_sub(1);
    if back >= initial {
        back
    } else {
        initial
    }
}

/// The name of the last applied event, or "none" before the first.
pub fn last_event_label(kinds: &Vec<ReplayKind>, cursor: usize) -> (r: &'static str)
    ensures
        (1 <= cursor <= kinds@.len()) ==> r@ == kinds@[cursor - 1].spec_label(),
        !(1 <= cursor <= kinds@.len()) ==> r@ == "none"@,
{
    if cursor >= 1 && cursor <= kinds.len() {
        kinds[cursor - 1].label()
    } else {
        "none"
    }
}

/// One message of the log kept for replay: when it was logged, what it
/// carries, and where its payload lies in the payload cache.
#[derive(Debug, Clone, Copy, PartialEq, Eq, Structural)]
pub struct ReplayEvent {
    pub timestamp_ns: i64,
    pub kind: ReplayKind,
    pub payload_offset: u64,
    pub payload_len: usize,
}

/// How many messages of each kind loading the log kept, and how many it
/// skipped.
#[derive(Debug, Clone, Copy, PartialEq, Eq, Structural)]
pub struct LoadStats {
    pub raw: usize,
    pub tracker: usize,
    pub referee: usize,
    pub ignored: usize,
    pub decode_errors: usize,
}

/// Why a log cannot be replayed.
#[derive(Debug, Clone, Copy, PartialEq, Eq, Structural)]
pub enum LoadError {
    /// No message of the log could be replayed.
    NoEvents,
    /// The log holds no vision message that decodes.
    NoVision,
}

/// The events of a log being loaded, in file order, with the counts so far
/// and the length of the payload cache.
pub struct LogIndex {
    pub events: Vec<ReplayEvent>,
    pub stats: LoadStats,
    pub payload_offset: u64,
}

/// The events of `s` logged at `t`, in their order in `s`.
pub open spec fn at_time(s: Seq<ReplayEvent>, t: i64) -> Seq<ReplayEvent> {
    s.filter(|e: ReplayEvent| e.timestamp_ns == t)
}

/// Whether `s` is ordered by time.
pub open spec fn time_sorted(s: Seq<ReplayEvent>) -> bool {
    forall|i: int, j: int| 0 <= i < j < s.len() ==> s[i].timestamp_ns <= s[j].timestamp_ns
}

/// Whether `sorted` holds the events of `events` ordered by time, events
/// logged at the same time keeping their order (a stable sort).
pub open spec fn stably_sorted_by_time(sorted: Seq<ReplayEvent>, events: Seq<ReplayEvent>) -> bool {
    &&& time_sorted(sorted)
    &&& sorted.len() == events.len()
    &&& forall|t: i64| #[trigger] at_time(sorted, t) == at_time(events, t)
}

proof fn lemma_at_time_none(s: Seq<ReplayEvent>, t: i64)
    requires
        forall|k: int| 0 <= k < s.len() ==> s[k].timestamp_ns != t,
    ensures
        at_time(s, t) == Seq::<ReplayEvent>::empty(),
    decreases s.len(),
{
    if s.len() > 0 {
        let pred = |e: ReplayEvent| e.timestamp_ns == t;
        lemma_at_time_none(s.drop_last(), t);
        s.drop_last().lemma_filter_push(s.last(), pred);
        assert(s.drop_last().push(s.last()) =~= s);
    }
}

proof fn lemma_at_time_insert(s: Seq<ReplayEvent>, p: int, e: ReplayEvent, t: i64)
    requires
        0 <= p <= s.len(),
        forall|k: int| p <= k < s.len() ==> s[k].timestamp_ns > e.timestamp_ns,
    ensures
        at_time(s.insert(p, e), t) == if e.timestamp_ns == t {
            at_time(s, t).push(e)
        } else {
            at_time(s, t)
        },
{
    let pred = |x: ReplayEvent| x.timestamp_ns == t;
    let front = s.take(p);
    let back = s.skip(p);
    assert(s.insert(p, e) =~= front + seq![e] + back);
    assert(s =~= front + back);
    Seq::filter_distributes_over_add(front + seq![e], back, pred);
    Seq::filter_distributes_over_add(front, seq![e], pred);
    Seq::filter_distributes_over_add(front, back, pred);
    Seq::<ReplayEvent>::empty().lemma_filter_push(e, pred);
    assert(Seq::<ReplayEvent>::empty().push(e) =~= seq![e]);
    assert(Seq::<ReplayEvent>::empty().filter(pred) =~= Seq::<ReplayEvent>::empty()) by {
        reveal(Seq::filter);
    }
    if e.timestamp_ns == t {
        lemma_at_time_none(back, t);
        assert(at_time(s.insert(p, e), t) =~= at_time(s, t).push(e));
    } else {
        assert(at_time(s.insert(p, e), t) =~= at_time(s, t));
    }
}

/// Orders events by time; events logged at the same time keep their order.
pub fn sort_events_by_time(events: &Vec<ReplayEvent>) -> (r: Vec<ReplayEvent>)
    ensures
        stably_sorted_by_time(r@, events@),
{
    let mut out: Vec<ReplayEvent> = Vec::new();
    let mut i: usize = 0;
    while i < events.len()
        invariant
            i <= events@.len(),
            out@.len() == i,
            time_sorted(out@),
            forall|t: i64| #[trigger] at_time(out@, t) == at_time(events@.take(i as int), t),
        decreases events@.len() - i,
    {
        let e = events[i];
        let mut p: usize = 0;
        while p < out.len() && out[p].timestamp_ns <= e.timestamp_ns
            invariant
                p <= out@.len(),
                forall|k: int| 0 <= k < p ==> out@[k].timestamp_ns <= e.timestamp_ns,
            decreases out@.len() - p,
        {
            p = p + 1;
        }
        let ghost before = out@;
        proof {
            assert forall|k: int| p <= k < before.len() implies before[k].timestamp_ns > e.timestamp_ns by {
                assert(before[p as int].timestamp_ns > e.timestamp_ns);
            }
            assert forall|t: i64| #[trigger] at_time(before.insert(p as int, e), t) == at_time(
                events@.take(i + 1),
                t,
            ) by {
                lemma_at_time_insert(before, p as int, e, t);
                let pred = |x: ReplayEvent| x.timestamp_ns == t;
                events@.take(i as int).lemma_filter_push(e, pred);
                assert(events@.take(i as int).push(e) =~= events@.take(i + 1));
            }
        }
        out.insert(p, e);
        proof {
            assert(out@ =~= before.insert(p as int, e));
            assert forall|a: int, b: int| 0 <= a < b < out@.len() implies out@[a].timestamp_ns
                <= out@[b].timestamp_ns by {
                if b < p {
                } else if a < p && b == p {
                } else if a < p {
                    assert(out@[b] == before[b - 1]);
                } else if a == p {
                    assert(out@[b] == before[b - 1]);
                } else {
                    assert(out@[a] == before[a - 1] && out@[b] == before[b - 1]);
                }
            }
        }
        i = i + 1;
    }
    assert(events@.take(events@.len() as int) =~= events@);
    out
}

impl LoadStats {
    /// No message counted.
    pub open spec fn spec_empty() -> LoadStats {
        LoadStats { raw: 0, tracker: 0, referee: 0, ignored: 0, decode_errors: 0 }
    }

    /// The counts with one more kept message of kind `k`.
    pub open spec fn counted(self, k: ReplayKind) -> LoadStats {
        match k {
            ReplayKind::Raw => LoadStats { raw: (self.raw + 1) as usize, ..self },
            ReplayKind::Tracker => LoadStats { tracker: (self.tracker + 1) as usize, ..self },
            ReplayKind::Referee => LoadStats { referee: (self.referee + 1) as usize, ..self },
        }
    }
}

impl Default for LoadStats {
    /// No message counted.
    fn default() -> (r: LoadStats)
        ensures
            r == LoadStats::spec_empty(),
    {
        LoadStats { raw: 0, tracker: 0, referee: 0, ignored: 0, decode_errors: 0 }
    }
}

/// The total payload length of `events`.
pub open spec fn payload_total(events: Seq<ReplayEvent>) -> int
    decreases events.len(),
{
    if events.len() == 0 {
        0
    } else {
        payload_total(events.drop_last()) + events.last().payload_len
    }
}

impl LogIndex {
    /// The payloads of the events tile the cache in file order: each starts
    /// where the ones before it end, and the cache ends after the last.
    pub open spec fn payloads_tiled(&self) -> bool {
        &&& self.payload_offset == payload_total(self.events@)
        &&& forall|i: int|
            0 <= i < self.events@.len() ==> (#[trigger] self.events@[i]).payload_offset == payload_total(
                self.events@.take(i),
            )
    }

    /// Nothing loaded yet.
    pub fn new() -> (r: LogIndex)
        ensures
            r.events@ == Seq::<ReplayEvent>::empty(),
            r.stats == LoadStats::spec_empty(),
            r.payload_offset == 0,
            r.payloads_tiled(),
    {
        LogIndex { events: Vec::new(), stats: LoadStats::default(), payload_offset: 0 }
    }

    /// Takes the next message of the log: its kind (`None` for a message
    /// that is not replayed), whether its payload decodes, when it was
    /// logged and its payload length. A replayed message becomes an event
    /// whose payload follows the cached ones; the answer says whether its
    /// payload is to be appended to the cache.
    pub fn add(&mut self, kind: Option<ReplayKind>, decodes: bool, timestamp_ns: i64, payload_len: usize) -> (cache: bool)
        requires
            old(self).stats.ignored < usize::MAX,
            old(self).stats.decode_errors < usize::MAX,
            old(self).stats.raw < usize::MAX,
            old(self).stats.tracker < usize::MAX,
            old(self).stats.referee < usize::MAX,
            old(self).payload_offset + payload_len <= u64::MAX,
        ensures
            old(self).payloads_tiled() ==> final(self).payloads_tiled(),
            cache == (kind is Some && decodes),
            !cache ==> final(self).events@ == old(self).events@ && final(self).payload_offset
                == old(self).payload_offset,
            kind is None ==> final(self).stats == (LoadStats {
                ignored: (old(self).stats.ignored + 1) as usize,
                ..old(self).stats
            }),
            kind is Some && !decodes ==> final(self).stats == (LoadStats {
                decode_errors: (old(self).stats.decode_errors + 1) as usize,
                ..old(self).stats
            }),
            kind is Some && decodes ==> {
                &&& final(self).events@ == old(self).events@.push(
                    ReplayEvent {
                        timestamp_ns,
                        kind: kind.unwrap(),
                        payload_offset: old(self).payload_offset,
                        payload_len,
                    },
                )
                &&& final(self).payload_offset == old(self).payload_offset + payload_len
                &&& final(self).stats == old(self).stats.counted(kind.unwrap())
            },
    {
        let k = match kind {
            Some(k) => k,
            None => {
                self.stats.ignored = self.stats.ignored + 1;
                return false;
            },
        };
        if !decodes {
            self.stats.decode_errors = self.stats.decode_errors + 1;
            return false;
        }
        match k {
            ReplayKind::Raw => self.stats.raw = self.stats.raw + 1,
            ReplayKind::Tracker => self.stats.tracker = self.stats.tracker + 1,
            ReplayKind::Referee => self.stats.referee = self.stats.referee + 1,
        }
        let ghost before = self.events@;
        self.events.push(
            ReplayEvent { timestamp_ns, kind: k, payload_offset: self.payload_offset, payload_len },
        );
        self.payload_offset = self.payload_offset + payload_len as u64;
        proof {
            let after = self.events@;
            assert(after.drop_last() =~= before);
            assert(after.take(before.len() as int) =~= before);
            assert forall|i: int| 0 <= i < before.len() implies after.take(i) =~= before.take(i) by {}
        }
        true
    }

    /// Ends loading: the events ordered by time (a stable sort) and the
    /// counts, or why the log cannot be replayed: it has no event, or no
    /// raw or tracker vision event.
    pub fn finish(&self) -> (r: Result<(Vec<ReplayEvent>, LoadStats), LoadError>)
        ensures
            self.events@.len() == 0 <==> r == Err::<(Vec<ReplayEvent>, LoadStats), LoadError>(
                LoadError::NoEvents,
            ),
            (self.events@.len() > 0 && self.stats.raw == 0 && self.stats.tracker == 0) <==> r == Err::<
                (Vec<ReplayEvent>, LoadStats),
                LoadError,
            >(LoadError::NoVision),
            r matches Ok((sorted, stats)) ==> stably_sorted_by_time(sorted@, self.events@) && stats
                == self.stats,
    {
        let sorted = sort_events_by_time(&self.events);
        if sorted.len() == 0 {
            return Err(LoadError::NoEvents);
        }
        if self.stats.raw == 0 && self.stats.tracker == 0 {
            return Err(LoadError::NoVision);
        }
        Ok((sorted, self.stats))
    }
}

/// Whether loading should warn that the comparison of raw and tracker
/// vision lacks one of them.
pub fn lacks_vision_source(stats: &LoadStats) -> (r: bool)
    ensures
        r == (stats.raw == 0 || stats.tracker == 0),
{
    stats.raw == 0 || stats.tracker == 0
}

/// A playback position of `total_ms` milliseconds as `MM:SS.mmm`.
pub open spec fn spec_format_time(total_ms: u64) -> Seq<char> {
    padded_decimal((total_ms / 60_000) as nat, 2) + ":"@ + padded_decimal(((total_ms / 1_000) % 60) as nat, 2)
        + "."@ + padded_decimal((total_ms % 1_000) as nat, 3)
}

/// A playback position of `total_ms` milliseconds as minutes, seconds and
/// milliseconds: `MM:SS.mmm`.
pub fn format_time(total_ms: u64) -> (r: String)
    ensures
        r@ == spec_format_time(total_ms),
{
    let mut out = String::new();
    push_padded_decimal(&mut out, total_ms / 60_000, 2);
    push_str(&mut out, ":");
    push_padded_decimal(&mut out, (total_ms / 1_000) % 60, 2);
    push_str(&mut out, ".");
    push_padded_decimal(&mut out, total_ms % 1_000, 3);
    assert(out@ =~= spec_format_time(total_ms));
    out
}

/// A key of the terminal, as far as the replay controls tell keys apart.
#[derive(Debug, Clone, Copy, PartialEq, Eq, Structural)]
pub enum KeyCode {
    Char(char),
    Left,
    Right,
    Home,
    End,
    Esc,
    Other,
}

/// A key press with the modifiers the controls read.
#[derive(Debug, Clone, Copy, PartialEq, Eq, Structural)]
pub struct KeyPress {
    pub code: KeyCode,
    pub control: bool,
    pub shift: bool,
}

/// What the operator asks of the replay.
#[derive(Debug, Clone, Copy, PartialEq, Eq, Structural)]
pub enum Control {
    TogglePlayback,
    Faster,
    Slower,
    /// Seek by this many seconds.
    Seek(i32),
    Next,
    Previous,
    Start,
    End,
    Restart,
    ToggleHelp,
    Quit,
}

/// The control a key press asks for, if any.
pub open spec fn spec_key_to_control(key: KeyPress) -> Option<Control> {
    if key.control && key.code == KeyCode::Char('c') {
        Some(Control::Quit)
    } else {
        match key.code {
            KeyCode::Char(c) => if c == ' ' || c == 'p' {
                Some(Control::TogglePlayback)
            } else if c == '+' || c == '=' {
                Some(Control::Faster)
            } else if c == '-' {
                Some(Control::Slower)
            } else if c == ',' {
                Some(Control::Previous)
            } else if c == '.' {
                Some(Control::Next)
            } else if c == 'r' {
                Some(Control::Restart)
            } else if c == '?' {
                Some(Control::ToggleHelp)
            } else if c == 'q' {
                Some(Control::Quit)
            } else {
                None
            },
            KeyCode::Left => Some(Control::Seek(if key.shift { -10i32 } else { -1i32 })),
            KeyCode::Right => Some(Control::Seek(if key.shift { 10i32 } else { 1i32 })),
            KeyCode::Home => Some(Control::Start),
            KeyCode::End => Some(Control::End),
            KeyCode::Esc => Some(Control::Quit),
            KeyCode::Other => None,
        }
    }
}

/// The control a key press asks for: space or `p` plays or pauses, `+`/`=`
/// and `-` change the speed, the arrows seek one second (ten with shift),
/// `,` and `.` step, Home and End jump, `r` restarts, `?` toggles the help,
/// and `q`, Esc or Ctrl-C quit.
pub fn key_to_control(key: KeyPress) -> (r: Option<Control>)
    ensures
        r == spec_key_to_control(key),
{
    if key.control && key.code == KeyCode::Char('c') {
        return Some(Control::Quit);
    }
    match key.code {
        KeyCode::Char(c) => {
            if c == ' ' || c == 'p' {
                Some(Control::TogglePlayback)
            } else if c == '+' || c == '=' {
                Some(Control::Faster)
            } else if c == '-' {
                Some(Control::Slower)
            } else if c == ',' {
                Some(Control::Previous)
            } else if c == '.' {
                Some(Control::Next)
            } else if c == 'r' {
                Some(Control::Restart)
            } else if c == '?' {
                Some(Control::ToggleHelp)
            } else if c == 'q' {
                Some(Control::Quit)
            } else {
                None
            }
        },
        KeyCode::Left => Some(Control::Seek(if key.shift { -10 } else { -1 })),
        KeyCode::Right => Some(Control::Seek(if key.shift { 10 } else { 1 })),
        KeyCode::Home => Some(Control::Start),
        KeyCode::End => Some(Control::End),
        KeyCode::Esc => Some(Control::Quit),
        KeyCode::Other => None,
    }
}

/// How far playback is into the log, in nanoseconds: from the first event
/// to the last event applied (none applied counts as the start), never
/// negative.
pub open spec fn spec_position_ns(timestamps: Seq<i64>, cursor: usize, base_ns: i64) -> int {
    let at: int = if 1 <= cursor <= timestamps.len() {
        timestamps[cursor - 1] as int
    } else {
        base_ns as int
    };
    if at - base_ns > 0 {
        at - base_ns
    } else {
        0
    }
}

/// How far playback is into the log, in nanoseconds.
pub fn position_ns(timestamps: &Vec<i64>, cursor: usize, base_ns: i64) -> (r: i64)
    requires
        forall|k: int| 0 <= k < timestamps@.len() ==> i64::MIN <= #[trigger] timestamps@[k] - base_ns <= i64::MAX,
    ensures
        r == spec_position_ns(timestamps@, cursor, base_ns),
{
    let at = if cursor >= 1 && cursor <= timestamps.len() {
        timestamps[cursor - 1]
    } else {
        base_ns
    };
    let diff = at - base_ns;
    if diff > 0 {
        diff
    } else {
        0
    }
}

/// The wait before the next event, in nanoseconds of log time: the gap
/// between the last applied event and the next one, never negative; zero
/// before the first event and after the last.
pub open spec fn spec_gap_to_next_ns(timestamps: Seq<i64>, cursor: usize) -> int {
    if cursor == 0 || cursor >= timestamps.len() {
        0
    } else {
        let gap = timestamps[cursor as int] - timestamps[cursor - 1];
        if gap > 0 {
            gap
        } else {
            0
        }
    }
}

/// The wait before the next event, in nanoseconds of log time.
pub fn gap_to_next_ns(timestamps: &Vec<i64>, cursor: usize) -> (r: i64)
    requires
        forall|k: int|
            0 < k < timestamps@.len() ==> i64::MIN <= #[trigger] timestamps@[k] - timestamps@[k - 1] <= i64::MAX,
    ensures
        r == spec_gap_to_next_ns(timestamps@, cursor),
{
    if cursor == 0 || cursor >= timestamps.len() {
        return 0;
    }
    let gap = timestamps[cursor] - timestamps[cursor - 1];
    if gap > 0 {
        gap
    } else {
        0
    }
}

/// Where playback stands after a control: the number of events applied,
/// whether it plays, and whether the new state is to be published.
#[derive(Debug, Clone, Copy, PartialEq, Eq, Structural)]
pub struct ReplayStep {
    pub cursor: usize,
    pub playing: bool,
    pub publish: bool,
}

/// The position playback starts from: after the first vision event, within
/// the log.
pub open spec fn start_position(len: usize, initial: usize) -> usize {
    if initial <= len {
        initial
    } else {
        len
    }
}

/// What a control does to playback with `cursor` of `len` events applied,
/// `initial` the start position: play or pause (from the end it restarts),
/// step forward or back (both pause), jump to start or end (the end pauses),
/// or restart playing. Seeking, speed, help and quitting leave the cursor and
/// the playing flag as they are; a seek is published after the caller moved.
pub open spec fn spec_replay_step(cursor: usize, len: usize, initial: usize, playing: bool, control: Control) -> ReplayStep {
    match control {
        Control::TogglePlayback => if cursor == len {
            ReplayStep { cursor: start_position(len, initial), playing: !playing, publish: true }
        } else {
            ReplayStep { cursor, playing: !playing, publish: false }
        },
        Control::Seek(_) => ReplayStep { cursor, playing, publish: true },
        Control::Next => if cursor < len {
            ReplayStep { cursor: (cursor + 1) as usize, playing: false, publish: true }
        } else {
            ReplayStep { cursor, playing: false, publish: false }
        },
        Control::Previous => {
            let back: int = if cursor >= 1 { cursor - 1 } else { 0 };
            let target: int = if back >= initial { back } else { initial as int };
            ReplayStep { cursor: if target <= len { target as usize } else { len }, playing: false, publish: true }
        },
        Control::Start => ReplayStep { cursor: start_position(len, initial), playing, publish: true },
        Control::End => ReplayStep { cursor: len, playing: false, publish: true },
        Control::Restart => ReplayStep { cursor: start_position(len, initial), playing: true, publish: true },
        _ => ReplayStep { cursor, playing, publish: false },
    }
}

/// The playback step for a control.
pub fn replay_step(cursor: usize, len: usize, initial: usize, playing: bool, control: Control) -> (r: ReplayStep)
    requires
        cursor <= len,
    ensures
        r == spec_replay_step(cursor, len, initial, playing, control),
        r.cursor <= len,
{
    let start = if initial <= len {
        initial
    } else {
        len
    };
    match control {
        Control::TogglePlayback => {
            if cursor == len {
                ReplayStep { cursor: start, playing: !playing, publish: true }
            } else {
                ReplayStep { cursor, playing: !playing, publish: false }
            }
        },
        Control::Seek(_) => ReplayStep { cursor, playing, publish: true },
        Control::Next => {
            if cursor < len {
                ReplayStep { cursor: cursor + 1, playing: false, publish: true }
            } else {
                ReplayStep { cursor, playing: false, publish: false }
            }
        },
        Control::Previous => {
            let target = step_back_target(cursor, initial);
            ReplayStep { cursor: if target <= len { target } else { len }, playing: false, publish: true }
        },
        Control::Start => ReplayStep { cursor: start, playing, publish: true },
        Control::End => ReplayStep { cursor: len, playing: false, publish: true },
        Control::Restart => ReplayStep { cursor: start, playing: true, publish: true },
        _ => ReplayStep { cursor, playing, publish: false },
    }
}

} // verus!
