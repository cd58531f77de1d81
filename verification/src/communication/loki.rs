use vstd::prelude::*;
use crate::text::{decimal, push_decimal, push_str};

verus! {

/// The most log entries sent to Loki in one push.
pub const MAX_BATCH_SIZE: usize = 128;

/// The indices of the entries whose robot id is `key`, in increasing order.
pub open spec fn indices_with(ids: Seq<u32>, key: u32) -> Seq<usize>
    decreases ids.len(),
{
    if ids.len() == 0 {
        Seq::empty()
    } else {
        let rest = indices_with(ids.drop_last(), key);
        if ids.last() == key {
            rest.push((ids.len() - 1) as usize)
        } else {
            rest
        }
    }
}

/// Whether groups are ordered by strictly increasing robot id.
pub open spec fn groups_sorted(groups: Seq<(u32, Vec<usize>)>) -> bool {
    forall|a: int, b: int| 0 <= a < b < groups.len() ==> groups[a].0 < groups[b].0
}

/// Whether `groups` groups the entries of `ids` by robot id: one group per
/// robot id that occurs, ordered by id, each listing the indices of its
/// entries in the order they were logged.
pub open spec fn groups_entries(groups: Seq<(u32, Vec<usize>)>, ids: Seq<u32>) -> bool {
    &&& groups_sorted(groups)
    &&& forall|g: int|
        #![trigger groups[g]]
        0 <= g < groups.len() ==> groups[g].1@ == indices_with(ids, groups[g].0) && groups[g].1@.len()
            > 0
    &&& forall|i: int|
        #![trigger ids[i]]
        0 <= i < ids.len() ==> exists|g: int|
            #![trigger groups[g]]
            0 <= g < groups.len() && groups[g].0 == ids[i]
}

proof fn lemma_indices_step(ids: Seq<u32>, i: int, key: u32)
    requires
        0 <= i < ids.len(),
    ensures
        indices_with(ids.take(i + 1), key) == if ids[i] == key {
            indices_with(ids.take(i), key).push(i as usize)
        } else {
            indices_with(ids.take(i), key)
        },
{
    assert(ids.take(i + 1).drop_last() =~= ids.take(i));
}

proof fn lemma_indices_absent(ids: Seq<u32>, key: u32)
    requires
        forall|k: int| 0 <= k < ids.len() ==> ids[k] != key,
    ensures
        indices_with(ids, key) == Seq::<usize>::empty(),
    decreases ids.len(),
{
    if ids.len() > 0 {
        lemma_indices_absent(ids.drop_last(), key);
    }
}

/// Groups log entries, given by their robot ids, by robot: one group per
/// robot id in increasing id order, each with the indices of that robot's
/// entries in the order they were logged. Each group becomes one Loki stream.
pub fn group_by_robot(robot_ids: &Vec<u32>) -> (r: Vec<(u32, Vec<usize>)>)
    ensures
        groups_entries(r@, robot_ids@),
{
    let ghost ids = robot_ids@;
    let mut groups: Vec<(u32, Vec<usize>)> = Vec::new();
    let mut i: usize = 0;
    while i < robot_ids.len()
        invariant
            ids == robot_ids@,
            i <= ids.len(),
            groups_entries(groups@, ids.take(i as int)),
        decreases ids.len() - i,
    {
        let key = robot_ids[i];
        let ghost before = groups@;
        let mut pos: usize = 0;
        while pos < groups.len() && groups[pos].0 < key
            invariant
                pos <= groups@.len(),
                groups@ == before,
                forall|k: int| 0 <= k < pos ==> groups@[k].0 < key,
            decreases groups@.len() - pos,
        {
            pos = pos + 1;
        }
        let found = pos < groups.len() && groups[pos].0 == key;
        proof {
            lemma_indices_step(ids, i as int, key);
            assert forall|g: int| 0 <= g < before.len() && before[g].0 != key implies indices_with(
                ids.take(i + 1),
                before[g].0,
            ) == indices_with(ids.take(i as int), before[g].0) by {
                lemma_indices_step(ids, i as int, before[g].0);
            }
        }
        if found {
            let mut group = groups.remove(pos);
            group.1.push(i);
            groups.insert(pos, group);
            proof {
                let s = groups@;
                assert(s =~= before.update(pos as int, s[pos as int]));
                assert forall|g: int|
                    #![trigger s[g]]
                    0 <= g < s.len() implies s[g].1@ == indices_with(ids.take(i + 1), s[g].0)
                        && s[g].1@.len() > 0 by {
                    if g != pos {
                        assert(s[g] == before[g]);
                        assert(before[g].0 != key);
                    }
                }
                assert forall|k: int|
                    #![trigger ids.take(i + 1)[k]]
                    0 <= k < i + 1 implies exists|g: int|
                    #![trigger s[g]]
                    0 <= g < s.len() && s[g].0 == ids.take(i + 1)[k] by {
                    if k < i {
                        assert(ids.take(i + 1)[k] == ids.take(i as int)[k]);
                        let g = choose|g: int| #![trigger before[g]] 0 <= g < before.len() && before[g].0 == ids.take(i as int)[k];
                        assert(s[g].0 == before[g].0);
                    } else {
                        assert(s[pos as int].0 == key);
                    }
                }
            }
        } else {
            let mut fresh: Vec<usize> = Vec::new();
            fresh.push(i);
            groups.insert(pos, (key, fresh));
            proof {
                let s = groups@;
                assert forall|k: int| 0 <= k < i implies ids[k] != key by {
                    assert(ids.take(i as int)[k] == ids[k]);
                    if ids[k] == key {
                        let g = choose|g: int| #![trigger before[g]] 0 <= g < before.len() && before[g].0 == ids.take(i as int)[k];
                        if g < pos {
                        } else if g > pos {
                            assert(before[pos as int].0 < before[g].0);
                        }
                    }
                }
                assert forall|k: int| 0 <= k < ids.take(i as int).len() implies ids.take(i as int)[k] != key by {}
                lemma_indices_absent(ids.take(i as int), key);
                assert forall|a: int, b: int| 0 <= a < b < s.len() implies s[a].0 < s[b].0 by {
                    if a < pos && b < pos {
                        assert(s[a] == before[a] && s[b] == before[b]);
                    } else if a < pos && b == pos {
                        assert(s[a] == before[a]);
                    } else if a < pos && b > pos {
                        assert(s[a] == before[a] && s[b] == before[b - 1]);
                    } else if a == pos {
                        assert(s[b] == before[b - 1]);
                    } else {
                        assert(s[a] == before[a - 1] && s[b] == before[b - 1]);
                    }
                }
                assert forall|g: int|
                    #![trigger s[g]]
                    0 <= g < s.len() implies s[g].1@ == indices_with(ids.take(i + 1), s[g].0)
                        && s[g].1@.len() > 0 by {
                    if g < pos {
                        assert(s[g] == before[g]);
                    } else if g > pos {
                        assert(s[g] == before[g - 1]);
                    } else {
                        assert(s[g].1@ =~= seq![i as usize]);
                        assert(indices_with(ids.take(i as int), key).push(i as usize) =~= seq![i as usize]);
                    }
                }
                assert forall|k: int|
                    #![trigger ids.take(i + 1)[k]]
                    0 <= k < i + 1 implies exists|g: int|
                    #![trigger s[g]]
                    0 <= g < s.len() && s[g].0 == ids.take(i + 1)[k] by {
                    if k < i {
                        assert(ids.take(i + 1)[k] == ids.take(i as int)[k]);
                        let g = choose|g: int| #![trigger before[g]] 0 <= g < before.len() && before[g].0 == ids.take(i as int)[k];
                        if g < pos {
                            assert(s[g] == before[g]);
                        } else {
                            assert(s[g + 1] == before[g]);
                        }
                    } else {
                        assert(s[pos as int].0 == key);
                    }
                }
            }
        }
        i = i + 1;
    }
    assert(ids.take(ids.len() as int) =~= ids);
    groups
}

/// The Loki push endpoint for a host (IPv4 octets) and port.
pub open spec fn spec_loki_endpoint(host: [u8; 4], port: u16) -> Seq<char> {
    "http://"@ + decimal(host[0] as nat) + "."@ + decimal(host[1] as nat) + "."@ + decimal(host[2] as nat)
        + "."@ + decimal(host[3] as nat) + ":"@ + decimal(port as nat) + "/loki/api/v1/push"@
}

/// The Loki push endpoint for a host (IPv4 octets) and port.
pub fn loki_endpoint(host: [u8; 4], port: u16) -> (r: String)
    ensures
        r@ == spec_loki_endpoint(host, port),
{
    let mut out = String::new();
    push_str(&mut out, "http://");
    push_decimal(&mut out, host[0] as u64);
    push_str(&mut out, ".");
    push_decimal(&mut out, host[1] as u64);
    push_str(&mut out, ".");
    push_decimal(&mut out, host[2] as u64);
    push_str(&mut out, ".");
    push_decimal(&mut out, host[3] as u64);
    push_str(&mut out, ":");
    push_decimal(&mut out, port as u64);
    push_str(&mut out, "/loki/api/v1/push");
    assert(out@ =~= spec_loki_endpoint(host, port));
    out
}

/// What the Loki publisher's queue reported.
#[derive(Debug, Clone, Copy, PartialEq, Eq, Structural)]
pub enum QueueEvent {
    /// An entry arrived; afterwards `drained` more were taken without waiting.
    Received { drained: usize },
    /// The queue closed.
    Closed,
    /// Nothing arrived within the flush interval.
    TimedOut,
}

/// What the publisher does next.
#[derive(Debug, Clone, Copy, PartialEq, Eq, Structural)]
pub struct PublishStep {
    /// Entries waiting after the event (before a flush).
    pub pending: usize,
    /// Whether the waiting entries are pushed now.
    pub flush: bool,
    /// Whether the publisher stops.
    pub stop: bool,
}

/// How many more entries draining may take while `pending` wait.
pub fn drain_room(pending: usize) -> (r: usize)
    ensures
        r == if pending < MAX_BATCH_SIZE {
            MAX_BATCH_SIZE - pending
        } else {
            0
        },
{
    if pending < MAX_BATCH_SIZE {
        MAX_BATCH_SIZE - pending
    } else {
        0
    }
}

/// The publisher's decision after a queue event with `pending` entries
/// waiting: a full batch is pushed at once; on a closed queue or a quiet
/// interval whatever waits is pushed; a closed queue stops the publisher.
pub fn publish_step(pending: usize, event: QueueEvent) -> (r: PublishStep)
    requires
        pending < MAX_BATCH_SIZE,
        event matches QueueEvent::Received { drained } ==> drained < MAX_BATCH_SIZE - pending,
    ensures
        match event {
            QueueEvent::Received { drained } => r == (PublishStep {
                pending: (pending + 1 + drained) as usize,
                flush: pending + 1 + drained >= MAX_BATCH_SIZE,
                stop: false,
            }),
            QueueEvent::Closed => r == (PublishStep { pending, flush: pending > 0, stop: true }),
            QueueEvent::TimedOut => r == (PublishStep { pending, flush: pending > 0, stop: false }),
        },
        r.pending <= MAX_BATCH_SIZE,
        !r.flush ==> r.pending < MAX_BATCH_SIZE,
{
    match event {
        QueueEvent::Received { drained } => {
            let now_pending = pending + 1 + drained;
            PublishStep { pending: now_pending, flush: now_pending >= MAX_BATCH_SIZE, stop: false }
        },
        QueueEvent::Closed => PublishStep { pending, flush: pending > 0, stop: true },
        QueueEvent::TimedOut => PublishStep { pending, flush: pending > 0, stop: false },
    }
}

/// One Loki stream of a push: the robot it belongs to, its labels as
/// (name, value) pairs in name order, and the indices of its entries in the
/// order they were logged.
pub struct LokiStream {
    pub robot_id: u32,
    pub labels: Vec<(String, String)>,
    pub values: Vec<usize>,
}

/// The labels of a robot's stream: `app="CrashPilot"`,
/// `direction="outbound"` and the robot id.
pub open spec fn stream_labels(robot_id: u32) -> Seq<(Seq<char>, Seq<char>)> {
    seq![("app"@, "CrashPilot"@), ("direction"@, "outbound"@), ("robot_id"@, decimal(robot_id as nat))]
}

/// Whether some stream belongs to robot `robot_id`.
pub open spec fn has_stream(streams: Seq<LokiStream>, robot_id: u32) -> bool {
    exists|g: int| 0 <= g < streams.len() && streams[g].robot_id == robot_id
}

/// Whether every logged robot has a stream.
pub open spec fn streams_cover(streams: Seq<LokiStream>, ids: Seq<u32>) -> bool {
    forall|i: int| 0 <= i < ids.len() ==> #[trigger] has_stream(streams, ids[i])
}

proof fn lemma_stream_for(groups: Seq<(u32, Vec<usize>)>, streams: Seq<LokiStream>, ids: Seq<u32>, i: int) -> (h: int)
    requires
        groups_entries(groups, ids),
        streams.len() == groups.len(),
        forall|k: int| 0 <= k < groups.len() ==> (#[trigger] streams[k]).robot_id == groups[k].0,
        0 <= i < ids.len(),
    ensures
        0 <= h < streams.len(),
        streams[h].robot_id == ids[i],
{
    assert(ids[i] == ids[i]);
    let h = choose|h: int| #![trigger groups[h]] 0 <= h < groups.len() && groups[h].0 == ids[i];
    assert(streams[h].robot_id == groups[h].0);
    h
}

proof fn lemma_streams_cover(groups: Seq<(u32, Vec<usize>)>, streams: Seq<LokiStream>, ids: Seq<u32>)
    requires
        groups_entries(groups, ids),
        streams.len() == groups.len(),
        forall|k: int| 0 <= k < groups.len() ==> (#[trigger] streams[k]).robot_id == groups[k].0,
    ensures
        streams_cover(streams, ids),
{
    assert forall|i: int| 0 <= i < ids.len() implies #[trigger] has_stream(streams, ids[i]) by {
        let h = lemma_stream_for(groups, streams, ids, i);
        assert(0 <= h < streams.len() && streams[h].robot_id == ids[i]);
    }
}

/// The labels of a stream as text.
pub open spec fn labels_text(labels: Seq<(String, String)>) -> Seq<(Seq<char>, Seq<char>)> {
    labels.map_values(|l: (String, String)| (l.0@, l.1@))
}

fn label(name: &str, value: String) -> (r: (String, String))
    ensures
        r.0@ == name@,
        r.1@ == value@,
{
    let mut n = String::new();
    push_str(&mut n, name);
    (n, value)
}

/// The streams of one Loki push for log entries given by their robot ids:
/// one stream per robot in increasing id order, labelled with the app, the
/// direction and the robot id, holding that robot's entries in log order.
pub fn push_streams(robot_ids: &Vec<u32>) -> (r: Vec<LokiStream>)
    ensures
        forall|a: int, b: int| 0 <= a < b < r@.len() ==> r@[a].robot_id < r@[b].robot_id,
        forall|g: int|
            #![trigger r@[g]]
            0 <= g < r@.len() ==> {
                &&& r@[g].values@ == indices_with(robot_ids@, r@[g].robot_id)
                &&& r@[g].values@.len() > 0
                &&& labels_text(r@[g].labels@) == stream_labels(r@[g].robot_id)
            },
        streams_cover(r@, robot_ids@),
{
    let groups = group_by_robot(robot_ids);
    let mut out: Vec<LokiStream> = Vec::new();
    let mut g: usize = 0;
    while g < groups.len()
        invariant
            groups_entries(groups@, robot_ids@),
            g <= groups@.len(),
            out@.len() == g,
            forall|k: int|
                #![trigger out@[k]]
                0 <= k < g ==> {
                    &&& out@[k].robot_id == groups@[k].0
                    &&& out@[k].values@ == groups@[k].1@
                    &&& labels_text(out@[k].labels@) == stream_labels(out@[k].robot_id)
                },
        decreases groups@.len() - g,
    {
        let id = groups[g].0;
        let mut id_text = String::new();
        push_decimal(&mut id_text, id as u64);
        let mut app = String::new();
        push_str(&mut app, "CrashPilot");
        let mut direction = String::new();
        push_str(&mut direction, "outbound");
        let mut labels: Vec<(String, String)> = Vec::new();
        labels.push(label("app", app));
        labels.push(label("direction", direction));
        labels.push(label("robot_id", id_text));
        assert(labels_text(labels@) =~= stream_labels(id));
        let mut values: Vec<usize> = Vec::new();
        let mut k: usize = 0;
        while k < groups[g].1.len()
            invariant
                g < groups@.len(),
                k <= groups@[g as int].1@.len(),
                values@ == groups@[g as int].1@.take(k as int),
            decreases groups@[g as int].1@.len() - k,
        {
            values.push(groups[g].1[k]);
            assert(groups@[g as int].1@.take(k + 1) =~= groups@[g as int].1@.take(k as int).push(
                groups@[g as int].1@[k as int],
            ));
            k = k + 1;
        }
        assert(groups@[g as int].1@.take(k as int) =~= groups@[g as int].1@);
        out.push(LokiStream { robot_id: id, labels, values });
        g = g + 1;
    }
    let r = out;
    proof {
        lemma_streams_cover(groups@, r@, robot_ids@);
    }
    r
}

} // verus!
