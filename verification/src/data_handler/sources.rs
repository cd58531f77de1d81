use vstd::prelude::*;
use crate::text::{push_str, str_eq};

verus! {

/// The name under which a tracker's packets are kept apart: its source name
/// (or `tracker`) and its uuid when it has one, otherwise its source name or
/// `tracker:unknown`.
pub open spec fn spec_tracker_source(uuid: Seq<char>, source_name: Option<Seq<char>>) -> Seq<char> {
    if uuid.len() > 0 {
        let name = match source_name {
            Some(name) => name,
            None => "tracker"@,
        };
        name + ":"@ + uuid
    } else {
        match source_name {
            Some(name) => name,
            None => "tracker:unknown"@,
        }
    }
}

/// The name under which a tracker's packets are kept apart.
pub fn tracker_source(uuid: &str, source_name: Option<&str>) -> (r: String)
    ensures
        r@ == spec_tracker_source(
            uuid@,
            match source_name {
                Some(name) => Some(name@),
                None => None,
            },
        ),
{
    let mut out = String::new();
    if uuid.unicode_len() > 0 {
        match source_name {
            Some(name) => push_str(&mut out, name),
            None => push_str(&mut out, "tracker"),
        }
        push_str(&mut out, ":");
        push_str(&mut out, uuid);
    } else {
        match source_name {
            Some(name) => push_str(&mut out, name),
            None => push_str(&mut out, "tracker:unknown"),
        }
    }
    out
}

/// The tracked frames already taken, each by its tracker's source name and
/// frame number, so that a frame that arrives twice is taken once.
pub struct SeenFrames {
    pub frames: Vec<(String, u32)>,
}

impl SeenFrames {
    /// The frames taken, as (source, frame number) pairs.
    pub open spec fn seen(&self) -> Set<(Seq<char>, u32)> {
        Set::new(
            |p: (Seq<char>, u32)|
                exists|k: int| 0 <= k < self.frames@.len() && self.frames@[k].0@ == p.0 && self.frames@[k].1 == p.1,
        )
    }

    /// No frame taken yet.
    pub fn new() -> (r: SeenFrames)
        ensures
            r.seen() == Set::<(Seq<char>, u32)>::empty(),
    {
        let r = SeenFrames { frames: Vec::new() };
        assert(r.seen() =~= Set::<(Seq<char>, u32)>::empty());
        r
    }

    /// Takes frame `frame_number` of tracker `source` and tells whether it is
    /// new; a frame seen before leaves the record as it was and is to be
    /// ignored.
    pub fn insert(&mut self, source: String, frame_number: u32) -> (fresh: bool)
        ensures
            fresh == !old(self).seen().contains((source@, frame_number)),
            final(self).seen() == old(self).seen().insert((source@, frame_number)),
    {
        let mut k: usize = 0;
        while k < self.frames.len()
            invariant
                k <= self.frames@.len(),
                forall|j: int| 0 <= j < k ==> !(self.frames@[j].0@ == source@ && self.frames@[j].1 == frame_number),
            decreases self.frames@.len() - k,
        {
            if self.frames[k].1 == frame_number && str_eq(self.frames[k].0.as_str(), source.as_str()) {
                proof {
                    assert(old(self).seen().insert((source@, frame_number)) =~= old(self).seen());
                }
                return false;
            }
            k = k + 1;
        }
        let ghost before = self.frames@;
        let ghost text = source@;
        self.frames.push((source, frame_number));
        proof {
            assert forall|p: (Seq<char>, u32)| self.seen().contains(p) <==> old(self).seen().insert(
                (text, frame_number),
            ).contains(p) by {
                if self.seen().contains(p) {
                    let k = choose|k: int|
                        0 <= k < self.frames@.len() && self.frames@[k].0@ == p.0 && self.frames@[k].1 == p.1;
                    if k < before.len() {
                        assert(before[k] == self.frames@[k]);
                    }
                }
                if old(self).seen().contains(p) {
                    let k = choose|k: int| 0 <= k < before.len() && before[k].0@ == p.0 && before[k].1 == p.1;
                    assert(self.frames@[k] == before[k]);
                }
                if p == (text, frame_number) {
                    assert(self.frames@[before.len() as int].0@ == text);
                }
            }
            assert(self.seen() =~= old(self).seen().insert((text, frame_number)));
        }
        true
    }
}

} // verus!
