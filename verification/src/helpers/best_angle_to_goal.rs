use vstd::prelude::*;

verus! {

/// Length of a run of samples given by its first and last index.
pub open spec fn run_len(run: (usize, usize)) -> int {
    run.1 - run.0
}

/// Closes the run that is open, if any, and keeps it as the best run when it
/// is strictly longer than the best so far (or when there is none).
pub fn finish_range(current_range: &mut Option<(usize, usize)>, best_range: &mut Option<(usize, usize)>)
    requires
        *old(current_range) matches Some(c) ==> c.0 <= c.1,
        *old(best_range) matches Some(b) ==> b.0 <= b.1,
    ensures
        (*final(current_range)) is None,
        *final(best_range) == match *old(current_range) {
            None => *old(best_range),
            Some(current) => match *old(best_range) {
                Some(best) => if run_len(current) > run_len(best) {
                    Some(current)
                } else {
                    Some(best)
                },
                None => Some(current),
            },
        },
{
    let current = match current_range.take() {
        Some(current) => current,
        None => {
            return;
        },
    };
    let replace = match *best_range {
        Some(best) => current.1 - current.0 > best.1 - best.0,
        None => true,
    };
    if replace {
        *best_range = Some(current);
    }
}

/// Whether samples `start..=end` are all open.
pub open spec fn all_open(open: Seq<bool>, start: int, end: int) -> bool {
    forall|k: int| start <= k <= end ==> open[k]
}

/// Whether `start..=end` is a maximal run of open samples.
pub open spec fn is_open_run(open: Seq<bool>, start: int, end: int) -> bool {
    &&& 0 <= start <= end < open.len()
    &&& all_open(open, start, end)
    &&& (start == 0 || !open[start - 1])
    &&& (end == open.len() - 1 || !open[end + 1])
}

/// Whether `best` is at least as long as the run `start..=end`, and strictly
/// longer if that run starts before it.
pub open spec fn beats(best: Option<(usize, usize)>, start: int, end: int) -> bool {
    match best {
        Some(b) => end - start <= b.1 - b.0 && (start < b.0 ==> end - start < b.1 - b.0),
        None => false,
    }
}

/// Two open stretches that end at the same sample and cannot be extended to
/// the left start at the same sample.
proof fn lemma_run_start_unique(open: Seq<bool>, a: int, b: int, e: int)
    requires
        0 <= a <= e < open.len(),
        0 <= b <= e,
        all_open(open, a, e),
        all_open(open, b, e),
        a == 0 || !open[a - 1],
        b == 0 || !open[b - 1],
    ensures
        a == b,
{
    if a < b {
        assert(open[b - 1]);
    } else if b < a {
        assert(open[a - 1]);
    }
}

/// The longest run of consecutive open samples, the first one among equally
/// long runs, as a pair of first and last index; `None` when no sample is
/// open. This is how the shot direction is chosen among the sampled angles
/// towards the goal: a sample is open when no opponent blocks it.
pub fn longest_open_range(open: &Vec<bool>) -> (r: Option<(usize, usize)>)
    ensures
        r is None <==> forall|k: int| 0 <= k < open@.len() ==> !open@[k],
        r matches Some(best) ==> is_open_run(open@, best.0 as int, best.1 as int),
        forall|s: int, e: int|
            #![trigger is_open_run(open@, s, e)]
            is_open_run(open@, s, e) ==> beats(r, s, e),
{
    let n = open.len();
    let mut best_range: Option<(usize, usize)> = None;
    let mut current_range: Option<(usize, usize)> = None;
    let mut i: usize = 0;
    while i < n
        invariant
            n == open@.len(),
            i <= n,
            current_range matches Some(c) ==> {
                &&& c.0 <= c.1
                &&& c.1 + 1 == i
                &&& all_open(open@, c.0 as int, c.1 as int)
                &&& (c.0 == 0 || !open@[c.0 - 1])
                &&& (best_range matches Some(b) ==> b.1 + 1 < c.0)
            },
            current_range is None ==> (i == 0 || !open@[i - 1]),
            best_range matches Some(b) ==> is_open_run(open@, b.0 as int, b.1 as int) && b.1 + 1
                < i,
            best_range is None ==> forall|k: int|
                0 <= k < i && !(current_range matches Some(c) && c.0 <= k) ==> !open@[k],
            forall|s: int, e: int|
                #![trigger is_open_run(open@, s, e)]
                is_open_run(open@, s, e) && e + 1 < i ==> beats(best_range, s, e),
        decreases n - i,
    {
        if open[i] {
            match current_range {
                Some((start, _)) => {
                    current_range = Some((start, i));
                },
                None => {
                    current_range = Some((i, i));
                },
            }
            proof {
                assert forall|s: int, e: int|
                    #![trigger is_open_run(open@, s, e)]
                    is_open_run(open@, s, e) && e + 1 < i + 1 implies beats(best_range, s, e) by {
                    if e + 1 == i {
                        assert(open@[e + 1]);
                    }
                }
            }
        } else {
            let ghost old_best = best_range;
            let ghost old_current = current_range;
            finish_range(&mut current_range, &mut best_range);
            proof {
                assert forall|s: int, e: int|
                    #![trigger is_open_run(open@, s, e)]
                    is_open_run(open@, s, e) && e + 1 < i + 1 implies beats(best_range, s, e) by {
                    if e + 1 == i {
                        match old_current {
                            Some(c) => {
                                lemma_run_start_unique(open@, s, c.0 as int, e);
                            },
                            None => {
                                assert(open@[e]);
                            },
                        }
                    } else {
                        assert(beats(old_best, s, e));
                    }
                }
            }
        }
        i = i + 1;
    }
    let ghost old_best = best_range;
    let ghost old_current = current_range;
    finish_range(&mut current_range, &mut best_range);
    proof {
        assert forall|s: int, e: int|
            #![trigger is_open_run(open@, s, e)]
            is_open_run(open@, s, e) implies beats(best_range, s, e) by {
            if e + 1 == n {
                match old_current {
                    Some(c) => {
                        lemma_run_start_unique(open@, s, c.0 as int, e);
                    },
                    None => {
                        assert(open@[e]);
                    },
                }
            } else {
                assert(beats(old_best, s, e));
            }
        }
        if best_range is None {
            assert forall|k: int| 0 <= k < open@.len() implies !open@[k] by {}
        } else {
            let b = best_range->0;
            assert(open@[b.0 as int]);
        }
    }
    best_range
}

} // verus!
