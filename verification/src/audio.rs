use vstd::prelude::*;
use vstd::string::StringSliceAdditionalSpecFns;

verus! {

/// The step number that announces that the transport stopped.
pub const TRANSPORT_STOPPED_STEP: usize = usize::MAX;

/// A step of the sequencer as reported to front ends: its number and the
/// scene playing, if any.
#[derive(Clone, Debug)]
pub struct StepEvent {
    pub step: usize,
    pub scene: Option<String>,
}

/// The value of a per-hit parameter pattern at hit `index` (cycling), or
/// `fallback` when there is no pattern or it is empty.
pub open spec fn spec_pattern_usize_or(pattern: Option<Seq<usize>>, fallback: usize, index: nat) -> usize {
    match pattern {
        Some(v) => if v.len() > 0 {
            v[(index % v.len()) as int]
        } else {
            fallback
        },
        None => fallback,
    }
}

/// Reads a cycling integer parameter pattern.
pub fn pattern_usize_or(pattern: &Option<Vec<usize>>, fallback: usize, index: usize) -> (r: usize)
    ensures
        r == spec_pattern_usize_or(
            match pattern {
                Some(v) => Some(v@),
                None => None,
            },
            fallback,
            index as nat,
        ),
{
    match pattern {
        Some(values) => {
            if values.len() > 0 {
                values[index % values.len()]
            } else {
                fallback
            }
        },
        None => fallback,
    }
}

/// One round of the FNV-1a hash.
pub open spec fn fnv_round(h: u32, byte: u8) -> u32 {
    (h ^ (byte as u32)).wrapping_mul(16777619)
}

/// FNV-1a over `bytes`, started from the offset basis mixed with `step`.
pub open spec fn spec_seed(bytes: Seq<u8>, step: usize) -> u32
    decreases bytes.len(),
{
    if bytes.len() == 0 {
        2166136261u32 ^ (step as u32)
    } else {
        fnv_round(spec_seed(bytes.drop_last(), step), bytes.last())
    }
}

/// The noise seed of a voice: the FNV-1a hash of the track id's UTF-8 bytes,
/// started from the offset basis mixed with the step number.
pub fn seed_from_step(id: &str, step: usize) -> (r: u32)
    ensures
        r == spec_seed(id.spec_bytes(), step),
{
    let bytes = id.as_bytes();
    let mut hash: u32 = 2166136261u32 ^ (step as u32);
    let mut i: usize = 0;
    assert(bytes@.subrange(0, 0) =~= Seq::<u8>::empty());
    while i < bytes.len()
        invariant
            i <= bytes@.len(),
            hash == spec_seed(bytes@.subrange(0, i as int), step),
        decreases bytes@.len() - i,
    {
        let byte = bytes[i];
        hash = (hash ^ (byte as u32)).wrapping_mul(16777619);
        assert(bytes@.subrange(0, i + 1).drop_last() =~= bytes@.subrange(0, i as int));
        i = i + 1;
    }
    assert(bytes@.subrange(0, bytes@.len() as int) =~= bytes@);
    hash
}

/// What the front end does after looking at one step event while it drains
/// the events that queued up behind the one it woke for.
pub enum CoalesceStep {
    /// Report this event and stop draining.
    Done(StepEvent),
    /// Keep this event as the newest so far and look at the next one.
    Continue(StepEvent),
}

/// Whether an event reports that the transport stopped.
pub open spec fn is_stop(event: StepEvent) -> bool {
    event.step == TRANSPORT_STOPPED_STEP
}

/// Starts draining from the event the front end woke for: a stop report is
/// reported at once; any other event becomes the newest so far.
pub fn coalesce_start(first: StepEvent) -> (r: CoalesceStep)
    ensures
        is_stop(first) ==> r == CoalesceStep::Done(first),
        !is_stop(first) ==> r == CoalesceStep::Continue(first),
{
    if first.step == TRANSPORT_STOPPED_STEP {
        CoalesceStep::Done(first)
    } else {
        CoalesceStep::Continue(first)
    }
}

/// One step of draining: with nothing more queued the newest event so far is
/// reported; a queued stop report is reported at once; any other queued event
/// replaces the newest so far.
pub fn coalesce_next(latest: StepEvent, received: Option<StepEvent>) -> (r: CoalesceStep)
    ensures
        r == match received {
            None => CoalesceStep::Done(latest),
            Some(e) => if is_stop(e) {
                CoalesceStep::Done(e)
            } else {
                CoalesceStep::Continue(e)
            },
        },
{
    match received {
        None => CoalesceStep::Done(latest),
        Some(event) => {
            if event.step == TRANSPORT_STOPPED_STEP {
                CoalesceStep::Done(event)
            } else {
                CoalesceStep::Continue(event)
            }
        },
    }
}

/// The event reported after draining `queued` (everything that was waiting,
/// in order) behind `first`: `first` if it is a stop report; otherwise the
/// first stop report among the queued events, or else the last queued event,
/// or `first` when nothing was queued.
pub open spec fn spec_coalesced(first: StepEvent, queued: Seq<StepEvent>) -> StepEvent
    decreases queued.len(),
{
    if is_stop(first) || queued.len() == 0 {
        first
    } else {
        spec_coalesced(queued[0], queued.drop_first())
    }
}


/// Draining never skips a stop report: when one is queued, what is
/// reported is a stop report; and what is reported is `first` or one of the
/// queued events.
pub proof fn lemma_coalesced_stop(first: StepEvent, queued: Seq<StepEvent>)
    ensures
        (exists|i: int| 0 <= i < queued.len() && is_stop(#[trigger] queued[i])) ==> is_stop(
            spec_coalesced(first, queued),
        ),
        spec_coalesced(first, queued) == first || queued.contains(spec_coalesced(first, queued)),
    decreases queued.len(),
{
    if !is_stop(first) && queued.len() > 0 {
        lemma_coalesced_stop(queued[0], queued.drop_first());
        if exists|i: int| 0 <= i < queued.len() && is_stop(#[trigger] queued[i]) {
            let i = choose|i: int| 0 <= i < queued.len() && is_stop(#[trigger] queued[i]);
            if i > 0 {
                assert(queued.drop_first()[i - 1] == queued[i]);
            }
        }
        let r = spec_coalesced(queued[0], queued.drop_first());
        if r != queued[0] {
            let j = choose|j: int| 0 <= j < queued.drop_first().len() && queued.drop_first()[j] == r;
            assert(queued[j + 1] == r);
        } else {
            assert(queued[0] == r);
        }
    }
}

/// The step event to report for `first` and the events queued behind it,
/// in order: draining them with `coalesce_start` and `coalesce_next` (and a
/// final `None`) reports the event that `spec_coalesced` names.
pub fn coalesced_step_event(first: StepEvent, queued: Vec<StepEvent>) -> (r: StepEvent)
    ensures
        r == spec_coalesced(first, queued@),
{
    let ghost all = queued@;
    let mut step = coalesce_start(first);
    let mut rest = queued;
    loop
        invariant
            all == queued@,
            rest@.len() <= all.len(),
            rest@ == all.subrange(all.len() - rest@.len(), all.len() as int),
            match step {
                CoalesceStep::Done(e) => e == spec_coalesced(first, all),
                CoalesceStep::Continue(e) => !is_stop(e) && spec_coalesced(e, rest@)
                    == spec_coalesced(first, all),
            },
        decreases rest@.len(), if step is Done { 0int } else { 1int },
    {
        match step {
            CoalesceStep::Done(e) => {
                return e;
            },
            CoalesceStep::Continue(latest) => {
                let ghost before = rest@;
                let received = if rest.len() > 0 {
                    Some(rest.remove(0))
                } else {
                    None
                };
                proof {
                    if before.len() > 0 {
                        assert(rest@ =~= before.drop_first());
                        assert(received == Some(before[0]));
                        assert(spec_coalesced(latest, before) == spec_coalesced(
                            before[0],
                            before.drop_first(),
                        ));
                        assert(spec_coalesced(before[0], before.drop_first()) == before[0]
                            || !is_stop(before[0]));
                    } else {
                        assert(spec_coalesced(latest, before) == latest);
                    }
                }
                step = coalesce_next(latest, received);
            },
        }
    }
}

} // verus!
