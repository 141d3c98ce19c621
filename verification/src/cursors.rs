use vstd::prelude::*;
use crate::model::NoteMode;
use crate::text::str_eq;

verus! {

/// The plain value of a list of named counters: each name to its count,
/// a later entry of a name overriding an earlier one.
pub open spec fn counter_map(s: Seq<(String, usize)>) -> Map<Seq<char>, usize>
    decreases s.len(),
{
    if s.len() == 0 {
        Map::empty()
    } else {
        counter_map(s.drop_last()).insert(s.last().0@, s.last().1)
    }
}

/// Whether no name occurs twice.
pub open spec fn names_unique(s: Seq<(String, usize)>) -> bool {
    forall|i: int, j: int| 0 <= i < j < s.len() ==> s[i].0@ != s[j].0@
}

/// Counters kept per track name, such as the place of each track in its
/// note pattern; a track not seen yet counts from zero.
pub struct CursorTable {
    entries: Vec<(String, usize)>,
}

proof fn lemma_counter_map_absent(s: Seq<(String, usize)>, k: Seq<char>)
    requires
        forall|i: int| 0 <= i < s.len() ==> s[i].0@ != k,
    ensures
        !counter_map(s).dom().contains(k),
    decreases s.len(),
{
    if s.len() > 0 {
        lemma_counter_map_absent(s.drop_last(), k);
    }
}

proof fn lemma_counter_map_at(s: Seq<(String, usize)>, i: int)
    requires
        names_unique(s),
        0 <= i < s.len(),
    ensures
        counter_map(s).dom().contains(s[i].0@),
        counter_map(s)[s[i].0@] == s[i].1,
    decreases s.len(),
{
    if i < s.len() - 1 {
        lemma_counter_map_at(s.drop_last(), i);
    }
}

proof fn lemma_counter_map_update(s: Seq<(String, usize)>, i: int, e: (String, usize))
    requires
        names_unique(s),
        0 <= i < s.len(),
        e.0@ == s[i].0@,
    ensures
        counter_map(s.update(i, e)) == counter_map(s).insert(e.0@, e.1),
    decreases s.len(),
{
    let t = s.update(i, e);
    if i == s.len() - 1 {
        assert(t.drop_last() =~= s.drop_last());
        assert(counter_map(s.drop_last()).insert(e.0@, e.1) =~= counter_map(s).insert(e.0@, e.1));
    } else {
        lemma_counter_map_update(s.drop_last(), i, e);
        assert(t.drop_last() =~= s.drop_last().update(i, e));
        assert(s.last().0@ != e.0@);
        assert(counter_map(t) =~= counter_map(s).insert(e.0@, e.1));
    }
}

impl CursorTable {
    /// Each track name seen so far and its count.
    pub closed spec fn counts(&self) -> Map<Seq<char>, usize> {
        counter_map(self.entries@)
    }

    /// No track name is kept twice.
    pub closed spec fn wf(&self) -> bool {
        names_unique(self.entries@)
    }

    /// The count of a track: 0 when it was not seen yet.
    pub open spec fn count_of(&self, id: Seq<char>) -> usize {
        if self.counts().dom().contains(id) {
            self.counts()[id]
        } else {
            0
        }
    }

    /// A table where every track counts from zero.
    pub fn new() -> (r: Self)
        ensures
            r.wf(),
            r.counts() == Map::<Seq<char>, usize>::empty(),
    {
        CursorTable { entries: Vec::new() }
    }

    fn find(&self, id: &str) -> (r: Option<usize>)
        requires
            self.wf(),
        ensures
            match r {
                Some(i) => i < self.entries@.len() && self.entries@[i as int].0@ == id@,
                None => forall|i: int| 0 <= i < self.entries@.len() ==> self.entries@[i].0@ != id@,
            },
    {
        let mut i: usize = 0;
        while i < self.entries.len()
            invariant
                i <= self.entries@.len(),
                forall|j: int| 0 <= j < i ==> self.entries@[j].0@ != id@,
            decreases self.entries@.len() - i,
        {
            if str_eq(self.entries[i].0.as_str(), id) {
                return Some(i);
            }
            i = i + 1;
        }
        None
    }

    /// The count of track `id`.
    pub fn get(&self, id: &str) -> (r: usize)
        requires
            self.wf(),
        ensures
            r == self.count_of(id@),
    {
        match self.find(id) {
            Some(i) => {
                proof {
                    lemma_counter_map_at(self.entries@, i as int);
                }
                self.entries[i].1
            },
            None => {
                proof {
                    lemma_counter_map_absent(self.entries@, id@);
                }
                0
            },
        }
    }

    /// Takes the count of track `id` and moves it on by one (wrapping).
    pub fn advance(&mut self, id: &str) -> (r: usize)
        requires
            old(self).wf(),
        ensures
            r == old(self).count_of(id@),
            final(self).wf(),
            final(self).counts() == old(self).counts().insert(id@, r.wrapping_add(1)),
    {
        match self.find(id) {
            Some(i) => {
                proof {
                    lemma_counter_map_at(self.entries@, i as int);
                }
                let count = self.entries[i].1;
                let e = (String::from_str(id), count.wrapping_add(1));
                proof {
                    lemma_counter_map_update(self.entries@, i as int, e);
                }
                self.entries.set(i, e);
                count
            },
            None => {
                proof {
                    lemma_counter_map_absent(self.entries@, id@);
                }
                let ghost before = self.entries@;
                self.entries.push((String::from_str(id), 1));
                assert(self.entries@.drop_last() =~= before);
                0
            },
        }
    }

    /// Every track counts from zero again.
    pub fn clear(&mut self)
        ensures
            final(self).wf(),
            final(self).counts() == Map::<Seq<char>, usize>::empty(),
    {
        self.entries = Vec::new();
    }
}

/// Which note a slot of a track plays.
#[derive(Clone, Copy, Debug, PartialEq, Eq, Structural)]
pub enum NoteChoice {
    /// The note of the track's pattern at its step.
    AtStep(usize),
    /// The note at this place of the track's pattern, counting only the
    /// notes played.
    AtCount(usize),
}

/// The note a slot of track `id` plays, and the counter moved on: by step,
/// the note of the step; by hit, the next note when the slot fires, else
/// the current one without moving on; by tick, the next note at every slot.
pub fn note_for_slot(
    mode: NoteMode,
    track_step: usize,
    gate: bool,
    id: &str,
    cursors: &mut CursorTable,
) -> (r: NoteChoice)
    requires
        old(cursors).wf(),
    ensures
        final(cursors).wf(),
        match mode {
            NoteMode::Step => r == NoteChoice::AtStep(track_step) && final(cursors).counts()
                == old(cursors).counts(),
            NoteMode::Hit => if gate {
                r == NoteChoice::AtCount(old(cursors).count_of(id@)) && final(cursors).counts()
                    == old(cursors).counts().insert(id@, old(cursors).count_of(id@).wrapping_add(1))
            } else {
                r == NoteChoice::AtCount(old(cursors).count_of(id@)) && final(cursors).counts()
                    == old(cursors).counts()
            },
            NoteMode::Tick => r == NoteChoice::AtCount(old(cursors).count_of(id@))
                && final(cursors).counts() == old(cursors).counts().insert(
                id@,
                old(cursors).count_of(id@).wrapping_add(1),
            ),
        },
{
    match mode {
        NoteMode::Step => NoteChoice::AtStep(track_step),
        NoteMode::Hit => {
            if gate {
                NoteChoice::AtCount(cursors.advance(id))
            } else {
                NoteChoice::AtCount(cursors.get(id))
            }
        },
        NoteMode::Tick => NoteChoice::AtCount(cursors.advance(id)),
    }
}

} // verus!
