//! The segmented memory: segments of words under identifiers that are
//! handed out by a map and given back by an unmap, the last given back
//! being the first handed out again.

use vstd::prelude::*;
use crate::um::{Fault, UmWord};

verus! {

/// What a memory holds: for each identifier that was ever handed out, the
/// words of its segment or the mark that it is unmapped, and the unmapped
/// identifiers in the order in which they were given back.
pub struct MemoryState {
    pub segments: Seq<Option<Seq<UmWord>>>,
    pub free_list: Seq<int>,
}

impl MemoryState {
    /// A memory as it is made: the empty program under identifier 0, and
    /// nothing else.
    pub open spec fn fresh() -> MemoryState {
        MemoryState { segments: seq![Some(Seq::<UmWord>::empty())], free_list: Seq::empty() }
    }

    /// Identifier `id` was given back and not handed out again since.
    pub open spec fn is_free(self, id: int) -> bool {
        exists|i: int| 0 <= i < self.free_list.len() && self.free_list[i] == id
    }

    /// Identifier `id` names a segment.
    pub open spec fn is_live(self, id: int) -> bool {
        0 <= id < self.segments.len() && self.segments[id] is Some
    }

    /// The words of segment `id`.
    pub open spec fn segment(self, id: int) -> Seq<UmWord>
        recommends
            self.is_live(id),
    {
        self.segments[id]->0
    }

    /// The program is live, and the free list holds each unmapped identifier
    /// once and nothing else.
    pub open spec fn wf(self) -> bool {
        &&& self.is_live(0)
        &&& self.free_list.no_duplicates()
        &&& forall|i: int|
            0 <= i < self.free_list.len() ==> {
                &&& 0 <= (#[trigger] self.free_list[i]) < self.segments.len()
                &&& self.segments[self.free_list[i]] is None
            }
        &&& forall|id: int|
            0 <= id < self.segments.len() && (#[trigger] self.segments[id]) is None
                ==> self.is_free(id)
    }

    /// A segment of `size` zero words.
    pub open spec fn zeros(size: nat) -> Seq<UmWord> {
        Seq::new(size, |i: int| 0u32)
    }

    /// The identifier that the next map returns: the one given back last, or,
    /// where none is free, the first that was never handed out.
    pub open spec fn next_identifier(self) -> int {
        if self.free_list.len() > 0 {
            self.free_list.last()
        } else {
            self.segments.len() as int
        }
    }

    /// The memory after a map of `size` words: `next_identifier()` names a
    /// segment of `size` zero words and is off the free list.
    pub open spec fn map_segment(self, size: nat) -> MemoryState {
        if self.free_list.len() > 0 {
            MemoryState {
                segments: self.segments.update(self.free_list.last(), Some(Self::zeros(size))),
                free_list: self.free_list.drop_last(),
            }
        } else {
            MemoryState {
                segments: self.segments.push(Some(Self::zeros(size))),
                free_list: self.free_list,
            }
        }
    }

    /// Why `id` cannot be unmapped, if it cannot: it is the program, or it
    /// names no segment.
    pub open spec fn unmap_fault(self, id: int) -> Option<Fault> {
        if id == 0 {
            Some(Fault::UnmapProgram)
        } else if !self.is_live(id) {
            Some(Fault::UnmappedSegment)
        } else {
            None
        }
    }

    /// The memory after an unmap of `id`: the slot is cleared and `id` is the
    /// last entry of the free list.
    pub open spec fn unmap_segment(self, id: int) -> MemoryState
        recommends
            self.unmap_fault(id) is None,
    {
        MemoryState { segments: self.segments.update(id, None), free_list: self.free_list.push(id) }
    }

    /// Why the word at `offset` of segment `id` cannot be reached, if it
    /// cannot: `id` names no segment, or the segment ends at or before
    /// `offset`.
    pub open spec fn access_fault(self, id: int, offset: int) -> Option<Fault> {
        if !self.is_live(id) {
            Some(Fault::UnmappedSegment)
        } else if !(0 <= offset < self.segment(id).len()) {
            Some(Fault::OutOfBounds)
        } else {
            None
        }
    }

    /// The word at `offset` of segment `id`.
    pub open spec fn read(self, id: int, offset: int) -> UmWord
        recommends
            self.access_fault(id, offset) is None,
    {
        self.segment(id)[offset]
    }

    /// The memory after `word` was written at `offset` of segment `id`.
    pub open spec fn write(self, id: int, offset: int, word: UmWord) -> MemoryState
        recommends
            self.access_fault(id, offset) is None,
    {
        MemoryState {
            segments: self.segments.update(id, Some(self.segment(id).update(offset, word))),
            free_list: self.free_list,
        }
    }

    /// The memory with `program` under identifier 0.
    pub open spec fn load_program(self, program: Seq<UmWord>) -> MemoryState {
        MemoryState { segments: self.segments.update(0, Some(program)), free_list: self.free_list }
    }

    /// The memory after segment `id` was copied into the program's slot.
    pub open spec fn clone_into_program(self, id: int) -> MemoryState
        recommends
            self.is_live(id),
    {
        self.load_program(self.segment(id))
    }

    /// A map keeps the memory well formed. The identifier that it returns is
    /// never 0 and named no segment before; after the map it names a segment
    /// of `size` zero words.
    pub proof fn lemma_map_segment(self, size: nat)
        requires
            self.wf(),
        ensures
            self.map_segment(size).wf(),
            self.next_identifier() != 0,
            !self.is_live(self.next_identifier()),
            self.map_segment(size).is_live(self.next_identifier()),
            self.map_segment(size).segment(self.next_identifier()) == Self::zeros(size),
    {
        let after = self.map_segment(size);
        if self.free_list.len() > 0 {
            assert forall|other: int|
                0 <= other < after.segments.len() && (#[trigger] after.segments[other]) is None
            implies after.is_free(other) by {
                let i = choose|i: int| 0 <= i < self.free_list.len() && self.free_list[i] == other;
                assert(after.free_list[i] == other);
            }
        }
    }

    /// A map leaves every segment but the new one as it was.
    pub proof fn lemma_map_keeps_others(self, size: nat, other: int)
        requires
            self.wf(),
            other != self.next_identifier(),
        ensures
            self.map_segment(size).is_live(other) == self.is_live(other),
            self.is_live(other) ==> self.map_segment(size).segment(other) == self.segment(other),
    {
    }

    /// A read of a segment that was just mapped gives zero at every offset
    /// below its size.
    pub proof fn lemma_read_after_map(self, size: nat, offset: int)
        requires
            self.wf(),
            0 <= offset < size,
        ensures
            self.map_segment(size).access_fault(self.next_identifier(), offset) is None,
            self.map_segment(size).read(self.next_identifier(), offset) == 0,
    {
        self.lemma_map_segment(size);
    }

    /// An unmap that is not refused keeps the memory well formed, and the
    /// next map returns the identifier that was unmapped.
    pub proof fn lemma_unmap_segment(self, id: int)
        requires
            self.wf(),
            self.unmap_fault(id) is None,
        ensures
            self.unmap_segment(id).wf(),
            self.unmap_segment(id).next_identifier() == id,
            !self.unmap_segment(id).is_live(id),
    {
        let after = self.unmap_segment(id);
        let last = self.free_list.len() as int;
        assert forall|other: int|
            0 <= other < after.segments.len() && (#[trigger] after.segments[other]) is None
        implies after.is_free(other) by {
            if other == id {
                assert(after.free_list[last] == other);
            } else {
                assert(self.segments[other] is None);
                let i = choose|i: int| 0 <= i < self.free_list.len() && self.free_list[i] == other;
                assert(after.free_list[i] == other);
            }
        }
    }

    /// An unmap leaves every other segment as it was.
    pub proof fn lemma_unmap_keeps_others(self, id: int, other: int)
        requires
            self.wf(),
            self.unmap_fault(id) is None,
            other != id,
        ensures
            self.unmap_segment(id).is_live(other) == self.is_live(other),
            self.is_live(other) ==> self.unmap_segment(id).segment(other) == self.segment(other),
    {
    }

    /// Identifiers are reused last in, first out: after a map and the unmap
    /// of the identifier that it returned, a second map, of any size,
    /// returns the same identifier.
    pub proof fn lemma_lifo_reuse(self, first_size: nat, second_size: nat)
        requires
            self.wf(),
        ensures
            ({
                let id = self.next_identifier();
                let mapped = self.map_segment(first_size);
                let unmapped = mapped.unmap_segment(id);
                &&& mapped.unmap_fault(id) is None
                &&& unmapped.free_list.len() > 0
                &&& unmapped.next_identifier() == id
                &&& unmapped.map_segment(second_size).wf()
                &&& unmapped.map_segment(second_size).segment(id) == Self::zeros(second_size)
            }),
    {
        let id = self.next_identifier();
        let mapped = self.map_segment(first_size);
        self.lemma_map_segment(first_size);
        mapped.lemma_unmap_segment(id);
        mapped.unmap_segment(id).lemma_map_segment(second_size);
    }

    /// After an unmap that was not refused, a read or a write of that
    /// identifier, at any offset, fails for want of a segment, and so does a
    /// second unmap of it.
    pub proof fn lemma_access_after_unmap(self, id: int, offset: int)
        requires
            self.wf(),
            self.unmap_fault(id) is None,
        ensures
            self.unmap_segment(id).access_fault(id, offset) == Some(Fault::UnmappedSegment),
            self.unmap_segment(id).unmap_fault(id) == Some(Fault::UnmappedSegment),
    {
    }

    /// A write that is not refused keeps the memory well formed; a read of
    /// the same place gives the word that was written, and every other place
    /// holds what it held.
    pub proof fn lemma_write(self, id: int, offset: int, word: UmWord)
        requires
            self.wf(),
            self.access_fault(id, offset) is None,
        ensures
            self.write(id, offset, word).wf(),
            self.write(id, offset, word).access_fault(id, offset) is None,
            self.write(id, offset, word).read(id, offset) == word,
            forall|other: int, place: int|
                other != id || place != offset ==> {
                    &&& self.write(id, offset, word).access_fault(other, place)
                        == self.access_fault(other, place)
                    &&& self.access_fault(other, place) is None ==> self.write(
                        id,
                        offset,
                        word,
                    ).read(other, place) == self.read(other, place)
                },
    {
    }

    /// A new program keeps the memory well formed and every other segment as
    /// it was.
    pub proof fn lemma_load_program(self, program: Seq<UmWord>)
        requires
            self.wf(),
        ensures
            self.load_program(program).wf(),
            self.load_program(program).segment(0) == program,
            forall|other: int|
                0 < other < self.segments.len() ==> self.load_program(program).segments[other]
                    == self.segments[other],
    {
    }
}

/// The words of a slot, or the mark that it is unmapped.
pub open spec fn slot_view(slot: Option<Vec<UmWord>>) -> Option<Seq<UmWord>> {
    match slot {
        Some(words) => Some(words@),
        None => None,
    }
}

/// The segments of a machine, each under the identifier that `map_segment`
/// returned for it, and the identifiers that are free for reuse.
pub struct Memory {
    segments: Vec<Option<Vec<UmWord>>>,
    free_list: Vec<usize>,
}

impl View for Memory {
    type V = MemoryState;

    closed spec fn view(&self) -> MemoryState {
        MemoryState {
            segments: Seq::new(self.segments@.len(), |i: int| slot_view(self.segments@[i])),
            free_list: self.free_list@.map_values(|id: usize| id as int),
        }
    }
}

impl Memory {
    /// The invariant of a memory: that of what it holds.
    pub open spec fn wf(&self) -> bool {
        self@.wf()
    }

    /// A segment has no more words than a `usize` counts, and there are no
    /// more identifiers than that.
    pub proof fn lemma_fits_usize(&self, id: int)
        ensures
            self@.segments.len() <= usize::MAX,
            self@.is_live(id) ==> self@.segment(id).len() <= usize::MAX,
    {
        if self@.is_live(id) {
            let words = self.segments@[id]->0;
            assert(words@.len() == words.len());
        }
        assert(self.segments@.len() == self.segments.len());
    }

    /// A memory that holds the empty program under identifier 0 and nothing
    /// else.
    pub fn new() -> (memory: Self)
        ensures
            memory.wf(),
            memory@ == MemoryState::fresh(),
    {
        let mut segments: Vec<Option<Vec<UmWord>>> = Vec::new();
        segments.push(Some(Vec::new()));
        let memory = Memory { segments, free_list: Vec::with_capacity(1 << 16) };
        assert(memory@.segments =~= MemoryState::fresh().segments);
        assert(memory@.free_list =~= MemoryState::fresh().free_list);
        memory
    }

    /// The identifier that the next `map_segment` returns.
    pub fn next_identifier(&self) -> (id: usize)
        ensures
            id == self@.next_identifier(),
    {
        let free = self.free_list.len();
        if free > 0 {
            self.free_list[free - 1]
        } else {
            self.segments.len()
        }
    }

    /// Maps a segment of `size` zero words and returns its identifier: the
    /// one that was unmapped last, or a new one where none is free. The
    /// identifier is never 0.
    pub fn map_segment(&mut self, size: usize) -> (id: usize)
        requires
            old(self).wf(),
        ensures
            final(self).wf(),
            id == old(self)@.next_identifier(),
            id != 0,
            !old(self)@.is_live(id as int),
            final(self)@ == old(self)@.map_segment(size as nat),
            final(self)@.is_live(id as int),
            final(self)@.segment(id as int) == MemoryState::zeros(size as nat),
    {
        let segment: Vec<UmWord> = vec![0u32; size];
        assert(segment@ =~= MemoryState::zeros(size as nat));
        let ghost before = self@;
        let id = match self.free_list.pop() {
            Some(idx) => {
                assert(idx == before.free_list[before.free_list.len() - 1]);
                self.segments[idx] = Some(segment);
                idx
            },
            None => {
                self.segments.push(Some(segment));
                self.segments.len() - 1
            },
        };
        proof {
            let after = before.map_segment(size as nat);
            assert(self@.segments =~= after.segments);
            assert(self@.free_list =~= after.free_list);
            before.lemma_map_segment(size as nat);
        }
        id
    }

    /// Unmaps segment `idx` and puts the identifier on the free list. The
    /// program, and an identifier that names no segment, are refused, and
    /// the memory is then as it was.
    pub fn unmap_segment(&mut self, idx: usize) -> (done: Result<(), Fault>)
        requires
            old(self).wf(),
        ensures
            final(self).wf(),
            match done {
                Ok(()) => {
                    &&& old(self)@.unmap_fault(idx as int) is None
                    &&& final(self)@ == old(self)@.unmap_segment(idx as int)
                },
                Err(fault) => {
                    &&& old(self)@.unmap_fault(idx as int) == Some(fault)
                    &&& final(self)@ == old(self)@
                },
            },
    {
        if idx == 0 {
            return Err(Fault::UnmapProgram);
        }
        if idx >= self.segments.len() {
            return Err(Fault::UnmappedSegment);
        }
        if self.segments[idx].is_none() {
            return Err(Fault::UnmappedSegment);
        }
        let ghost before = self@;
        self.segments[idx] = None;
        self.free_list.push(idx);
        proof {
            let after = before.unmap_segment(idx as int);
            assert(self@.segments =~= after.segments);
            assert(self@.free_list =~= after.free_list);
            before.lemma_unmap_segment(idx as int);
        }
        Ok(())
    }

    /// The length of segment `id`, if `id` names a segment.
    pub fn segment_len(&self, id: usize) -> (len: Option<usize>)
        ensures
            match len {
                Some(n) => self@.is_live(id as int) && n == self@.segment(id as int).len(),
                None => !self@.is_live(id as int),
            },
    {
        if id >= self.segments.len() {
            return None;
        }
        match &self.segments[id] {
            Some(segment) => Some(segment.len()),
            None => None,
        }
    }

    /// The word at `offset` of segment `id`.
    pub fn read(&self, id: usize, offset: usize) -> (word: Result<UmWord, Fault>)
        ensures
            match word {
                Ok(w) => {
                    &&& self@.access_fault(id as int, offset as int) is None
                    &&& w == self@.read(id as int, offset as int)
                },
                Err(fault) => self@.access_fault(id as int, offset as int) == Some(fault),
            },
    {
        if id >= self.segments.len() {
            return Err(Fault::UnmappedSegment);
        }
        match &self.segments[id] {
            Some(segment) => {
                if offset < segment.len() {
                    Ok(segment[offset])
                } else {
                    Err(Fault::OutOfBounds)
                }
            },
            None => Err(Fault::UnmappedSegment),
        }
    }

    /// Writes `word` at `offset` of segment `id`. Where that place cannot be
    /// reached, the memory is as it was.
    pub fn write(&mut self, id: usize, offset: usize, word: UmWord) -> (done: Result<(), Fault>)
        requires
            old(self).wf(),
        ensures
            final(self).wf(),
            match done {
                Ok(()) => {
                    &&& old(self)@.access_fault(id as int, offset as int) is None
                    &&& final(self)@ == old(self)@.write(id as int, offset as int, word)
                },
                Err(fault) => {
                    &&& old(self)@.access_fault(id as int, offset as int) == Some(fault)
                    &&& final(self)@ == old(self)@
                },
            },
    {
        if id >= self.segments.len() {
            return Err(Fault::UnmappedSegment);
        }
        let ghost before = self@;
        let done = match &mut self.segments[id] {
            Some(segment) => {
                if offset < segment.len() {
                    segment[offset] = word;
                    Ok(())
                } else {
                    Err(Fault::OutOfBounds)
                }
            },
            None => Err(Fault::UnmappedSegment),
        };
        proof {
            if done is Ok {
                assert(self@.segments =~= before.write(id as int, offset as int, word).segments);
                before.lemma_write(id as int, offset as int, word);
            } else {
                assert(self@.segments =~= before.segments);
            }
        }
        done
    }

    /// Puts `program` under identifier 0, in place of what was there.
    pub fn load_program(&mut self, program: Vec<UmWord>)
        requires
            old(self).wf(),
        ensures
            final(self).wf(),
            final(self)@ == old(self)@.load_program(program@),
    {
        let ghost before = self@;
        self.segments[0] = Some(program);
        proof {
            assert(self@.segments =~= before.load_program(program@).segments);
            before.lemma_load_program(program@);
        }
    }

    /// Copies segment `id` into the program's slot, in place of what was
    /// there. Where `id` names no segment, the memory is as it was.
    pub fn clone_into_program(&mut self, id: usize) -> (done: Result<(), Fault>)
        requires
            old(self).wf(),
        ensures
            final(self).wf(),
            match done {
                Ok(()) => {
                    &&& old(self)@.is_live(id as int)
                    &&& final(self)@ == old(self)@.clone_into_program(id as int)
                },
                Err(fault) => {
                    &&& !old(self)@.is_live(id as int)
                    &&& fault == Fault::UnmappedSegment
                    &&& final(self)@ == old(self)@
                },
            },
    {
        if id >= self.segments.len() {
            return Err(Fault::UnmappedSegment);
        }
        let duplicate = match &self.segments[id] {
            Some(segment) => segment.clone(),
            None => {
                return Err(Fault::UnmappedSegment);
            },
        };
        self.load_program(duplicate);
        Ok(())
    }
}

} // verus!
