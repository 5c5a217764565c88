//! The segment table: the machine's memory, a collection of zero-based word
//! arrays named by 32-bit identifiers, with a pool of freed identifiers that
//! later allocations reuse, most recently freed first.
use crate::fault::Fault;
use vstd::prelude::*;

verus! {

/// The abstract contents of a segment table.
pub struct SegmentsModel {
    /// Contents of every slot, mapped or not, by identifier.
    pub segs: Seq<Seq<u32>>,
    /// Whether each slot currently holds a live segment.
    pub mapped: Seq<bool>,
    /// Freed identifiers; the last one is reused first.
    pub free: Seq<u32>,
}

/// `n` zero words.
pub open spec fn zeros(n: nat) -> Seq<u32> {
    Seq::new(n, |i: int| 0u32)
}

impl SegmentsModel {
    /// Segment 0 is always mapped, every identifier fits in 32 bits, and the
    /// free pool holds distinct unmapped identifiers other than 0.
    pub open spec fn wf(self) -> bool {
        &&& self.segs.len() == self.mapped.len()
        &&& 1 <= self.segs.len() <= 0x1_0000_0000
        &&& self.mapped[0]
        &&& self.free.no_duplicates()
        &&& forall|k: int|
            0 <= k < self.free.len() ==> {
                &&& 0 < #[trigger] self.free[k] < self.segs.len()
                &&& !self.mapped[self.free[k] as int]
            }
    }

    /// `id` names a live segment.
    pub open spec fn is_mapped(self, id: u32) -> bool {
        id < self.segs.len() && self.mapped[id as int]
    }

    /// The contents of segment `id`.
    pub open spec fn seg(self, id: u32) -> Seq<u32> {
        self.segs[id as int]
    }

    /// Allocation of a zeroed segment of `n` words: the table afterwards and
    /// the identifier handed out. The last freed identifier is reused if
    /// there is one, else a new slot is appended.
    pub open spec fn allocate(self, n: nat) -> Result<(SegmentsModel, u32), Fault> {
        if self.free.len() > 0 {
            let id = self.free.last();
            Ok(
                (
                    SegmentsModel {
                        segs: self.segs.update(id as int, zeros(n)),
                        mapped: self.mapped.update(id as int, true),
                        free: self.free.drop_last(),
                    },
                    id,
                ),
            )
        } else if self.segs.len() < 0x1_0000_0000 {
            Ok(
                (
                    SegmentsModel {
                        segs: self.segs.push(zeros(n)),
                        mapped: self.mapped.push(true),
                        free: self.free,
                    },
                    self.segs.len() as u32,
                ),
            )
        } else {
            Err(Fault::IdentifiersExhausted)
        }
    }

    /// Freeing of segment `id`: it is no longer mapped and its identifier
    /// joins the pool. Segment 0 and unmapped identifiers cannot be freed.
    pub open spec fn free(self, id: u32) -> Result<SegmentsModel, Fault> {
        if id == 0 {
            Err(Fault::UnmapProgramSegment)
        } else if !self.is_mapped(id) {
            Err(Fault::UnmapUnmappedSegment)
        } else {
            Ok(
                SegmentsModel {
                    segs: self.segs,
                    mapped: self.mapped.update(id as int, false),
                    free: self.free.push(id),
                },
            )
        }
    }

    /// The fault, if any, of an access to `offset` of segment `id`.
    pub open spec fn access_fault(self, id: u32, offset: u32) -> Option<Fault> {
        if !self.is_mapped(id) {
            Some(Fault::UnmappedSegment)
        } else if offset >= self.seg(id).len() {
            Some(Fault::OffsetOutOfRange)
        } else {
            None
        }
    }

    /// The word at `offset` of segment `id`.
    pub open spec fn read(self, id: u32, offset: u32) -> Result<u32, Fault> {
        match self.access_fault(id, offset) {
            Some(f) => Err(f),
            None => Ok(self.seg(id)[offset as int]),
        }
    }

    /// The table after `value` is written at `offset` of segment `id`.
    pub open spec fn write(self, id: u32, offset: u32, value: u32) -> Result<SegmentsModel, Fault> {
        match self.access_fault(id, offset) {
            Some(f) => Err(f),
            None => Ok(
                SegmentsModel {
                    segs: self.segs.update(id as int, self.seg(id).update(offset as int, value)),
                    ..self
                },
            ),
        }
    }

    /// The table after segment 0 is replaced by a copy of segment `id`;
    /// unchanged when `id` is 0.
    pub open spec fn replace_program(self, id: u32) -> Result<SegmentsModel, Fault> {
        if id == 0 {
            Ok(self)
        } else if !self.is_mapped(id) {
            Err(Fault::UnmappedSegment)
        } else {
            Ok(SegmentsModel { segs: self.segs.update(0, self.seg(id)), ..self })
        }
    }
}

/// The machine's memory.
pub struct SegmentTable {
    segments: Vec<Vec<u32>>,
    mapped: Vec<bool>,
    free_segs: Vec<u32>,
}

impl View for SegmentTable {
    type V = SegmentsModel;

    closed spec fn view(&self) -> SegmentsModel {
        SegmentsModel {
            segs: self.segments@.map_values(|s: Vec<u32>| s@),
            mapped: self.mapped@,
            free: self.free_segs@,
        }
    }
}

/// `r` reports the outcome `expected` of an operation on a table that was
/// `before` and is now `after`: on a fault the table is unchanged.
pub open spec fn table_outcome(
    before: SegmentsModel,
    after: SegmentsModel,
    r: Result<(), Fault>,
    expected: Result<SegmentsModel, Fault>,
) -> bool {
    match expected {
        Ok(m) => r is Ok && after == m,
        Err(f) => r == Err::<(), Fault>(f) && after == before,
    }
}

impl SegmentTable {
    /// The table is consistent.
    pub open spec fn wf(&self) -> bool {
        self@.wf()
    }

    /// A table whose segment 0 holds `program` and nothing else is mapped.
    pub fn new(program: Vec<u32>) -> (t: SegmentTable)
        ensures
            t.wf(),
            t@.segs == seq![program@],
            t@.mapped == seq![true],
            t@.free == Seq::<u32>::empty(),
    {
        let mut segments: Vec<Vec<u32>> = Vec::new();
        segments.push(program);
        let mut mapped: Vec<bool> = Vec::new();
        mapped.push(true);
        let t = SegmentTable { segments, mapped, free_segs: Vec::new() };
        assert(t@.segs =~= seq![program@]);
        t
    }

    /// Allocates a zeroed segment of `length` words and returns its
    /// identifier, reusing the most recently freed identifier if any.
    pub fn allocate(&mut self, length: u32) -> (r: Result<u32, Fault>)
        requires
            old(self).wf(),
        ensures
            final(self).wf(),
            match old(self)@.allocate(length as nat) {
                Ok((m, id)) => r == Ok::<u32, Fault>(id) && final(self)@ == m,
                Err(f) => r == Err::<u32, Fault>(f) && final(self)@ == old(self)@,
            },
    {
        let ghost m0 = self@;
        let n = self.free_segs.len();
        if n > 0 {
            let id = self.free_segs[n - 1];
            self.free_segs.pop();
            let segment = vec![0u32; length as usize];
            assert(segment@ =~= zeros(length as nat));
            self.segments.set(id as usize, segment);
            self.mapped.set(id as usize, true);
            proof {
                let m1 = m0.allocate(length as nat).unwrap().0;
                assert(self@.segs =~= m1.segs);
                assert(self@.free =~= m1.free);
                assert forall|k: int| 0 <= k < self@.free.len() implies {
                    &&& 0 < #[trigger] self@.free[k] < self@.segs.len()
                    &&& !self@.mapped[self@.free[k] as int]
                } by {
                    assert(m0.free[k] != m0.free[m0.free.len() - 1]);
                }
            }
            Ok(id)
        } else if self.segments.len() as u64 >= 0x1_0000_0000u64 {
            Err(Fault::IdentifiersExhausted)
        } else {
            let id = self.segments.len() as u32;
            let segment = vec![0u32; length as usize];
            assert(segment@ =~= zeros(length as nat));
            self.segments.push(segment);
            self.mapped.push(true);
            proof {
                let m1 = m0.allocate(length as nat).unwrap().0;
                assert(self@.segs =~= m1.segs);
            }
            Ok(id)
        }
    }

    /// Frees segment `id`, whose identifier a later allocation may reuse.
    /// The storage is left as it is: allocation overwrites it.
    pub fn free(&mut self, id: u32) -> (r: Result<(), Fault>)
        requires
            old(self).wf(),
        ensures
            final(self).wf(),
            table_outcome(old(self)@, final(self)@, r, old(self)@.free(id)),
    {
        let ghost m0 = self@;
        if id == 0 {
            return Err(Fault::UnmapProgramSegment);
        }
        if id as usize >= self.mapped.len() || !self.mapped[id as usize] {
            return Err(Fault::UnmapUnmappedSegment);
        }
        self.mapped.set(id as usize, false);
        self.free_segs.push(id);
        proof {
            assert(self@.segs =~= m0.segs);
            assert forall|k: int| 0 <= k < self@.free.len() implies {
                &&& 0 < #[trigger] self@.free[k] < self@.segs.len()
                &&& !self@.mapped[self@.free[k] as int]
            } by {
                if k < m0.free.len() {
                    assert(self@.free[k] == m0.free[k]);
                }
            }
            assert(self@.free.no_duplicates());
        }
        Ok(())
    }

    /// The word at `offset` of segment `id`.
    pub fn read(&self, id: u32, offset: u32) -> (r: Result<u32, Fault>)
        requires
            self.wf(),
        ensures
            r == self@.read(id, offset),
    {
        if id as usize >= self.segments.len() || !self.mapped[id as usize] {
            return Err(Fault::UnmappedSegment);
        }
        let segment = &self.segments[id as usize];
        if offset as usize >= segment.len() {
            return Err(Fault::OffsetOutOfRange);
        }
        Ok(segment[offset as usize])
    }

    /// Writes `value` at `offset` of segment `id`.
    pub fn write(&mut self, id: u32, offset: u32, value: u32) -> (r: Result<(), Fault>)
        requires
            old(self).wf(),
        ensures
            final(self).wf(),
            table_outcome(old(self)@, final(self)@, r, old(self)@.write(id, offset, value)),
    {
        let ghost m0 = self@;
        if id as usize >= self.segments.len() || !self.mapped[id as usize] {
            return Err(Fault::UnmappedSegment);
        }
        if offset as usize >= self.segments[id as usize].len() {
            return Err(Fault::OffsetOutOfRange);
        }
        self.segments[id as usize][offset as usize] = value;
        proof {
            assert(self@.segs =~= m0.write(id, offset, value).unwrap().segs);
        }
        Ok(())
    }

    /// Replaces segment 0 by a copy of segment `id`. When `id` is 0 nothing
    /// is copied: segment 0 already holds the program.
    pub fn replace_program(&mut self, id: u32) -> (r: Result<(), Fault>)
        requires
            old(self).wf(),
        ensures
            final(self).wf(),
            table_outcome(old(self)@, final(self)@, r, old(self)@.replace_program(id)),
    {
        let ghost m0 = self@;
        if id == 0 {
            return Ok(());
        }
        if id as usize >= self.segments.len() || !self.mapped[id as usize] {
            return Err(Fault::UnmappedSegment);
        }
        let copy = self.segments[id as usize].clone();
        assert(copy@ =~= m0.seg(id));
        self.segments.set(0, copy);
        proof {
            assert(self@.segs =~= m0.replace_program(id).unwrap().segs);
        }
        Ok(())
    }

    /// The number of words in segment 0.
    pub fn program_len(&self) -> (r: usize)
        requires
            self.wf(),
        ensures
            r == self@.seg(0).len(),
    {
        self.segments[0].len()
    }

    /// The word at `offset` of segment 0.
    pub fn program_word(&self, offset: usize) -> (r: u32)
        requires
            self.wf(),
            offset < self@.seg(0).len(),
        ensures
            r == self@.seg(0)[offset as int],
    {
        self.segments[0][offset]
    }
}

} // verus!
