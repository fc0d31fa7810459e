//! Virtual memory manager: physical frame allocation over the firmware
//! memory map, and a four-level page-table model with mapping and
//! translation.
//!
//! The loader hands over a list of physical memory regions; only regions
//! marked usable may be turned into page frames. The allocator derives from
//! that list an ascending sequence of 4 KiB frame addresses and hands them
//! out one by one, each frame exactly once, with no reclamation.

use vstd::prelude::*;

verus! {

/// Size of one physical page frame in bytes.
pub const PAGE_FRAME_SIZE: u64 = 4096;

/// What a firmware-reported physical memory range may be used for.
#[derive(Debug, Clone, Copy, PartialEq, Eq, Structural)]
pub enum MemoryRegionKind {
    /// Free for the kernel to allocate.
    Usable,
    /// Owned by the bootloader; must not be touched.
    Bootloader,
    /// Reserved or of a kind this kernel does not know.
    Unknown,
}

/// A firmware-reported physical memory range `[start, end)`.
#[derive(Debug, Clone, Copy, PartialEq, Eq, Structural)]
pub struct MemoryRegion {
    /// First byte of the region.
    pub start: u64,
    /// One past the last byte of the region.
    pub end: u64,
    /// What the region may be used for.
    pub kind: MemoryRegionKind,
}

/// The largest frame-aligned address not above `addr`.
pub open spec fn spec_frame_align_down(addr: int) -> int {
    addr - addr % (PAGE_FRAME_SIZE as int)
}

/// How many frame-sized steps fit in the region: one frame for each
/// address `start + i * 4096` below `end`.
pub open spec fn region_frame_count(r: MemoryRegion) -> int {
    if r.start < r.end {
        (r.end - r.start - 1) / (PAGE_FRAME_SIZE as int) + 1
    } else {
        0
    }
}

/// The frames carved out of one region: the region is stepped through in
/// frame-sized strides and each step address is aligned down to its frame.
pub open spec fn region_frames(r: MemoryRegion) -> Seq<u64> {
    Seq::new(
        region_frame_count(r) as nat,
        |i: int| spec_frame_align_down(r.start + i * PAGE_FRAME_SIZE) as u64,
    )
}

/// All frames of the usable regions, region by region in list order.
pub open spec fn usable_frames_seq(regions: Seq<MemoryRegion>) -> Seq<u64>
    decreases regions.len(),
{
    if regions.len() == 0 {
        Seq::empty()
    } else {
        (if regions[0].kind == MemoryRegionKind::Usable {
            region_frames(regions[0])
        } else {
            Seq::empty()
        }) + usable_frames_seq(regions.skip(1))
    }
}

/// A frame allocator that returns usable frames from the loader's memory
/// map: a single forward cursor over the derived frame sequence.
pub struct BootInfoFrameAllocator {
    memory_regions: Vec<MemoryRegion>,
    next: usize,
}

impl BootInfoFrameAllocator {
    /// The memory map the allocator was created from.
    pub closed spec fn regions(self) -> Seq<MemoryRegion> {
        self.memory_regions@
    }

    /// How many frames have been handed out or skipped so far.
    pub closed spec fn next_index(self) -> int {
        self.next as int
    }

    /// The ascending sequence of usable frames this allocator hands out.
    pub open spec fn frames(self) -> Seq<u64> {
        usable_frames_seq(self.regions())
    }

    /// Create a frame allocator from the loader's memory map.
    ///
    /// All frames of regions marked usable must really be unused; the
    /// allocator will hand them out for the kernel to overwrite.
    pub fn init(memory_regions: Vec<MemoryRegion>) -> (a: BootInfoFrameAllocator)
        ensures
            a.regions() == memory_regions@,
            a.next_index() == 0,
    {
        BootInfoFrameAllocator { memory_regions, next: 0 }
    }

    /// Returns the next usable frame, or `None` once the memory map is
    /// exhausted. The cursor only ever moves forward, so no frame is
    /// returned twice.
    pub fn allocate_frame(&mut self) -> (r: Option<u64>)
        requires
            old(self).next_index() < usize::MAX,
        ensures
            final(self).regions() == old(self).regions(),
            final(self).next_index() == old(self).next_index() + 1,
            r == (if old(self).next_index() < old(self).frames().len() {
                Some(old(self).frames()[old(self).next_index()])
            } else {
                None::<u64>
            }),
    {
        let r = self.find_frame(self.next);
        self.next = self.next + 1;
        r
    }

    /// Looks up the `index`-th usable frame of the memory map.
    fn find_frame(&self, index: usize) -> (r: Option<u64>)
        ensures
            r == (if index < self.frames().len() {
                Some(self.frames()[index as int])
            } else {
                None::<u64>
            }),
    {
        let ghost all = self.frames();
        proof {
            assert(self.regions().skip(0) =~= self.regions());
        }
        let mut ri: usize = 0;
        let mut rem: u64 = index as u64;
        let n = self.memory_regions.len();
        while ri < n
            invariant
                ri <= n,
                n == self.regions().len(),
                all == self.frames(),
                rem <= index,
                all.len() - index == usable_frames_seq(self.regions().skip(ri as int)).len()
                    - rem,
                index < all.len() ==> rem
                    < usable_frames_seq(self.regions().skip(ri as int)).len()
                    && usable_frames_seq(self.regions().skip(ri as int))[rem as int]
                    == all[index as int],
            decreases n - ri,
        {
            let region = self.memory_regions[ri];
            proof {
                lemma_usable_frames_unfold(self.regions(), ri as int);
            }
            if matches!(region.kind, MemoryRegionKind::Usable) && region.start < region.end {
                let count: u64 = (region.end - region.start - 1) / PAGE_FRAME_SIZE + 1;
                assert(count == region_frame_count(region));
                if rem < count {
                    proof {
                        vstd::arithmetic::div_mod::lemma_fundamental_div_mod(
                            (region.end - region.start - 1) as int,
                            PAGE_FRAME_SIZE as int,
                        );
                        assert(rem * PAGE_FRAME_SIZE <= (count - 1) * PAGE_FRAME_SIZE)
                            by (nonlinear_arith)
                            requires
                                rem < count,
                                PAGE_FRAME_SIZE > 0,
                        ;
                    }
                    let addr: u64 = region.start + rem * PAGE_FRAME_SIZE;
                    let frame: u64 = addr - addr % PAGE_FRAME_SIZE;
                    assert(frame == region_frames(region)[rem as int]);
                    return Some(frame);
                }
                rem = rem - count;
            }
            ri = ri + 1;
            proof {
                assert(self.regions().skip(ri - 1).skip(1) =~= self.regions().skip(ri as int));
            }
        }
        proof {
            assert(self.regions().skip(n as int) =~= Seq::<MemoryRegion>::empty());
        }
        None
    }
}

/// Permission flags of one mapped page.
#[derive(Debug, Clone, Copy, PartialEq, Eq, Structural)]
pub struct PageTableFlags {
    /// The mapping is present and may be used by the processor.
    pub present: bool,
    /// Writes through this mapping are allowed.
    pub writable: bool,
    /// Ring-3 code may use this mapping.
    pub user_accessible: bool,
    /// Instruction fetches through this mapping are forbidden.
    pub no_execute: bool,
}

/// How many page numbers one entry at a given level spans: 512 to the
/// `level`-th power.
pub open spec fn pow512(level: nat) -> int
    decreases level,
{
    if level == 0 {
        1
    } else {
        512 * pow512((level - 1) as nat)
    }
}

/// One slot of a page table.
pub enum PageTableEntry {
    /// Nothing mapped below this slot.
    Empty,
    /// Points to the next-level table, which itself occupies `frame`.
    Table { frame: u64, table: Box<PageTable> },
    /// Maps one 4 KiB frame; only level-1 tables hold mappings.
    Mapping { frame: u64, flags: PageTableFlags },
}

/// One table of the four-level translation hierarchy.
pub struct PageTable {
    entries: Vec<PageTableEntry>,
}

impl PageTable {
    /// A table rooted at `level` is well formed: 512 slots, inner slots
    /// point to well-formed tables one level down, and mappings occur only
    /// in level-1 tables with frame-aligned targets.
    pub closed spec fn wf(self, level: nat) -> bool
        decreases level,
    {
        &&& 1 <= level <= 4
        &&& self.entries@.len() == 512
        &&& (forall|i: int|
            0 <= i < 512 ==> match #[trigger] self.entries@[i] {
                PageTableEntry::Empty => true,
                PageTableEntry::Table { frame: _, table } => level > 1 && (*table).wf(
                    (level - 1) as nat,
                ),
                PageTableEntry::Mapping { frame, flags: _ } => level == 1 && frame
                    % PAGE_FRAME_SIZE == 0,
            })
    }

    /// Walks the hierarchy for page number `pn` (relative to this table's
    /// span) and yields the mapped frame and its flags, or `None` if any
    /// level on the way is absent.
    pub closed spec fn spec_lookup(self, level: nat, pn: int) -> Option<(u64, PageTableFlags)>
        decreases level,
    {
        if level == 0 {
            None
        } else {
            let stride = pow512((level - 1) as nat);
            let idx = pn / stride;
            let rem = pn % stride;
            if 0 <= idx < self.entries@.len() {
                match self.entries@[idx] {
                    PageTableEntry::Empty => None,
                    PageTableEntry::Table { frame: _, table } => (*table).spec_lookup(
                        (level - 1) as nat,
                        rem,
                    ),
                    PageTableEntry::Mapping { frame, flags } => if level == 1 {
                        Some((frame, flags))
                    } else {
                        None
                    },
                }
            } else {
                None
            }
        }
    }

    /// How many tables are missing along the path of `pn`: mapping it will
    /// consume exactly this many extra frames for new tables.
    pub closed spec fn spec_missing_tables(self, level: nat, pn: int) -> int
        decreases level,
    {
        if level <= 1 {
            0
        } else {
            let stride = pow512((level - 1) as nat);
            let idx = pn / stride;
            let rem = pn % stride;
            if 0 <= idx < self.entries@.len() {
                match self.entries@[idx] {
                    PageTableEntry::Empty => level - 1,
                    PageTableEntry::Table { frame: _, table } => (*table).spec_missing_tables(
                        (level - 1) as nat,
                        rem,
                    ),
                    PageTableEntry::Mapping { frame: _, flags: _ } => 0,
                }
            } else {
                0
            }
        }
    }

    /// A table with all 512 slots empty.
    fn new_empty() -> (t: PageTable)
        ensures
            t.entries@.len() == 512,
            forall|i: int| 0 <= i < 512 ==> t.entries@[i] == PageTableEntry::Empty,
    {
        let mut entries: Vec<PageTableEntry> = Vec::new();
        let mut i: usize = 0;
        while i < 512
            invariant
                i <= 512,
                entries@.len() == i,
                forall|j: int| 0 <= j < i ==> entries@[j] == PageTableEntry::Empty,
            decreases 512 - i,
        {
            entries.push(PageTableEntry::Empty);
            i = i + 1;
        }
        PageTable { entries }
    }

    /// 512 to the power of `level`, for the levels that occur below a walk.
    fn stride_for(level: u64) -> (r: u64)
        requires
            level <= 3,
        ensures
            r == pow512(level as nat),
    {
        assert(pow512(0) == 1);
        assert(pow512(1) == 512);
        assert(pow512(2) == 512 * 512);
        assert(pow512(3) == 512 * 512 * 512);
        if level == 0 {
            1
        } else if level == 1 {
            512
        } else if level == 2 {
            262144
        } else {
            134217728
        }
    }

    /// Walks the hierarchy for page number `pn`.
    fn lookup(&self, level: u64, pn: u64) -> (r: Option<(u64, PageTableFlags)>)
        requires
            self.wf(level as nat),
            1 <= level <= 4,
            pn < pow512(level as nat),
        ensures
            r == self.spec_lookup(level as nat, pn as int),
        decreases level,
    {
        proof {
            lemma_pn_decompose(pn as int, level as nat);
        }
        let stride: u64 = Self::stride_for(level - 1);
        let idx: usize = (pn / stride) as usize;
        let rem: u64 = pn % stride;
        let entry = &self.entries[idx];
        match entry {
            PageTableEntry::Empty => None,
            PageTableEntry::Table { frame: _, table } => {
                assert(level > 1);
                (&**table).lookup(level - 1, rem)
            },
            PageTableEntry::Mapping { frame, flags } => {
                assert(level == 1);
                Some((*frame, *flags))
            },
        }
    }

    /// Maps page number `pn` to `frame`, creating missing tables from the
    /// allocator. Fails with `PageAlreadyMapped` if the page already has a
    /// mapping, and with `FrameAllocationFailed` if a table frame cannot be
    /// had; either way no translation changes, though tables created before
    /// the failure stay. Translations of all other pages never change.
    fn map_page(
        &mut self,
        level: u64,
        pn: u64,
        frame: u64,
        flags: PageTableFlags,
        allocator: &mut BootInfoFrameAllocator,
    ) -> (r: Result<(), MapError>)
        requires
            old(self).wf(level as nat),
            1 <= level <= 4,
            pn < pow512(level as nat),
            frame % PAGE_FRAME_SIZE == 0,
            old(allocator).next_index() + level <= usize::MAX,
        ensures
            final(self).wf(level as nat),
            final(allocator).regions() == old(allocator).regions(),
            old(allocator).next_index() <= final(allocator).next_index(),
            final(allocator).next_index() <= old(allocator).next_index() + level,
            forall|q: int|
                0 <= q < pow512(level as nat) && q != pn
                    ==> final(self).spec_lookup(level as nat, q)
                        == old(self).spec_lookup(level as nat, q),
            match r {
                Ok(()) => {
                    &&& old(self).spec_lookup(level as nat, pn as int) is None
                    &&& final(self).spec_lookup(level as nat, pn as int) == Some((frame, flags))
                    &&& final(allocator).next_index() == old(allocator).next_index()
                        + old(self).spec_missing_tables(level as nat, pn as int)
                },
                Err(MapError::PageAlreadyMapped) => {
                    &&& old(self).spec_lookup(level as nat, pn as int) is Some
                    &&& final(self).spec_lookup(level as nat, pn as int)
                        == old(self).spec_lookup(level as nat, pn as int)
                    &&& final(allocator).next_index() == old(allocator).next_index()
                },
                Err(MapError::FrameAllocationFailed) => {
                    &&& old(self).spec_lookup(level as nat, pn as int) is None
                    &&& final(self).spec_lookup(level as nat, pn as int) is None
                    &&& old(allocator).next_index()
                        + old(self).spec_missing_tables(level as nat, pn as int)
                        > old(allocator).frames().len()
                    &&& final(allocator).next_index() > old(allocator).frames().len()
                },
            },
            (old(self).spec_lookup(level as nat, pn as int) is None
                && old(allocator).next_index()
                    + old(self).spec_missing_tables(level as nat, pn as int)
                    <= old(allocator).frames().len()) ==> r is Ok,
        decreases level,
    {
        proof {
            lemma_pn_decompose(pn as int, level as nat);
        }
        let ghost lvl = level as nat;
        let ghost down = (lvl - 1) as nat;
        let stride: u64 = Self::stride_for(level - 1);
        let idx: usize = (pn / stride) as usize;
        let rem: u64 = pn % stride;
        let entry = self.entries.remove(idx);
        let ghost old_entry = entry;
        // The subtree below the touched slot, before and after the call.
        let ghost mut sub_before: PageTable = vstd::pervasive::arbitrary();
        let ghost mut sub_after: PageTable = vstd::pervasive::arbitrary();
        let new_entry: PageTableEntry;
        let result: Result<(), MapError>;
        match entry {
            PageTableEntry::Empty => {
                if level == 1 {
                    new_entry = PageTableEntry::Mapping { frame, flags };
                    result = Ok(());
                } else {
                    match allocator.allocate_frame() {
                        None => {
                            new_entry = PageTableEntry::Empty;
                            result = Err(MapError::FrameAllocationFailed);
                        },
                        Some(table_frame) => {
                            let mut fresh = PageTable::new_empty();
                            proof {
                                lemma_empty_table(fresh, down);
                                sub_before = fresh;
                            }
                            let deep = fresh.map_page(level - 1, rem, frame, flags, allocator);
                            proof {
                                sub_after = fresh;
                            }
                            new_entry = PageTableEntry::Table {
                                frame: table_frame,
                                table: Box::new(fresh),
                            };
                            result = deep;
                        },
                    }
                }
            },
            PageTableEntry::Mapping { frame: f0, flags: fl0 } => {
                assert(level == 1);
                new_entry = PageTableEntry::Mapping { frame: f0, flags: fl0 };
                result = Err(MapError::PageAlreadyMapped);
            },
            PageTableEntry::Table { frame: f0, table: mut boxed } => {
                assert(level > 1);
                proof {
                    sub_before = *boxed;
                }
                let deep = (&mut *boxed).map_page(level - 1, rem, frame, flags, allocator);
                proof {
                    sub_after = *boxed;
                }
                new_entry = PageTableEntry::Table { frame: f0, table: boxed };
                result = deep;
            },
        }
        self.entries.insert(idx, new_entry);
        proof {
            let before = *old(self);
            let after = *self;
            let idxg = idx as int;
            let png = pn as int;
            let remg = rem as int;
            let strideg = pow512(down);
            assert(after.entries@ =~= before.entries@.update(idxg, new_entry));
            assert(before.entries@[idxg] == old_entry);
            lemma_map_page_frame_condition(before, after, lvl, png, idxg);
            // Translations of pages that route through the touched slot but
            // resolve to a different remainder are also unchanged.
            assert forall|q: int|
                0 <= q < pow512(lvl) && q != png && q / strideg == idxg implies after.spec_lookup(
                lvl,
                q,
            ) == before.spec_lookup(lvl, q) by {
                lemma_pn_decompose(q, lvl);
                let qrem = q % strideg;
                assert(q == idxg * strideg + qrem);
                assert(png == idxg * strideg + remg);
                assert(qrem != remg);
                match old_entry {
                    PageTableEntry::Empty => {
                        if new_entry is Table {
                            assert(sub_after.spec_lookup(down, qrem) == sub_before.spec_lookup(
                                down,
                                qrem,
                            ));
                            assert(sub_before.spec_lookup(down, qrem) is None);
                        }
                    },
                    PageTableEntry::Mapping { frame: _, flags: _ } => {},
                    PageTableEntry::Table { frame: _, table: _ } => {
                        assert(sub_after.spec_lookup(down, qrem) == sub_before.spec_lookup(
                            down,
                            qrem,
                        ));
                    },
                }
            }
            // The touched page itself: unfold one level and let the
            // recursive call's contract finish each case.
            assert(after.entries@[idxg] == new_entry);
            match old_entry {
                PageTableEntry::Empty => {
                    assert(before.spec_lookup(lvl, png) is None);
                    if lvl > 1 {
                        assert(before.spec_missing_tables(lvl, png) == lvl - 1);
                        if new_entry is Table {
                            assert(after.spec_lookup(lvl, png) == sub_after.spec_lookup(
                                down,
                                remg,
                            ));
                            assert(sub_before.spec_missing_tables(down, remg) == down - 1);
                        } else {
                            assert(after.spec_lookup(lvl, png) is None);
                        }
                    } else {
                        assert(before.spec_missing_tables(lvl, png) == 0);
                        assert(after.spec_lookup(lvl, png) == Some((frame, flags)));
                    }
                },
                PageTableEntry::Mapping { frame: _, flags: _ } => {
                    assert(before.spec_lookup(lvl, png) is Some);
                    assert(after.spec_lookup(lvl, png) == before.spec_lookup(lvl, png));
                },
                PageTableEntry::Table { frame: _, table: t } => {
                    assert(*t == sub_before);
                    assert(before.spec_lookup(lvl, png) == sub_before.spec_lookup(down, remg));
                    assert(after.spec_lookup(lvl, png) == sub_after.spec_lookup(down, remg));
                    assert(before.spec_missing_tables(lvl, png)
                        == sub_before.spec_missing_tables(down, remg));
                },
            }
            // The touched page itself and the well-formedness of the table.
            assert forall|i: int| 0 <= i < 512 implies match #[trigger] after.entries@[i] {
                PageTableEntry::Empty => true,
                PageTableEntry::Table { frame: _, table } => lvl > 1 && (*table).wf(down),
                PageTableEntry::Mapping { frame: f, flags: _ } => lvl == 1 && f % PAGE_FRAME_SIZE
                    == 0,
            } by {
                if i != idxg {
                    assert(after.entries@[i] == before.entries@[i]);
                }
            }
        }
        result
    }
}

/// Errors of a mapping request.
#[derive(Debug, Clone, Copy, PartialEq, Eq, Structural)]
pub enum MapError {
    /// The frame allocator ran out of usable frames.
    FrameAllocationFailed,
    /// The target page already has a mapping; re-mapping is refused so that
    /// no existing translation is silently invalidated.
    PageAlreadyMapped,
}

/// If two tables agree on every slot but one, they translate every page
/// number that does not route through that slot identically.
proof fn lemma_map_page_frame_condition(
    before: PageTable,
    after: PageTable,
    level: nat,
    pn: int,
    idx: int,
)
    requires
        1 <= level <= 4,
        0 <= pn < pow512(level),
        before.entries@.len() == 512,
        after.entries@.len() == 512,
        idx == pn / pow512((level - 1) as nat),
        forall|i: int| 0 <= i < 512 && i != idx ==> after.entries@[i] == before.entries@[i],
    ensures
        forall|q: int|
            0 <= q < pow512(level) && q / pow512((level - 1) as nat) != idx ==> after.spec_lookup(
                level,
                q,
            ) == before.spec_lookup(level, q),
{
    assert forall|q: int|
        0 <= q < pow512(level) && q / pow512((level - 1) as nat) != idx implies after.spec_lookup(
        level,
        q,
    ) == before.spec_lookup(level, q) by {
        lemma_pn_decompose(q, level);
    }
}

/// pow512 is positive, and each level's span is 512 times the next one's.
proof fn lemma_pow512_pos(level: nat)
    ensures
        pow512(level) >= 1,
    decreases level,
{
    if level > 0 {
        lemma_pow512_pos((level - 1) as nat);
    }
}

/// Splits a page number into its slot index and the remainder that the
/// next level resolves; the split is exact, so distinct page numbers give
/// distinct (index, remainder) pairs.
proof fn lemma_pn_decompose(pn: int, level: nat)
    requires
        1 <= level,
        0 <= pn < pow512(level),
    ensures
        pow512((level - 1) as nat) >= 1,
        0 <= pn / pow512((level - 1) as nat) < 512,
        0 <= pn % pow512((level - 1) as nat) < pow512((level - 1) as nat),
        pn == (pn / pow512((level - 1) as nat)) * pow512((level - 1) as nat) + pn % pow512(
            (level - 1) as nat,
        ),
{
    let stride = pow512((level - 1) as nat);
    lemma_pow512_pos((level - 1) as nat);
    assert(pow512(level) == 512 * stride);
    vstd::arithmetic::div_mod::lemma_fundamental_div_mod(pn, stride);
    assert(pn / stride < 512) by (nonlinear_arith)
        requires
            stride >= 1,
            0 <= pn < 512 * stride,
    ;
    assert(pn / stride >= 0) by (nonlinear_arith)
        requires
            stride >= 1,
            pn >= 0,
    ;
    assert(pn == (pn / stride) * stride + pn % stride) by (nonlinear_arith)
        requires
            stride >= 1,
            pn == stride * (pn / stride) + pn % stride,
    ;
}

/// An all-empty table is well formed at every level, translates nothing,
/// and misses a full chain of tables below every slot.
proof fn lemma_empty_table(t: PageTable, level: nat)
    requires
        1 <= level <= 4,
        t.entries@.len() == 512,
        forall|i: int| 0 <= i < 512 ==> t.entries@[i] == PageTableEntry::Empty,
    ensures
        t.wf(level),
        forall|q: int| 0 <= q < pow512(level) ==> t.spec_lookup(level, q) is None,
        forall|q: int| 0 <= q < pow512(level) ==> t.spec_missing_tables(level, q) == level - 1,
{
    assert forall|q: int| 0 <= q < pow512(level) implies t.spec_lookup(level, q) is None
        && t.spec_missing_tables(level, q) == level - 1 by {
        lemma_pn_decompose(q, level);
    }
}

/// Every mapped frame a well-formed hierarchy yields is frame aligned.
proof fn lemma_lookup_frame_aligned(pt: PageTable, level: nat, pn: int)
    requires
        pt.wf(level),
        0 <= pn < pow512(level),
        pt.spec_lookup(level, pn) is Some,
    ensures
        pt.spec_lookup(level, pn)->Some_0.0 % PAGE_FRAME_SIZE == 0,
    decreases level,
{
    lemma_pn_decompose(pn, level);
    let idx = pn / pow512((level - 1) as nat);
    let rem = pn % pow512((level - 1) as nat);
    match pt.entries@[idx] {
        PageTableEntry::Empty => {},
        PageTableEntry::Table { frame: _, table } => {
            lemma_lookup_frame_aligned(*table, (level - 1) as nat, rem);
        },
        PageTableEntry::Mapping { frame: _, flags: _ } => {},
    }
}

/// No path misses more than `level - 1` tables.
proof fn lemma_missing_tables_bound(pt: PageTable, level: nat, pn: int)
    requires
        pt.wf(level),
        0 <= pn < pow512(level),
    ensures
        0 <= pt.spec_missing_tables(level, pn) <= level - 1,
    decreases level,
{
    lemma_pn_decompose(pn, level);
    let idx = pn / pow512((level - 1) as nat);
    let rem = pn % pow512((level - 1) as nat);
    if level > 1 {
        match pt.entries@[idx] {
            PageTableEntry::Empty => {},
            PageTableEntry::Table { frame: _, table } => {
                lemma_missing_tables_bound(*table, (level - 1) as nat, rem);
            },
            PageTableEntry::Mapping { frame: _, flags: _ } => {},
        }
    }
}

/// Every frame carved out of any region is frame aligned — each is an
/// address aligned down to its frame boundary.
proof fn lemma_region_frames_values(r: MemoryRegion)
    ensures
        forall|i: int|
            0 <= i < region_frame_count(r) ==> (#[trigger] region_frames(r)[i])
                % PAGE_FRAME_SIZE == 0,
{
    let p = PAGE_FRAME_SIZE as int;
    if r.start < r.end {
        let count = region_frame_count(r);
        vstd::arithmetic::div_mod::lemma_fundamental_div_mod(r.end - r.start - 1, p);
        assert forall|i: int| 0 <= i < count implies (#[trigger] region_frames(r)[i])
            % PAGE_FRAME_SIZE == 0 by {
            let a = r.start + i * p;
            assert(i * p <= (count - 1) * p) by (nonlinear_arith)
                requires
                    i <= count - 1,
                    p > 0,
            ;
            assert((count - 1) * p <= r.end - r.start - 1) by (nonlinear_arith)
                requires
                    count - 1 == (r.end - r.start - 1) / p,
                    r.end - r.start - 1 == p * ((r.end - r.start - 1) / p) + (r.end - r.start
                        - 1) % p,
                    (r.end - r.start - 1) % p >= 0,
            ;
            assert(0 <= a <= r.end - 1);
            vstd::arithmetic::div_mod::lemma_fundamental_div_mod(a, p);
            let aligned = a - a % p;
            assert(aligned == p * (a / p));
            vstd::arithmetic::div_mod::lemma_mod_multiples_basic(a / p, p);
            assert((p * (a / p)) % p == ((a / p) * p) % p) by (nonlinear_arith);
            assert(0 <= aligned <= a);
            assert(region_frames(r)[i] == aligned as u64);
            assert((aligned as u64) % PAGE_FRAME_SIZE == 0);
        }
    }
}

/// Every frame the allocator can hand out is frame aligned.
pub proof fn lemma_usable_frames_aligned(regions: Seq<MemoryRegion>)
    ensures
        forall|k: int|
            0 <= k < usable_frames_seq(regions).len() ==> (#[trigger] usable_frames_seq(
                regions,
            )[k]) % PAGE_FRAME_SIZE == 0,
    decreases regions.len(),
{
    if regions.len() > 0 {
        lemma_region_frames_values(regions[0]);
        lemma_usable_frames_aligned(regions.skip(1));
        let hf = if regions[0].kind == MemoryRegionKind::Usable {
            region_frames(regions[0])
        } else {
            Seq::<u64>::empty()
        };
        let tf = usable_frames_seq(regions.skip(1));
        assert(usable_frames_seq(regions) == hf + tf);
        assert forall|k: int| 0 <= k < usable_frames_seq(regions).len() implies (
        #[trigger] usable_frames_seq(regions)[k]) % PAGE_FRAME_SIZE == 0 by {
            if k < hf.len() {
                assert(usable_frames_seq(regions)[k] == region_frames(regions[0])[k]);
            } else {
                assert(usable_frames_seq(regions)[k] == tf[k - hf.len()]);
            }
        }
    }
}

/// A memory map is well formed: every usable region is frame aligned, and
/// usable regions are listed in ascending order without overlap.
pub open spec fn wf_memory_map(regions: Seq<MemoryRegion>) -> bool {
    &&& (forall|i: int|
        0 <= i < regions.len() && (#[trigger] regions[i]).kind == MemoryRegionKind::Usable
            ==> regions[i].start % PAGE_FRAME_SIZE == 0 && regions[i].end % PAGE_FRAME_SIZE
            == 0)
    &&& (forall|i: int, j: int|
        0 <= i < j < regions.len() && (#[trigger] regions[i]).kind == MemoryRegionKind::Usable
            && (#[trigger] regions[j]).kind == MemoryRegionKind::Usable ==> regions[i].end
            <= regions[j].start)
}

/// The frame `[f, f + 4096)` lies inside a region marked usable.
pub open spec fn frame_in_usable_region(regions: Seq<MemoryRegion>, f: u64) -> bool {
    exists|i: int|
        0 <= i < regions.len() && (#[trigger] regions[i]).kind == MemoryRegionKind::Usable
            && regions[i].start <= f && f + PAGE_FRAME_SIZE <= regions[i].end
}

/// In an aligned region the derived frames are exactly the stride
/// addresses, and each whole frame stays inside the region.
proof fn lemma_region_frames_exact(r: MemoryRegion)
    requires
        r.start % PAGE_FRAME_SIZE == 0,
        r.end % PAGE_FRAME_SIZE == 0,
    ensures
        forall|i: int|
            0 <= i < region_frame_count(r) ==> region_frames(r)[i] == r.start + i
                * PAGE_FRAME_SIZE && r.start + i * PAGE_FRAME_SIZE + PAGE_FRAME_SIZE <= r.end,
{
    if r.start < r.end {
        let p = PAGE_FRAME_SIZE as int;
        let diff = r.end - r.start;
        vstd::arithmetic::div_mod::lemma_sub_mod_noop(r.end as int, r.start as int, p);
        assert(diff % p == 0);
        let m = diff / p;
        vstd::arithmetic::div_mod::lemma_fundamental_div_mod(diff, p);
        assert(diff == p * m);
        assert(m >= 1) by (nonlinear_arith)
            requires
                diff >= 1,
                diff == p * m,
                p == 4096,
        ;
        assert((m - 1) * p + (p - 1) == diff - 1) by (nonlinear_arith)
            requires
                diff == p * m,
        ;
        vstd::arithmetic::div_mod::lemma_fundamental_div_mod_converse_div(
            diff - 1,
            p,
            m - 1,
            p - 1,
        );
        assert(region_frame_count(r) == m);
        assert forall|i: int| 0 <= i < m implies region_frames(r)[i] == r.start + i * p
            && r.start + i * p + p <= r.end by {
            vstd::arithmetic::div_mod::lemma_mod_multiples_vanish(i, r.start as int, p);
            assert(p * i == i * p) by (nonlinear_arith);
            assert((r.start + i * p) % p == 0);
            assert(i * p + p <= m * p) by (nonlinear_arith)
                requires
                    i < m,
                    p > 0,
            ;
            assert(m * p == diff) by (nonlinear_arith)
                requires
                    diff == p * m,
            ;
            assert(spec_frame_align_down(r.start + i * p) == r.start + i * p);
        }
    }
}

/// General allocation law: under a well-formed memory map the usable-frame
/// sequence is strictly ascending with whole-frame gaps — so the allocator
/// hands out each frame at most once, no two returned frames overlap, and
/// every one lies inside a region marked usable.
pub proof fn lemma_usable_frames_ascending(regions: Seq<MemoryRegion>)
    requires
        wf_memory_map(regions),
    ensures
        forall|i: int, j: int|
            0 <= i < j < usable_frames_seq(regions).len() ==> usable_frames_seq(regions)[i]
                + PAGE_FRAME_SIZE <= usable_frames_seq(regions)[j],
        forall|i: int|
            0 <= i < usable_frames_seq(regions).len() ==> frame_in_usable_region(
                regions,
                usable_frames_seq(regions)[i],
            ),
    decreases regions.len(),
{
    if regions.len() > 0 {
        let head = regions[0];
        let tail = regions.skip(1);
        let hf = if head.kind == MemoryRegionKind::Usable {
            region_frames(head)
        } else {
            Seq::<u64>::empty()
        };
        let tf = usable_frames_seq(tail);
        let all = usable_frames_seq(regions);
        assert(all == hf + tf);
        assert(wf_memory_map(tail)) by {
            assert(forall|i: int| 0 <= i < tail.len() ==> tail[i] == regions[i + 1]);
        }
        lemma_usable_frames_ascending(tail);
        if head.kind == MemoryRegionKind::Usable {
            lemma_region_frames_exact(head);
        }
        // Every head frame lies in region 0; every tail frame lies in the
        // region of the full map one index later.
        assert forall|k: int| 0 <= k < all.len() implies frame_in_usable_region(
            regions,
            all[k],
        ) by {
            if k < hf.len() {
                assert(head.kind == MemoryRegionKind::Usable);
                assert(regions[0].start <= all[k] && all[k] + PAGE_FRAME_SIZE <= regions[0].end);
            } else {
                let f = all[k];
                assert(f == tf[k - hf.len()]);
                assert(frame_in_usable_region(tail, f));
                let w = choose|w: int|
                    0 <= w < tail.len() && (#[trigger] tail[w]).kind == MemoryRegionKind::Usable
                        && tail[w].start <= f && f + PAGE_FRAME_SIZE <= tail[w].end;
                assert(regions[w + 1] == tail[w]);
            }
        }
        // Strict ascent with a whole-frame gap.
        assert forall|i: int, j: int| 0 <= i < j < all.len() implies all[i] + PAGE_FRAME_SIZE
            <= all[j] by {
            if j < hf.len() {
                // both inside the head region: consecutive strides
                assert(all[i] == head.start + i * PAGE_FRAME_SIZE);
                assert(all[j] == head.start + j * PAGE_FRAME_SIZE);
                assert(i * PAGE_FRAME_SIZE + PAGE_FRAME_SIZE <= j * PAGE_FRAME_SIZE)
                    by (nonlinear_arith)
                    requires
                        i < j,
                ;
            } else if i >= hf.len() {
                assert(all[i] == tf[i - hf.len()]);
                assert(all[j] == tf[j - hf.len()]);
            } else {
                // i in the head region, j in some later usable region
                let f = tf[j - hf.len()];
                assert(frame_in_usable_region(tail, f));
                let w = choose|w: int|
                    0 <= w < tail.len() && (#[trigger] tail[w]).kind == MemoryRegionKind::Usable
                        && tail[w].start <= f && f + PAGE_FRAME_SIZE <= tail[w].end;
                assert(regions[w + 1] == tail[w]);
                assert(head.end <= regions[w + 1].start);
                assert(all[i] + PAGE_FRAME_SIZE <= head.end);
            }
        }
    }
}

/// Pages outside the hierarchy's span never translate.
proof fn lemma_lookup_out_of_span(pt: PageTable, level: nat, pn: int)
    requires
        pt.wf(level),
        !(0 <= pn < pow512(level)),
    ensures
        pt.spec_lookup(level, pn) is None,
{
    let stride = pow512((level - 1) as nat);
    lemma_pow512_pos((level - 1) as nat);
    assert(pow512(level) == 512 * stride);
    if pn < 0 {
        assert(pn / stride < 0) by (nonlinear_arith)
            requires
                stride >= 1,
                pn < 0,
        ;
    } else {
        assert(pn / stride >= 512) by (nonlinear_arith)
            requires
                stride >= 1,
                pn >= 512 * stride,
        ;
    }
}

/// One past the highest virtual address the four-level hierarchy spans.
pub const VIRTUAL_SPAN: u64 = 0x1_0000_0000_0000;

/// Number of pages covering the byte range `[start, start + size)`.
pub open spec fn page_span(start: int, size: int) -> int {
    (start + size - 1) / (PAGE_FRAME_SIZE as int) - start / (PAGE_FRAME_SIZE as int) + 1
}

/// Page number of the page holding `addr`.
pub open spec fn page_of(addr: u64) -> int {
    addr as int / (PAGE_FRAME_SIZE as int)
}

/// Number of pages a mapping request for `[start, start + size)` covers.
pub open spec fn pages_of(start: u64, size: u64) -> int {
    page_span(start as int, size as int)
}

/// The translations of `new_m` extend those of `old_m` by exactly the `k`
/// pages from `first` on, each mapped to a frame the allocator handed out
/// during the extension; every other page translates as before.
pub open spec fn mapped_prefix(
    old_m: MemoryManager,
    new_m: MemoryManager,
    first: int,
    k: int,
    flags: PageTableFlags,
) -> bool {
    &&& (forall|i: int|
        0 <= i < k ==> exists|j: int|
            #![auto]
            old_m.next_frame_index() <= j < new_m.next_frame_index() && j
                < old_m.frames().len() && #[trigger] new_m.page_mapping(first + i) == Some(
                (old_m.frames()[j], flags),
            ))
    &&& (forall|q: int|
        !(first <= q < first + k) ==> new_m.page_mapping(q) == old_m.page_mapping(q))
}

/// A mapped prefix persists through a step that leaves every page's
/// translation alone and only moves the allocator cursor forward.
proof fn lemma_prefix_monotone(
    old_m: MemoryManager,
    a: MemoryManager,
    b: MemoryManager,
    first: int,
    k: int,
    flags: PageTableFlags,
)
    requires
        mapped_prefix(old_m, a, first, k, flags),
        a.wf(),
        b.wf(),
        old_m.wf(),
        a.next_frame_index() <= b.next_frame_index(),
        forall|q: int| 0 <= q < pow512(4) ==> b.page_mapping(q) == a.page_mapping(q),
    ensures
        mapped_prefix(old_m, b, first, k, flags),
{
    assert forall|q: int| !(first <= q < first + k) implies b.page_mapping(q)
        == old_m.page_mapping(q) by {
        if !(0 <= q < pow512(4)) {
            lemma_lookup_out_of_span(b.root, 4, q);
            lemma_lookup_out_of_span(old_m.root, 4, q);
        }
    }
    assert forall|i: int| #![trigger b.page_mapping(first + i)] 0 <= i < k implies exists|j: int|
        #![auto]
        old_m.next_frame_index() <= j < b.next_frame_index() && j < old_m.frames().len()
            && b.page_mapping(first + i) == Some((old_m.frames()[j], flags)) by {
        let j = choose|j: int|
            #![auto]
            old_m.next_frame_index() <= j < a.next_frame_index() && j < old_m.frames().len()
                && a.page_mapping(first + i) == Some((old_m.frames()[j], flags));
        if 0 <= first + i < pow512(4) {
            assert(b.page_mapping(first + i) == a.page_mapping(first + i));
        } else {
            lemma_lookup_out_of_span(a.root, 4, first + i);
        }
    }
}

/// A mapped prefix grows by one page when that page gets a fresh mapping
/// to an allocator frame and nothing else changes.
proof fn lemma_prefix_extend(
    old_m: MemoryManager,
    a: MemoryManager,
    b: MemoryManager,
    first: int,
    k: int,
    flags: PageTableFlags,
    j: int,
)
    requires
        mapped_prefix(old_m, a, first, k, flags),
        a.wf(),
        b.wf(),
        old_m.wf(),
        0 <= k,
        0 <= first,
        first + k + 1 <= pow512(4),
        a.next_frame_index() <= b.next_frame_index(),
        old_m.next_frame_index() <= j < b.next_frame_index(),
        j < old_m.frames().len(),
        b.page_mapping(first + k) == Some((old_m.frames()[j], flags)),
        forall|q: int|
            0 <= q < pow512(4) && q != first + k ==> b.page_mapping(q) == a.page_mapping(q),
    ensures
        mapped_prefix(old_m, b, first, k + 1, flags),
{
    assert forall|q: int| !(first <= q < first + k + 1) implies b.page_mapping(q)
        == old_m.page_mapping(q) by {
        if !(0 <= q < pow512(4)) {
            lemma_lookup_out_of_span(b.root, 4, q);
            lemma_lookup_out_of_span(old_m.root, 4, q);
        } else {
            assert(b.page_mapping(q) == a.page_mapping(q));
        }
    }
    assert forall|i: int| #![trigger b.page_mapping(first + i)] 0 <= i < k + 1 implies exists|
        j2: int,
    |
        #![auto]
        old_m.next_frame_index() <= j2 < b.next_frame_index() && j2 < old_m.frames().len()
            && b.page_mapping(first + i) == Some((old_m.frames()[j2], flags)) by {
        if i < k {
            let j2 = choose|j2: int|
                #![auto]
                old_m.next_frame_index() <= j2 < a.next_frame_index() && j2
                    < old_m.frames().len() && a.page_mapping(first + i) == Some(
                    (old_m.frames()[j2], flags),
                );
            assert(b.page_mapping(first + i) == a.page_mapping(first + i));
        } else {
            assert(b.page_mapping(first + i) == Some((old_m.frames()[j], flags)));
        }
    }
}

/// The invalidation log grew by exactly the `k` pages from `first` on,
/// in mapping order: each page's stale translation was flushed before the
/// request returned.
pub open spec fn pages_invalidated(
    old_m: MemoryManager,
    new_m: MemoryManager,
    first: int,
    k: int,
) -> bool {
    new_m.invalidations() == old_m.invalidations() + Seq::new(
        k as nat,
        |i: int| (first + i) as u64,
    )
}

/// Composes the frame allocator with the page-table hierarchy: creates new
/// virtual-to-physical mappings and translates virtual addresses.
pub struct MemoryManager {
    physical_memory_offset: u64,
    root: PageTable,
    frame_allocator: BootInfoFrameAllocator,
    invalidated: Ghost<Seq<u64>>,
}

impl MemoryManager {
    /// The hierarchy below the root is well formed.
    pub closed spec fn wf(self) -> bool {
        self.root.wf(4)
    }

    /// The virtual address at which all physical memory is mapped.
    pub closed spec fn offset(self) -> u64 {
        self.physical_memory_offset
    }

    /// The translation the hierarchy holds for page number `pn`.
    pub closed spec fn page_mapping(self, pn: int) -> Option<(u64, PageTableFlags)> {
        self.root.spec_lookup(4, pn)
    }

    /// The memory map the frame allocator draws from.
    pub closed spec fn regions(self) -> Seq<MemoryRegion> {
        self.frame_allocator.regions()
    }

    /// The usable frames of the memory map, in allocation order.
    pub open spec fn frames(self) -> Seq<u64> {
        usable_frames_seq(self.regions())
    }

    /// The allocator's forward cursor.
    pub closed spec fn next_frame_index(self) -> int {
        self.frame_allocator.next_index()
    }

    /// Every page whose translation-cache entry was invalidated, in the
    /// order the invalidations were issued.
    pub closed spec fn invalidations(self) -> Seq<u64> {
        self.invalidated@
    }

    /// What translating `addr` yields: the mapped frame of its page plus
    /// the offset inside the page.
    pub open spec fn spec_translate(self, addr: u64) -> Option<u64> {
        match self.page_mapping(addr as int / (PAGE_FRAME_SIZE as int)) {
            Some(entry) => Some((entry.0 + addr as int % (PAGE_FRAME_SIZE as int)) as u64),
            None => None,
        }
    }

    /// Creates the manager over the loader's memory map.
    ///
    /// The caller must have arranged that the complete physical address
    /// space is linearly mapped at `physical_memory_offset`, or table
    /// frames cannot be reached through that window; the hierarchy itself
    /// starts out with no translations.
    pub fn new(physical_memory_offset: u64, memory_regions: Vec<MemoryRegion>) -> (m:
        MemoryManager)
        ensures
            m.wf(),
            m.offset() == physical_memory_offset,
            m.regions() == memory_regions@,
            m.next_frame_index() == 0,
            m.invalidations() == Seq::<u64>::empty(),
            forall|pn: int| 0 <= pn < pow512(4) ==> m.page_mapping(pn) is None,
    {
        let root = PageTable::new_empty();
        proof {
            lemma_empty_table(root, 4);
        }
        MemoryManager {
            physical_memory_offset,
            root,
            frame_allocator: BootInfoFrameAllocator::init(memory_regions),
            invalidated: Ghost(Seq::empty()),
        }
    }

    /// Provides the physical address to which the virtual address has been
    /// mapped. Returns `None` if there is no valid mapping for it.
    pub fn translate_address(&self, addr: u64) -> (r: Option<u64>)
        requires
            self.wf(),
            addr < VIRTUAL_SPAN,
        ensures
            r == self.spec_translate(addr),
    {
        proof {
            assert(pow512(0) == 1);
            assert(pow512(1) == 512);
            assert(pow512(2) == 512 * 512);
            assert(pow512(3) == 512 * 512 * 512);
            assert(pow512(4) == 512 * 512 * 512 * 512);
            assert(addr as int / (PAGE_FRAME_SIZE as int) < pow512(4)) by (nonlinear_arith)
                requires
                    addr < 0x1_0000_0000_0000,
                    pow512(4) == 0x10_0000_0000,
            ;
        }
        let pn: u64 = addr / PAGE_FRAME_SIZE;
        let off: u64 = addr % PAGE_FRAME_SIZE;
        match self.root.lookup(4, pn) {
            Some((frame, _flags)) => {
                proof {
                    lemma_lookup_frame_aligned(self.root, 4, pn as int);
                }
                Some(frame + off)
            },
            None => None,
        }
    }

    /// Allocates fresh frames for the virtual region `[region_start,
    /// region_start + region_size)` and maps each of its pages with the
    /// given flags.
    ///
    /// Pages are taken in ascending order; each successfully mapped page
    /// has its translation-cache entry invalidated before the call
    /// returns, and keeps its new translation even if a later page of the
    /// same request fails. A page that already has a translation is never
    /// re-mapped:
    /// the request fails there with `PageAlreadyMapped`. When the frame
    /// allocator runs dry — each page costs one frame, plus up to three for
    /// new tables — the request fails with `FrameAllocationFailed`.
    pub fn allocate_frames_for_memory_region(
        &mut self,
        region_start: u64,
        region_size: u64,
        flags: PageTableFlags,
    ) -> (r: Result<(), MapError>)
        requires
            old(self).wf(),
            1 <= region_size,
            region_start + region_size <= VIRTUAL_SPAN,
            old(self).next_frame_index() + 5 * pages_of(region_start, region_size)
                <= usize::MAX,
        ensures
            final(self).wf(),
            final(self).offset() == old(self).offset(),
            final(self).regions() == old(self).regions(),
            old(self).next_frame_index() <= final(self).next_frame_index(),
            // a prefix of the range is newly mapped, everything else intact
            exists|k: int|
                #![auto]
                {
                    &&& 0 <= k <= pages_of(region_start, region_size)
                    &&& mapped_prefix(*old(self), *final(self), page_of(region_start), k, flags)
                    &&& pages_invalidated(*old(self), *final(self), page_of(region_start), k)
                    &&& (r is Ok <==> k == pages_of(region_start, region_size))
                    &&& (r == Err::<(), MapError>(MapError::PageAlreadyMapped)
                        ==> old(self).page_mapping(page_of(region_start) + k) is Some)
                },
            // the allocator ran dry if and only if that error says so
            r == Err::<(), MapError>(MapError::FrameAllocationFailed)
                ==> final(self).next_frame_index() > old(self).frames().len(),
            // success is owed when the range is free and frames suffice
            (forall|i: int|
                0 <= i < pages_of(region_start, region_size)
                    ==> #[trigger] old(self).page_mapping(page_of(region_start) + i) is None)
                && old(self).next_frame_index() + 4 * pages_of(region_start, region_size)
                <= old(self).frames().len() ==> r is Ok,
            // re-mapping an already mapped range start is refused outright
            old(self).page_mapping(page_of(region_start)) is Some && old(self).next_frame_index()
                < old(self).frames().len() ==> r == Err::<(), MapError>(
                MapError::PageAlreadyMapped,
            ) && (forall|q: int| final(self).page_mapping(q) == old(self).page_mapping(q))
                && final(self).next_frame_index() == old(self).next_frame_index() + 1,
    {
        let ghost first_g = region_start as int / (PAGE_FRAME_SIZE as int);
        let ghost count_g = page_span(region_start as int, region_size as int);
        let ghost old_m = *old(self);
        let first: u64 = region_start / PAGE_FRAME_SIZE;
        let last: u64 = (region_start + region_size - 1) / PAGE_FRAME_SIZE;
        proof {
            assert(pow512(0) == 1);
            assert(pow512(1) == 512);
            assert(pow512(2) == 512 * 512);
            assert(pow512(3) == 512 * 512 * 512);
            assert(pow512(4) == 512 * 512 * 512 * 512);
            assert(last < pow512(4) && first <= last) by (nonlinear_arith)
                requires
                    first == region_start as int / (PAGE_FRAME_SIZE as int),
                    last == (region_start + region_size - 1) as int / (PAGE_FRAME_SIZE as int),
                    region_start + region_size <= 0x1_0000_0000_0000,
                    1 <= region_size,
                    pow512(4) == 0x10_0000_0000,
                    PAGE_FRAME_SIZE == 4096,
            ;
            assert(count_g == last - first + 1);
        }
        let mut k: u64 = 0;
        let count: u64 = last - first + 1;
        while k < count
            invariant
                old_m == *old(self),
                first_g == page_of(region_start),
                count_g == pages_of(region_start, region_size),
                count == count_g,
                first == first_g,
                0 <= k <= count,
                first + count <= 0x10_0000_0000,
                pow512(4) == 0x10_0000_0000,
                self.wf(),
                self.offset() == old_m.offset(),
                self.regions() == old_m.regions(),
                old_m.next_frame_index() <= self.next_frame_index(),
                self.next_frame_index() <= old_m.next_frame_index() + 4 * k,
                self.next_frame_index() + 5 * (count - k) <= usize::MAX,
                mapped_prefix(old_m, *self, first_g, k as int, flags),
                pages_invalidated(old_m, *self, first_g, k as int),
                k > 0 ==> old_m.page_mapping(first_g) is None,
                old_m.wf(),
            decreases count - k,
        {
            let page: u64 = first + k;
            let ghost loop_m = *self;
            match self.frame_allocator.allocate_frame() {
                None => {
                    proof {
                        assert(loop_m.next_frame_index() >= old_m.frames().len());
                        lemma_prefix_monotone(old_m, loop_m, *self, first_g, k as int, flags);
                        assert(pages_invalidated(old_m, *self, first_g, k as int));
                        // the owed-success hypothesis cannot hold here
                        if (forall|i: int|
                            0 <= i < count_g ==> #[trigger] old_m.page_mapping(first_g + i) is None)
                            && old_m.next_frame_index() + 4 * count_g
                            <= old_m.frames().len() {
                            assert(4 * k < 4 * count_g);
                            assert(false);
                        }
                        // nor can the mapped-range-start hypothesis
                        if old_m.page_mapping(first_g) is Some && old_m.next_frame_index()
                            < old_m.frames().len() {
                            assert(k == 0 ==> loop_m.next_frame_index()
                                == old_m.next_frame_index());
                            assert(false);
                        }
                    }
                    return Err(MapError::FrameAllocationFailed);
                },
                Some(leaf) => {
                    proof {
                        lemma_usable_frames_aligned(old_m.regions());
                        lemma_missing_tables_bound(self.root, 4, page as int);
                    }
                    let ghost alloc_m = *self;
                    match self.root.map_page(4, page, leaf, flags, &mut self.frame_allocator) {
                        Err(e) => {
                            proof {
                                assert(alloc_m.page_mapping(page as int) == loop_m.page_mapping(
                                    page as int,
                                ));
                                assert forall|q: int| 0 <= q < pow512(4) implies
                                    self.page_mapping(q) == loop_m.page_mapping(q) by {
                                    if q != page as int {
                                        assert(self.page_mapping(q) == alloc_m.page_mapping(q));
                                    }
                                }
                                lemma_prefix_monotone(
                                    old_m,
                                    loop_m,
                                    *self,
                                    first_g,
                                    k as int,
                                    flags,
                                );
                                assert(pages_invalidated(old_m, *self, first_g, k as int));
                                assert(loop_m.page_mapping(page as int) == old_m.page_mapping(
                                    page as int,
                                ));
                                if e is PageAlreadyMapped {
                                    assert(old_m.page_mapping(first_g + k) is Some);
                                }
                                // the owed-success hypothesis cannot hold here
                                if (forall|i: int|
                                    0 <= i < count_g ==> #[trigger] old_m.page_mapping(first_g + i)
                                        is None) && old_m.next_frame_index() + 4 * count_g
                                    <= old_m.frames().len() {
                                    assert(old_m.page_mapping(page as int) is None);
                                    assert(alloc_m.next_frame_index()
                                        + alloc_m.root.spec_missing_tables(4, page as int)
                                        <= old_m.frames().len());
                                    assert(false);
                                }
                                // if the range starts on a mapped page, this
                                // is the first iteration and the error is the
                                // re-mapping refusal
                                if old_m.page_mapping(first_g) is Some
                                    && old_m.next_frame_index() < old_m.frames().len() {
                                    assert(k == 0);
                                    assert(alloc_m.page_mapping(page as int) is Some);
                                    assert(e is PageAlreadyMapped);
                                    assert(loop_m.next_frame_index()
                                        == old_m.next_frame_index());
                                }
                            }
                            return Err(e);
                        },
                        Ok(()) => {
                            self.invalidated = Ghost(self.invalidated@.push(page));
                            proof {
                                let kk = k as int;
                                assert(self.invalidations() =~= old_m.invalidations() + Seq::new(
                                    (kk + 1) as nat,
                                    |i: int| (first_g + i) as u64,
                                ));
                                assert(self.page_mapping(page as int) == Some((leaf, flags)));
                                assert(loop_m.next_frame_index() < old_m.frames().len());
                                assert(leaf == old_m.frames()[loop_m.next_frame_index()]);
                                assert forall|q: int|
                                    0 <= q < pow512(4) && q != page as int implies
                                    self.page_mapping(q) == loop_m.page_mapping(q) by {
                                    assert(self.page_mapping(q) == alloc_m.page_mapping(q));
                                }
                                lemma_prefix_extend(
                                    old_m,
                                    loop_m,
                                    *self,
                                    first_g,
                                    kk,
                                    flags,
                                    loop_m.next_frame_index(),
                                );
                                if kk == 0 {
                                    assert(alloc_m.page_mapping(first_g) is None);
                                    assert(old_m.page_mapping(first_g) is None);
                                }
                            }
                            k = k + 1;
                        },
                    }
                },
            }
        }
        Ok(())
    }
}

/// Mapping law: after a request mapped the pages from `first` on, any
/// address inside one of those pages translates to a physical address
/// inside a frame the allocator handed out during the request, at the
/// same offset within the frame.
pub proof fn lemma_mapped_range_translates(
    old_m: MemoryManager,
    new_m: MemoryManager,
    first: int,
    count: int,
    flags: PageTableFlags,
    addr: u64,
)
    requires
        mapped_prefix(old_m, new_m, first, count, flags),
        first <= page_of(addr) < first + count,
    ensures
        exists|j: int|
            #![auto]
            old_m.next_frame_index() <= j < new_m.next_frame_index() && j
                < old_m.frames().len() && new_m.spec_translate(addr) == Some(
                (old_m.frames()[j] + addr as int % (PAGE_FRAME_SIZE as int)) as u64,
            ),
{
    let i: int = page_of(addr) - first;
    assert(new_m.page_mapping(first + i) is Some && exists|j: int|
        #![auto]
        old_m.next_frame_index() <= j < new_m.next_frame_index() && j < old_m.frames().len()
            && new_m.page_mapping(first + i) == Some((old_m.frames()[j], flags)));
    let j = choose|j: int|
        #![auto]
        old_m.next_frame_index() <= j < new_m.next_frame_index() && j < old_m.frames().len()
            && new_m.page_mapping(first + i) == Some((old_m.frames()[j], flags));
    assert(new_m.spec_translate(addr) == Some(
        (old_m.frames()[j] + addr as int % (PAGE_FRAME_SIZE as int)) as u64,
    ));
}

/// Unfolds the usable frame sequence of a memory map suffix by one region.
proof fn lemma_usable_frames_unfold(regions: Seq<MemoryRegion>, i: int)
    requires
        0 <= i < regions.len(),
    ensures
        usable_frames_seq(regions.skip(i)) == (if regions[i].kind == MemoryRegionKind::Usable {
            region_frames(regions[i])
        } else {
            Seq::<u64>::empty()
        }) + usable_frames_seq(regions.skip(i + 1)),
{
    assert(regions.skip(i).len() > 0);
    assert(regions.skip(i)[0] == regions[i]);
    assert(regions.skip(i).skip(1) =~= regions.skip(i + 1));
}

} // verus!
