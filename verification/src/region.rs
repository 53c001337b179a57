//! Finding room in physical memory.
//!
//! The loader needs two runs of memory that nothing else lays claim to: one
//! for the unpacked kernel image, one for the kernel's stack. It takes them
//! from the memory map of the boot manager, first fit: the entries are
//! tried in the order of the map, and inside an available entry the windows
//! are tried from the lowest address up. A window starts on the alignment
//! asked for, has exactly the size asked for, and the next one starts one
//! aligned window size further on.

use crate::multiboot2::{MemoryInfo, MemoryInfoIter, MemoryRange};
use std::ops::Range;
use vstd::prelude::*;

verus! {

/// `x` rounded up to a multiple of `align`.
pub open spec fn round_up(x: int, align: int) -> int {
    if x % align == 0 {
        x
    } else {
        x - x % align + align
    }
}

/// The distance between the starts of two neighbouring windows: the size
/// of a window rounded up to the alignment.
pub open spec fn stride(needed: int, align: int) -> int {
    round_up(needed, align)
}

/// Where window number `k` of an entry that starts at `base` begins.
pub open spec fn window_start(base: int, needed: int, align: int, k: int) -> int {
    round_up(base, align) + k * stride(needed, align)
}

/// Whether an entry of the map can give memory at all: it is marked
/// available, and it lies within reach of this machine's addresses.
pub open spec fn usable(entry: MemoryInfo) -> bool {
    entry is Available && entry.spec_range().addressable()
}

/// Whether the window from `start` to `end` holds the first or the last
/// address of `excluded`.
pub open spec fn holds_endpoint(start: int, end: int, excluded: Range<usize>) -> bool {
    (start <= excluded.start < end) || (start < excluded.end <= end)
}

/// Whether the window from `start` to `end` holds the null address.
pub open spec fn holds_null(start: int, end: int) -> bool {
    start <= 0 < end
}

/// Whether window number `k` of `entry` may be handed out: the entry is
/// usable, the window ends inside it, does not hold the null address, and
/// holds neither end of any excluded range.
pub open spec fn qualifies(
    entry: MemoryInfo,
    needed: int,
    align: int,
    excluded: Seq<Range<usize>>,
    k: int,
) -> bool {
    let start = window_start(entry.spec_range().base as int, needed, align, k);
    let end = start + needed;
    &&& usable(entry)
    &&& k >= 0
    &&& end <= entry.spec_range().spec_end()
    &&& !holds_null(start, end)
    &&& forall|i: int| 0 <= i < excluded.len() ==> !holds_endpoint(start, end, #[trigger] excluded[i])
}

/// Whether window `k1` of entry `j1` is tried before window `k2` of entry
/// `j2`.
pub open spec fn earlier(j1: int, k1: int, j2: int, k2: int) -> bool {
    j1 < j2 || (j1 == j2 && k1 < k2)
}

/// Whether window `k` of entry `j` is the first of the whole map that may
/// be handed out.
pub open spec fn first_fit(
    map: Seq<MemoryInfo>,
    needed: int,
    align: int,
    excluded: Seq<Range<usize>>,
    j: int,
    k: int,
) -> bool {
    &&& 0 <= j < map.len()
    &&& qualifies(map[j], needed, align, excluded, k)
    &&& forall|j2: int, k2: int|
        0 <= j2 < map.len() && earlier(j2, k2, j, k) ==> !#[trigger] qualifies(
            map[j2],
            needed,
            align,
            excluded,
            k2,
        )
}

/// Whether `region` is window `k` of entry `j`.
pub open spec fn is_window(
    map: Seq<MemoryInfo>,
    needed: int,
    align: int,
    j: int,
    k: int,
    region: Range<usize>,
) -> bool {
    &&& region.start == window_start(map[j].spec_range().base as int, needed, align, k)
    &&& region.end == region.start + needed
}

/// What a search of `map` comes to: the first window that may be handed
/// out, or nothing where no window of any entry may be.
pub open spec fn region_found(
    map: Seq<MemoryInfo>,
    needed: int,
    align: int,
    excluded: Seq<Range<usize>>,
    result: Option<Range<usize>>,
) -> bool {
    match result {
        Some(region) => exists|j: int, k: int|
            #[trigger] first_fit(map, needed, align, excluded, j, k) && is_window(
                map,
                needed,
                align,
                j,
                k,
                region,
            ),
        None => forall|j: int, k: int|
            0 <= j < map.len() ==> !#[trigger] qualifies(map[j], needed, align, excluded, k),
    }
}

/// The outcome of a search of `map`.
pub open spec fn search(
    map: Seq<MemoryInfo>,
    needed: int,
    align: int,
    excluded: Seq<Range<usize>>,
) -> Option<Range<usize>> {
    choose|result: Option<Range<usize>>| region_found(map, needed, align, excluded, result)
}

/// Neighbouring windows start one stride apart.
pub proof fn lemma_window_step(base: int, needed: int, align: int, k: int)
    ensures
        window_start(base, needed, align, k + 1) == window_start(base, needed, align, k) + stride(
            needed,
            align,
        ),
{
    let s = stride(needed, align);
    assert((k + 1) * s == k * s + s) by (nonlinear_arith);
}

/// Rounding up neither lowers a number nor raises it by a whole step.
pub proof fn lemma_round_up(x: int, align: int)
    requires
        align > 0,
    ensures
        x <= round_up(x, align) < x + align,
        round_up(x, align) % align == 0,
{
    if x % align != 0 {
        let r = x - x % align + align;
        assert(x == align * (x / align) + x % align) by (nonlinear_arith)
            requires
                align > 0,
        ;
        assert(r == align * (x / align + 1)) by (nonlinear_arith)
            requires
                r == x - x % align + align,
                x == align * (x / align) + x % align,
        ;
        assert((align * (x / align + 1)) % align == 0) by (nonlinear_arith)
            requires
                align > 0,
        ;
    }
}

/// A later window does not start below an earlier one.
pub proof fn lemma_window_order(base: int, needed: int, align: int, k1: int, k2: int)
    requires
        align > 0,
        needed >= 0,
        k1 <= k2,
    ensures
        window_start(base, needed, align, k1) <= window_start(base, needed, align, k2),
{
    lemma_round_up(needed, align);
    let s = stride(needed, align);
    assert(k1 * s <= k2 * s) by (nonlinear_arith)
        requires
            k1 <= k2,
            s >= 0,
    ;
}

/// Every window starts on the alignment.
pub proof fn lemma_window_aligned(base: int, needed: int, align: int, k: int)
    requires
        align > 0,
    ensures
        window_start(base, needed, align, k) % align == 0,
{
    lemma_round_up(base, align);
    lemma_round_up(needed, align);
    let b = round_up(base, align);
    let s = stride(needed, align);
    vstd::arithmetic::div_mod::lemma_fundamental_div_mod(b, align);
    vstd::arithmetic::div_mod::lemma_fundamental_div_mod(s, align);
    let q = b / align + k * (s / align);
    assert(b + k * s == q * align) by (nonlinear_arith)
        requires
            b == align * (b / align),
            s == align * (s / align),
            q == b / align + k * (s / align),
    ;
    vstd::arithmetic::div_mod::lemma_mod_multiples_basic(q, align);
}

/// A physical address. Its arithmetic is checked: what would lead beyond
/// the last address of the machine gives nothing instead of wrapping
/// around.
#[derive(Clone, Copy, Debug, PartialEq, Eq, Structural)]
pub struct PhysicalAddress(pub usize);

impl PhysicalAddress {
    /// Tells whether the address is a multiple of `align`.
    pub fn is_aligned(&self, align: usize) -> (r: bool)
        requires
            align > 0,
        ensures
            r == (self.0 as int % align as int == 0),
    {
        self.0 % align == 0
    }

    /// The next address at or above this one that is a multiple of
    /// `align`, where there is one.
    pub fn align_up(&self, align: usize) -> (r: Option<PhysicalAddress>)
        requires
            align > 0,
        ensures
            r == (if round_up(self.0 as int, align as int) <= usize::MAX {
                Some(PhysicalAddress(round_up(self.0 as int, align as int) as usize))
            } else {
                None
            }),
    {
        match checked_round_up(self.0, align) {
            Some(address) => Some(PhysicalAddress(address)),
            None => None,
        }
    }

    /// The address `bytes` further on, where there is one.
    pub fn checked_add(&self, bytes: usize) -> (r: Option<PhysicalAddress>)
        ensures
            r == (if self.0 + bytes <= usize::MAX {
                Some(PhysicalAddress((self.0 + bytes) as usize))
            } else {
                None
            }),
    {
        match self.0.checked_add(bytes) {
            Some(address) => Some(PhysicalAddress(address)),
            None => None,
        }
    }
}

/// `x` rounded up to a multiple of `align`, unless that is more than a
/// `usize` holds.
pub fn checked_round_up(x: usize, align: usize) -> (r: Option<usize>)
    requires
        align > 0,
    ensures
        r == (if round_up(x as int, align as int) <= usize::MAX {
            Some(round_up(x as int, align as int) as usize)
        } else {
            None
        }),
{
    let rest = x % align;
    if rest == 0 {
        Some(x)
    } else {
        x.checked_add(align - rest)
    }
}

/// Tells whether the window holds the first or the last address of one of
/// the excluded ranges.
fn holds_any_endpoint(start: usize, end: usize, excluded_ranges: &[Range<usize>]) -> (r: bool)
    ensures
        r == !(forall|i: int|
            0 <= i < excluded_ranges@.len() ==> !holds_endpoint(
                start as int,
                end as int,
                #[trigger] excluded_ranges@[i],
            )),
{
    let mut i: usize = 0;
    while i < excluded_ranges.len()
        invariant
            i <= excluded_ranges@.len(),
            forall|n: int|
                0 <= n < i ==> !holds_endpoint(
                    start as int,
                    end as int,
                    #[trigger] excluded_ranges@[n],
                ),
        decreases excluded_ranges@.len() - i,
    {
        let first = excluded_ranges[i].start;
        let last = excluded_ranges[i].end;
        if (start <= first && first < end) || (start < last && last <= end) {
            assert(holds_endpoint(start as int, end as int, excluded_ranges@[i as int]));
            return true;
        }
        i += 1;
    }
    false
}

/// Searches one usable entry, from `base` to `limit`, for its first window
/// that may be handed out.
fn find_in_entry(
    entry: MemoryInfo,
    base: usize,
    limit: usize,
    needed_size: usize,
    alignment: usize,
    excluded_ranges: &[Range<usize>],
) -> (r: Option<Range<usize>>)
    requires
        alignment > 0,
        usable(entry),
        base == entry.spec_range().base,
        limit == entry.spec_range().spec_end(),
    ensures
        match r {
            Some(region) => exists|k: int|
                {
                    &&& #[trigger] qualifies(
                        entry,
                        needed_size as int,
                        alignment as int,
                        excluded_ranges@,
                        k,
                    )
                    &&& forall|k2: int|
                        k2 < k ==> !#[trigger] qualifies(
                            entry,
                            needed_size as int,
                            alignment as int,
                            excluded_ranges@,
                            k2,
                        )
                    &&& region.start == window_start(
                        base as int,
                        needed_size as int,
                        alignment as int,
                        k,
                    )
                    &&& region.end == region.start + needed_size
                },
            None => forall|k: int|
                !#[trigger] qualifies(
                    entry,
                    needed_size as int,
                    alignment as int,
                    excluded_ranges@,
                    k,
                ),
        },
{
    let ghost needed = needed_size as int;
    let ghost align = alignment as int;
    let ghost excluded = excluded_ranges@;
    proof {
        lemma_round_up(base as int, align);
        lemma_round_up(needed, align);
    }
    let first = match PhysicalAddress(base).align_up(alignment) {
        Some(first) => first,
        None => {
            proof {
                assert forall|k: int| !#[trigger] qualifies(entry, needed, align, excluded, k) by {
                    if k >= 0 {
                        lemma_window_order(base as int, needed, align, 0, k);
                    }
                }
            }
            return None;
        },
    };
    let step = checked_round_up(needed_size, alignment);
    let mut start = first.0;
    let ghost mut k: int = 0;
    loop
        invariant
            alignment > 0,
            usable(entry),
            base == entry.spec_range().base,
            limit == entry.spec_range().spec_end(),
            needed == needed_size as int,
            align == alignment as int,
            excluded == excluded_ranges@,
            k >= 0,
            start == window_start(base as int, needed, align, k),
            step == (if stride(needed, align) <= usize::MAX {
                Some(stride(needed, align) as usize)
            } else {
                None
            }),
            stride(needed, align) >= needed,
            forall|k2: int| k2 < k ==> !#[trigger] qualifies(entry, needed, align, excluded, k2),
        decreases
            (if start <= limit {
                limit - start + 1
            } else {
                0
            }),
    {
        if start > limit || needed_size > limit - start {
            proof {
                assert forall|k2: int| !#[trigger] qualifies(entry, needed, align, excluded, k2) by {
                    if k2 >= k {
                        lemma_window_order(base as int, needed, align, k, k2);
                    }
                }
            }
            return None;
        }
        let end = start + needed_size;
        let null_inside = start == 0 && needed_size > 0;
        if !null_inside && !holds_any_endpoint(start, end, excluded_ranges) {
            proof {
                assert(qualifies(entry, needed, align, excluded, k));
            }
            return Some(Range { start, end });
        }
        proof {
            assert(!qualifies(entry, needed, align, excluded, k));
            lemma_window_step(base as int, needed, align, k);
        }
        let next = match step {
            Some(step) => if step > 0 {
                PhysicalAddress(start).checked_add(step)
            } else {
                None
            },
            None => None,
        };
        match next {
            Some(next) => {
                start = next.0;
                proof {
                    k = k + 1;
                }
            },
            None => {
                proof {
                    assert forall|k2: int| !#[trigger] qualifies(
                        entry,
                        needed,
                        align,
                        excluded,
                        k2,
                    ) by {
                        if k2 > k {
                            if stride(needed, align) == 0 {
                                assert(k2 * stride(needed, align) == k * stride(needed, align))
                                    by (nonlinear_arith)
                                    requires
                                        stride(needed, align) == 0,
                                ;
                                assert(window_start(base as int, needed, align, k2)
                                    == window_start(base as int, needed, align, k));
                            } else {
                                lemma_window_order(base as int, needed, align, k + 1, k2);
                            }
                        }
                    }
                }
                return None;
            },
        }
    }
}

/// Searches the memory map for a run of `needed_size` bytes that starts on
/// a multiple of `alignment`, lies inside one available entry, does not
/// hold the null address, and holds neither the first nor the last address
/// of any excluded range. Of all such runs it returns the first: the
/// entries are tried in the order of the map, the windows of an entry from
/// the lowest up.
pub fn find_region(
    memory_map: &[MemoryInfo],
    needed_size: usize,
    alignment: usize,
    excluded_ranges: &[Range<usize>],
) -> (r: Option<Range<usize>>)
    requires
        alignment > 0,
    ensures
        region_found(memory_map@, needed_size as int, alignment as int, excluded_ranges@, r),
        r == search(memory_map@, needed_size as int, alignment as int, excluded_ranges@),
{
    let r = find_first_fit(memory_map, needed_size, alignment, excluded_ranges);
    proof {
        lemma_search(memory_map@, needed_size as int, alignment as int, excluded_ranges@, r);
    }
    r
}

/// The search itself: entry by entry, and window by window inside an entry.
fn find_first_fit(
    memory_map: &[MemoryInfo],
    needed_size: usize,
    alignment: usize,
    excluded_ranges: &[Range<usize>],
) -> (r: Option<Range<usize>>)
    requires
        alignment > 0,
    ensures
        region_found(memory_map@, needed_size as int, alignment as int, excluded_ranges@, r),
{
    let ghost needed = needed_size as int;
    let ghost align = alignment as int;
    let ghost excluded = excluded_ranges@;
    let mut j: usize = 0;
    while j < memory_map.len()
        invariant
            alignment > 0,
            j <= memory_map@.len(),
            needed == needed_size as int,
            align == alignment as int,
            excluded == excluded_ranges@,
            forall|j2: int, k2: int|
                0 <= j2 < j ==> !#[trigger] qualifies(memory_map@[j2], needed, align, excluded, k2),
        decreases memory_map@.len() - j,
    {
        let entry = memory_map[j];
        let found = match entry {
            MemoryInfo::Available(range) => match range.as_ptr_range() {
                Some(full) => find_in_entry(
                    entry,
                    full.start,
                    full.end,
                    needed_size,
                    alignment,
                    excluded_ranges,
                ),
                None => None,
            },
            _ => None,
        };
        match found {
            Some(region) => {
                proof {
                    let k = choose|k: int|
                        {
                            &&& #[trigger] qualifies(entry, needed, align, excluded, k)
                            &&& forall|k2: int|
                                k2 < k ==> !#[trigger] qualifies(
                                    entry,
                                    needed,
                                    align,
                                    excluded,
                                    k2,
                                )
                            &&& region.start == window_start(
                                entry.spec_range().base as int,
                                needed,
                                align,
                                k,
                            )
                            &&& region.end == region.start + needed_size
                        };
                    assert(first_fit(memory_map@, needed, align, excluded, j as int, k));
                    assert(is_window(memory_map@, needed, align, j as int, k, region));
                }
                return Some(region);
            },
            None => {},
        }
        j += 1;
    }
    None
}

/// Searches what is left of a memory map as `find_region` does, with the
/// loader's own image added to the excluded ranges.
pub fn get_available_memory(
    mem_map: MemoryInfoIter<'_>,
    needed_memory: usize,
    align: usize,
    loader_image: &Range<usize>,
    excluded_ranges: &[Range<usize>],
) -> (r: Option<Range<usize>>)
    requires
        align > 0,
    ensures
        region_found(
            mem_map.remaining(),
            needed_memory as int,
            align as int,
            seq![*loader_image] + excluded_ranges@,
            r,
        ),
        r == search(
            mem_map.remaining(),
            needed_memory as int,
            align as int,
            seq![*loader_image] + excluded_ranges@,
        ),
{
    let mut mem_map = mem_map;
    let ghost all = mem_map.remaining();
    let mut entries: Vec<MemoryInfo> = Vec::new();
    loop
        invariant
            all == entries@ + mem_map.remaining(),
        ensures
            all == entries@,
        decreases mem_map.remaining().len(),
    {
        match mem_map.next() {
            Some(entry) => {
                proof {
                    assert(all =~= entries@.push(entry) + mem_map.remaining());
                }
                entries.push(entry);
            },
            None => {
                proof {
                    assert(all =~= entries@);
                }
                break ;
            },
        }
    }
    let mut excluded: Vec<Range<usize>> = Vec::new();
    excluded.push(Range { start: loader_image.start, end: loader_image.end });
    let mut i: usize = 0;
    while i < excluded_ranges.len()
        invariant
            i <= excluded_ranges@.len(),
            excluded@ =~= seq![*loader_image] + excluded_ranges@.subrange(0, i as int),
        decreases excluded_ranges@.len() - i,
    {
        excluded.push(Range { start: excluded_ranges[i].start, end: excluded_ranges[i].end });
        i += 1;
    }
    proof {
        assert(excluded_ranges@.subrange(0, i as int) =~= excluded_ranges@);
    }
    find_region(entries.as_slice(), needed_memory, align, excluded.as_slice())
}

/// Whether two runs of addresses share no address.
pub open spec fn ranges_disjoint(a: Range<usize>, b: Range<usize>) -> bool {
    a.end <= b.start || b.end <= a.start || a.end <= a.start || b.end <= b.start
}

/// Whether `region` and the range of `entry` share no address.
pub open spec fn misses_entry(region: Range<usize>, entry: MemoryInfo) -> bool {
    region.end <= entry.spec_range().base || entry.spec_range().spec_end() <= region.start
        || region.end <= region.start || entry.spec_range().size == 0
}

/// Whether `region` lies inside the range of `entry`.
pub open spec fn inside_entry(region: Range<usize>, entry: MemoryInfo) -> bool {
    entry.spec_range().base <= region.start && region.end <= entry.spec_range().spec_end()
}

/// A search has one outcome only: two results of the same search are the
/// same.
pub proof fn lemma_region_unique(
    map: Seq<MemoryInfo>,
    needed: int,
    align: int,
    excluded: Seq<Range<usize>>,
    r1: Option<Range<usize>>,
    r2: Option<Range<usize>>,
)
    requires
        region_found(map, needed, align, excluded, r1),
        region_found(map, needed, align, excluded, r2),
    ensures
        r1 is Some <==> r2 is Some,
        r1 is Some ==> r1->0.start == r2->0.start && r1->0.end == r2->0.end,
{
    if r1 is Some {
        let (j1, k1) = choose|j: int, k: int|
            #[trigger] first_fit(map, needed, align, excluded, j, k) && is_window(
                map,
                needed,
                align,
                j,
                k,
                r1->0,
            );
        assert(qualifies(map[j1], needed, align, excluded, k1));
        if r2 is Some {
            let (j2, k2) = choose|j: int, k: int|
                #[trigger] first_fit(map, needed, align, excluded, j, k) && is_window(
                    map,
                    needed,
                    align,
                    j,
                    k,
                    r2->0,
                );
            assert(qualifies(map[j2], needed, align, excluded, k2));
            assert(!earlier(j1, k1, j2, k2));
            assert(!earlier(j2, k2, j1, k1));
        }
    } else if r2 is Some {
        let (j2, k2) = choose|j: int, k: int|
            #[trigger] first_fit(map, needed, align, excluded, j, k) && is_window(
                map,
                needed,
                align,
                j,
                k,
                r2->0,
            );
        assert(qualifies(map[j2], needed, align, excluded, k2));
    }
}

/// The outcome of a search is the one result that meets its description.
pub proof fn lemma_search(
    map: Seq<MemoryInfo>,
    needed: int,
    align: int,
    excluded: Seq<Range<usize>>,
    result: Option<Range<usize>>,
)
    requires
        region_found(map, needed, align, excluded, result),
    ensures
        search(map, needed, align, excluded) == result,
{
    let chosen = search(map, needed, align, excluded);
    assert(region_found(map, needed, align, excluded, chosen));
    lemma_region_unique(map, needed, align, excluded, chosen, result);
}

/// Among the windows of an entry that may be handed out there is a first.
proof fn lemma_first_window(
    entry: MemoryInfo,
    needed: int,
    align: int,
    excluded: Seq<Range<usize>>,
    k: int,
) -> (first: int)
    requires
        qualifies(entry, needed, align, excluded, k),
    ensures
        qualifies(entry, needed, align, excluded, first),
        forall|k2: int| k2 < first ==> !#[trigger] qualifies(entry, needed, align, excluded, k2),
    decreases k,
{
    if exists|k2: int| k2 < k && #[trigger] qualifies(entry, needed, align, excluded, k2) {
        let k2 = choose|k2: int| k2 < k && #[trigger] qualifies(entry, needed, align, excluded, k2);
        lemma_first_window(entry, needed, align, excluded, k2)
    } else {
        k
    }
}

/// Among the entries with a window that may be handed out there is a
/// first.
proof fn lemma_first_entry(
    map: Seq<MemoryInfo>,
    needed: int,
    align: int,
    excluded: Seq<Range<usize>>,
    j: int,
    k: int,
) -> (first: int)
    requires
        0 <= j < map.len(),
        qualifies(map[j], needed, align, excluded, k),
    ensures
        0 <= first <= j,
        exists|k2: int| #[trigger] qualifies(map[first], needed, align, excluded, k2),
        forall|j2: int, k2: int|
            0 <= j2 < first ==> !#[trigger] qualifies(map[j2], needed, align, excluded, k2),
    decreases j,
{
    if exists|j2: int, k2: int|
        0 <= j2 < j && #[trigger] qualifies(map[j2], needed, align, excluded, k2) {
        let (j2, k2) = choose|j2: int, k2: int|
            0 <= j2 < j && #[trigger] qualifies(map[j2], needed, align, excluded, k2);
        lemma_first_entry(map, needed, align, excluded, j2, k2)
    } else {
        j
    }
}

/// Every search has an outcome, and `search` is that outcome.
pub proof fn lemma_search_found(
    map: Seq<MemoryInfo>,
    needed: int,
    align: int,
    excluded: Seq<Range<usize>>,
)
    requires
        align > 0,
        needed >= 0,
    ensures
        region_found(map, needed, align, excluded, search(map, needed, align, excluded)),
{
    if exists|j: int, k: int|
        0 <= j < map.len() && #[trigger] qualifies(map[j], needed, align, excluded, k) {
        let (j0, k0) = choose|j: int, k: int|
            0 <= j < map.len() && #[trigger] qualifies(map[j], needed, align, excluded, k);
        let j = lemma_first_entry(map, needed, align, excluded, j0, k0);
        let k1 = choose|k2: int| #[trigger] qualifies(map[j], needed, align, excluded, k2);
        let k = lemma_first_window(map[j], needed, align, excluded, k1);
        let base = map[j].spec_range().base as int;
        lemma_round_up(base, align);
        lemma_window_order(base, needed, align, 0, k);
        let start = window_start(base, needed, align, k);
        let region = Range { start: start as usize, end: (start + needed) as usize };
        assert(first_fit(map, needed, align, excluded, j, k));
        assert(is_window(map, needed, align, j, k, region));
        assert(region_found(map, needed, align, excluded, Some(region)));
    } else {
        assert(region_found(map, needed, align, excluded, None));
    }
}

/// What holds of every region that a search returns: it has the size and
/// the alignment asked for, lies inside one available entry of the map,
/// does not hold the null address, and holds neither the first nor the
/// last address of any excluded range.
pub proof fn lemma_region_properties(
    map: Seq<MemoryInfo>,
    needed: int,
    align: int,
    excluded: Seq<Range<usize>>,
    region: Range<usize>,
)
    requires
        align > 0,
        needed >= 0,
        region_found(map, needed, align, excluded, Some(region)),
    ensures
        region.end - region.start == needed,
        region.start as int % align == 0,
        exists|j: int| 0 <= j < map.len() && usable(map[j]) && inside_entry(region, #[trigger] map[j]),
        !holds_null(region.start as int, region.end as int),
        forall|i: int|
            0 <= i < excluded.len() ==> !holds_endpoint(
                region.start as int,
                region.end as int,
                #[trigger] excluded[i],
            ),
{
    let (j, k) = choose|j: int, k: int|
        #[trigger] first_fit(map, needed, align, excluded, j, k) && is_window(
            map,
            needed,
            align,
            j,
            k,
            region,
        );
    let base = map[j].spec_range().base as int;
    assert(qualifies(map[j], needed, align, excluded, k));
    lemma_window_aligned(base, needed, align, k);
    lemma_round_up(base, align);
    lemma_round_up(needed, align);
    lemma_window_order(base, needed, align, 0, k);
    assert(inside_entry(region, map[j]));
}

/// A region never spans two entries: where the available entries of the
/// map share no address with one another, a region that a search returns
/// lies inside one of them and shares no address with any other.
pub proof fn lemma_region_in_one_entry(
    map: Seq<MemoryInfo>,
    needed: int,
    align: int,
    excluded: Seq<Range<usize>>,
    region: Range<usize>,
)
    requires
        align > 0,
        needed >= 0,
        region_found(map, needed, align, excluded, Some(region)),
        forall|a: int, b: int|
            0 <= a < map.len() && 0 <= b < map.len() && a != b && map[a] is Available
                && map[b] is Available ==> !(#[trigger] map[a].spec_range()).spec_overlaps(
                #[trigger] map[b].spec_range(),
            ),
    ensures
        exists|j: int|
            {
                &&& 0 <= j < map.len()
                &&& usable(map[j])
                &&& inside_entry(region, #[trigger] map[j])
                &&& forall|i: int|
                    0 <= i < map.len() && i != j && map[i] is Available ==> misses_entry(
                        region,
                        #[trigger] map[i],
                    )
            },
{
    lemma_region_properties(map, needed, align, excluded, region);
    let j = choose|j: int| 0 <= j < map.len() && usable(map[j]) && inside_entry(region, #[trigger] map[j]);
    assert forall|i: int| 0 <= i < map.len() && i != j && map[i] is Available implies misses_entry(
        region,
        #[trigger] map[i],
    ) by {
        if !misses_entry(region, map[i]) {
            let other = map[i].spec_range();
            let own = map[j].spec_range();
            let shared = if region.start >= other.base {
                region.start as int
            } else {
                other.base as int
            };
            assert(own.spec_contains(shared) && other.spec_contains(shared));
            assert(own.spec_overlaps(other));
        }
    }
}

/// Of two available entries that share no address, a region found in a
/// map of just these two meets one at the most.
pub proof fn lemma_region_never_spans_two(
    first: MemoryRange,
    second: MemoryRange,
    needed: int,
    align: int,
    excluded: Seq<Range<usize>>,
    region: Range<usize>,
)
    requires
        align > 0,
        needed >= 0,
        !first.spec_overlaps(second),
        region_found(
            seq![MemoryInfo::Available(first), MemoryInfo::Available(second)],
            needed,
            align,
            excluded,
            Some(region),
        ),
    ensures
        misses_entry(region, MemoryInfo::Available(first)) || misses_entry(
            region,
            MemoryInfo::Available(second),
        ),
{
    let map = seq![MemoryInfo::Available(first), MemoryInfo::Available(second)];
    assert(map[0].spec_range() == first);
    assert(map[1].spec_range() == second);
    assert(!second.spec_overlaps(first)) by {
        if second.spec_overlaps(first) {
            let address = choose|address: int|
                second.spec_contains(address) && first.spec_contains(address);
            assert(first.spec_contains(address) && second.spec_contains(address));
        }
    }
    lemma_region_in_one_entry(map, needed, align, excluded, region);
    let j = choose|j: int|
        {
            &&& 0 <= j < map.len()
            &&& usable(map[j])
            &&& inside_entry(region, #[trigger] map[j])
            &&& forall|i: int|
                0 <= i < map.len() && i != j && map[i] is Available ==> misses_entry(
                    region,
                    #[trigger] map[i],
                )
        };
    if j == 0 {
        assert(misses_entry(region, map[1]));
    } else {
        assert(misses_entry(region, map[0]));
    }
}

/// A region shares no address with an excluded range that is not longer
/// than the region: holding neither end of it, the region could only lie
/// strictly inside it.
pub proof fn lemma_region_misses_excluded(
    map: Seq<MemoryInfo>,
    needed: int,
    align: int,
    excluded: Seq<Range<usize>>,
    region: Range<usize>,
    i: int,
)
    requires
        align > 0,
        needed >= 0,
        region_found(map, needed, align, excluded, Some(region)),
        0 <= i < excluded.len(),
        excluded[i].end - excluded[i].start <= needed,
    ensures
        ranges_disjoint(region, excluded[i]),
{
    lemma_region_properties(map, needed, align, excluded, region);
    assert(!holds_endpoint(region.start as int, region.end as int, excluded[i]));
}

} // verus!
