//! The physical memory map that the kernel hands to a kernel it starts:
//! pages that the new kernel's image, stack and tables occupy are carved out
//! of the conventional memory and given a type of their own.
use vstd::prelude::*;

verus! {

/// The size of a page.
pub const PAGE_SIZE: u64 = 4096;

/// The firmware's type of free memory.
pub const CONVENTIONAL: u32 = 7;

/// A region of the physical memory map: a type, a page-aligned start, a
/// count of pages and attribute bits.
#[derive(Clone, Copy, Debug, PartialEq, Eq, Structural)]
pub struct MemoryDescriptor {
    pub ty: u32,
    pub phys_start: u64,
    pub virt_start: u64,
    pub page_count: u64,
    pub att: u64,
}

/// The first address past a region.
pub open spec fn region_end(r: MemoryDescriptor) -> int {
    r.phys_start + r.page_count * 4096
}

/// Whether a region holds an address.
pub open spec fn covers(r: MemoryDescriptor, a: int) -> bool {
    r.phys_start <= a < region_end(r)
}

/// A memory map in order: page-aligned regions that end within the address
/// space, each ending at or before the next one starts.
pub open spec fn map_wf(m: Seq<MemoryDescriptor>) -> bool {
    &&& forall|i: int| 0 <= i < m.len() ==> region_end(#[trigger] m[i]) <= u64::MAX
    &&& forall|i: int| 0 <= i < m.len() ==> (#[trigger] m[i]).phys_start % 4096 == 0
    &&& forall|i: int, j: int| 0 <= i < j < m.len() ==> region_end(m[i]) <= m[j].phys_start
}

/// The type of the region that holds an address, if one does.
pub open spec fn type_at(m: Seq<MemoryDescriptor>, a: int) -> Option<u32> {
    if exists|i: int| 0 <= i < m.len() && covers(m[i], a) {
        Some(m[choose|i: int| 0 <= i < m.len() && covers(m[i], a)].ty)
    } else {
        None
    }
}

/// Whether some region not yet of type `key` holds the page.
pub open spec fn page_in_use(m: Seq<MemoryDescriptor>, page: int, key: u32) -> bool {
    exists|i: int| 0 <= i < m.len() && covers(m[i], page) && m[i].ty != key
}

/// The region not yet of type `key` that holds the page.
pub open spec fn holding_region(m: Seq<MemoryDescriptor>, page: int, key: u32) -> int {
    choose|i: int| 0 <= i < m.len() && covers(m[i], page) && m[i].ty != key
}

/// A region of one page of type `key`.
pub open spec fn key_page(page: u64, key: u32, att: u64) -> MemoryDescriptor {
    MemoryDescriptor { ty: key, phys_start: page, virt_start: 0, page_count: 1, att }
}

/// The map after the page is given type `key`. A region of one page
/// changes its type. A page at the start of its region joins the region
/// before when that one is of type `key` and ends there, else becomes a
/// region of its own before; a page at the end joins or precedes the
/// region after in the same way; a page in the middle splits its region in
/// three.
pub open spec fn remove_page_spec(m: Seq<MemoryDescriptor>, page: u64, key: u32) -> Seq<
    MemoryDescriptor,
> {
    if !page_in_use(m, page as int, key) {
        m
    } else {
        let i = holding_region(m, page as int, key);
        let e = m[i];
        if e.page_count == 1 {
            m.update(i, MemoryDescriptor { ty: key, ..e })
        } else if page == e.phys_start {
            let shrunk = m.update(
                i,
                MemoryDescriptor {
                    page_count: (e.page_count - 1) as u64,
                    phys_start: (e.phys_start + 4096) as u64,
                    ..e
                },
            );
            if i > 0 && m[i - 1].ty == key && region_end(m[i - 1]) == page {
                shrunk.update(
                    i - 1,
                    MemoryDescriptor { page_count: (m[i - 1].page_count + 1) as u64, ..m[i - 1] },
                )
            } else {
                shrunk.insert(i, key_page(page, key, e.att))
            }
        } else if page + 4096 == region_end(e) {
            let shrunk = m.update(i, MemoryDescriptor { page_count: (e.page_count - 1) as u64, ..e });
            if i + 1 < m.len() && m[i + 1].ty == key && m[i + 1].phys_start == page + 4096 {
                shrunk.update(
                    i + 1,
                    MemoryDescriptor {
                        phys_start: page,
                        page_count: (m[i + 1].page_count + 1) as u64,
                        ..m[i + 1]
                    },
                )
            } else {
                shrunk.insert(i + 1, key_page(page, key, e.att))
            }
        } else {
            let new = ((page - e.phys_start) / 4096) as u64;
            m.update(i, MemoryDescriptor { page_count: new, ..e }).insert(
                i + 1,
                key_page(page, key, e.att),
            ).insert(
                i + 2,
                MemoryDescriptor {
                    ty: e.ty,
                    phys_start: (page + 4096) as u64,
                    virt_start: 0,
                    page_count: (e.page_count - new - 1) as u64,
                    att: e.att,
                },
            )
        }
    }
}

/// In an ordered map, the region that holds an address gives its type.
pub proof fn lemma_type_at_index(m: Seq<MemoryDescriptor>, j: int, a: int)
    requires
        map_wf(m),
        0 <= j < m.len(),
        covers(m[j], a),
    ensures
        type_at(m, a) == Some(m[j].ty),
{
    let k = choose|i: int| 0 <= i < m.len() && covers(m[i], a);
    if k < j {
        assert(region_end(m[k]) <= m[j].phys_start);
    } else if k > j {
        assert(region_end(m[j]) <= m[k].phys_start);
    }
}

/// In an ordered map, the region found for a page is the only one that
/// holds it.
proof fn lemma_holding_unique(m: Seq<MemoryDescriptor>, page: int, key: u32, j: int)
    requires
        map_wf(m),
        0 <= j < m.len(),
        covers(m[j], page),
        m[j].ty != key,
    ensures
        page_in_use(m, page, key),
        holding_region(m, page, key) == j,
{
    let k = holding_region(m, page, key);
    if k < j {
        assert(region_end(m[k]) <= m[j].phys_start);
    } else if k > j {
        assert(region_end(m[j]) <= m[k].phys_start);
    }
}

/// Whether the page at `page` lies in no region, in a conventional one or
/// in one of type `key`.
pub open spec fn carvable(m: Seq<MemoryDescriptor>, page: int, key: u32) -> bool {
    type_at(m, page) is None || type_at(m, page) == Some(CONVENTIONAL) || type_at(m, page) == Some(
        key,
    )
}

/// In an ordered map, a carvable page lies only in regions that are
/// conventional or of type `key`.
proof fn lemma_carvable(m: Seq<MemoryDescriptor>, page: int, key: u32)
    requires
        map_wf(m),
        carvable(m, page, key),
    ensures
        forall|i: int|
            0 <= i < m.len() && covers(m[i], page) ==> (#[trigger] m[i]).ty == CONVENTIONAL
                || m[i].ty == key,
{
    assert forall|i: int| 0 <= i < m.len() && covers(m[i], page) implies (#[trigger] m[i]).ty
        == CONVENTIONAL || m[i].ty == key by {
        lemma_type_at_index(m, i, page);
    }
}

/// Gives the page at `page` the type `key`, carving it out of the
/// conventional region that holds it. Nothing changes when no region, or
/// only one of type `key`, holds it.
pub fn remove_page(mmap: &mut Vec<MemoryDescriptor>, page: u64, key: u32)
    requires
        map_wf(old(mmap)@),
        page % 4096 == 0,
        key != CONVENTIONAL,
        carvable(old(mmap)@, page as int, key),
    ensures
        final(mmap)@ == remove_page_spec(old(mmap)@, page, key),
        carved(old(mmap)@, final(mmap)@, page, key),
{
    let ghost m = mmap@;
    proof {
        lemma_carvable(m, page as int, key);
        lemma_remove_page_types(m, page, key);
    }
    let n = mmap.len();
    let mut i: usize = 0;
    while i < n
        invariant
            n == mmap@.len(),
            mmap@ == m,
            m == old(mmap)@,
            map_wf(m),
            carved(m, remove_page_spec(m, page, key), page, key),
            page % 4096 == 0,
            key != CONVENTIONAL,
            forall|j: int|
                0 <= j < m.len() && covers(m[j], page as int) ==> (#[trigger] m[j]).ty
                    == CONVENTIONAL || m[j].ty == key,
            i <= n,
            forall|j: int| 0 <= j < i ==> !(covers(m[j], page as int) && m[j].ty != key),
        decreases n - i,
    {
        let e = mmap[i];
        assert(region_end(m[i as int]) <= u64::MAX);
        let end = e.phys_start + e.page_count * 4096;
        if page >= e.phys_start && page < end && e.ty != key {
            proof {
                lemma_holding_unique(m, page as int, key, i as int);
            }
            if e.page_count == 1 {
                mmap.set(i, MemoryDescriptor { ty: key, ..e });
                assert(mmap@ =~= remove_page_spec(m, page, key));
            } else if page == e.phys_start {
                mmap.set(
                    i,
                    MemoryDescriptor {
                        page_count: e.page_count - 1,
                        phys_start: e.phys_start + 4096,
                        ..e
                    },
                );
                let mut merged = false;
                if i > 0 {
                    let prev = mmap[i - 1];
                    assert(region_end(m[i - 1]) <= e.phys_start);
                    if prev.ty == key && prev.phys_start + prev.page_count * 4096 == page {
                        mmap.set(i - 1, MemoryDescriptor { page_count: prev.page_count + 1, ..prev });
                        merged = true;
                    }
                }
                if !merged {
                    mmap.insert(i, MemoryDescriptor { ty: key, phys_start: page, virt_start: 0, page_count: 1, att: e.att });
                }
                assert(mmap@ =~= remove_page_spec(m, page, key));
            } else if page + 4096 == end {
                mmap.set(i, MemoryDescriptor { page_count: e.page_count - 1, ..e });
                let mut merged = false;
                if i + 1 < n {
                    let next = mmap[i + 1];
                    if next.ty == key && next.phys_start == page + 4096 {
                        mmap.set(i + 1, MemoryDescriptor { phys_start: page, page_count: next.page_count + 1, ..next });
                        merged = true;
                    }
                }
                if !merged {
                    mmap.insert(i + 1, MemoryDescriptor { ty: key, phys_start: page, virt_start: 0, page_count: 1, att: e.att });
                }
                assert(mmap@ =~= remove_page_spec(m, page, key));
            } else {
                let new = (page - e.phys_start) / 4096;
                assert(new < e.page_count) by (nonlinear_arith)
                    requires
                        new == (page - e.phys_start) / 4096,
                        page < e.phys_start + e.page_count * 4096,
                        page >= e.phys_start,
                ;
                mmap.set(i, MemoryDescriptor { page_count: new, ..e });
                mmap.insert(i + 1, MemoryDescriptor { ty: key, phys_start: page, virt_start: 0, page_count: 1, att: e.att });
                let len = mmap.len();
                assert(i + 2 <= len);
                mmap.insert(
                    i + 2,
                    MemoryDescriptor {
                        ty: e.ty,
                        phys_start: page + 4096,
                        virt_start: 0,
                        page_count: e.page_count - new - 1,
                        att: e.att,
                    },
                );
                assert(mmap@ =~= remove_page_spec(m, page, key));
            }
            return;
        }
        i += 1;
    }
}

/// Regions `lo..hi` of a map replaced by others.
pub open spec fn splice(m: Seq<MemoryDescriptor>, lo: int, hi: int, rs: Seq<MemoryDescriptor>) -> Seq<
    MemoryDescriptor,
> {
    m.take(lo) + rs + m.skip(hi)
}

/// An address with no region that holds it has no type.
proof fn lemma_type_at_none(m: Seq<MemoryDescriptor>, a: int)
    requires
        forall|j: int| 0 <= j < m.len() ==> !covers(#[trigger] m[j], a),
    ensures
        type_at(m, a) is None,
{
}

/// Replacing regions `lo..hi` of an ordered map by ordered regions that lie
/// within the span of the replaced ones keeps the map ordered; inside the
/// span the types are those of the new regions, outside it nothing changes.
proof fn lemma_splice(m: Seq<MemoryDescriptor>, lo: int, hi: int, rs: Seq<MemoryDescriptor>)
    requires
        map_wf(m),
        map_wf(rs),
        0 <= lo < hi <= m.len(),
        rs.len() > 0,
        m[lo].phys_start <= rs[0].phys_start,
        region_end(rs.last()) <= region_end(m[hi - 1]),
    ensures
        map_wf(splice(m, lo, hi, rs)),
        forall|a: int|
            #![trigger type_at(splice(m, lo, hi, rs), a)]
            m[lo].phys_start <= a < region_end(m[hi - 1]) ==> type_at(splice(m, lo, hi, rs), a)
                == type_at(rs, a),
        forall|a: int|
            #![trigger type_at(splice(m, lo, hi, rs), a)]
            !(m[lo].phys_start <= a < region_end(m[hi - 1])) ==> type_at(splice(m, lo, hi, rs), a)
                == type_at(m, a),
{
    let s = splice(m, lo, hi, rs);
    let d = rs.len();
    let ws = m[lo].phys_start as int;
    let we = region_end(m[hi - 1]);
    assert(s.len() == lo + d + m.len() - hi);
    assert forall|j: int| 0 <= j < s.len() implies #[trigger] s[j] == if j < lo {
        m[j]
    } else if j < lo + d {
        rs[j - lo]
    } else {
        m[j - lo - d + hi]
    } by {}
    // Every new region lies within the span, and so does every replaced one.
    assert forall|x: int| 0 <= x < d implies ws <= (#[trigger] rs[x]).phys_start && region_end(
        rs[x],
    ) <= we by {
        if x > 0 {
            assert(region_end(rs[0]) <= rs[x].phys_start);
        }
        if x < d - 1 {
            assert(region_end(rs[x]) <= rs[d - 1].phys_start);
        }
    }
    assert forall|x: int| lo <= x < hi implies ws <= (#[trigger] m[x]).phys_start && region_end(
        m[x],
    ) <= we by {
        if x > lo {
            assert(region_end(m[lo]) <= m[x].phys_start);
        }
        if x < hi - 1 {
            assert(region_end(m[x]) <= m[hi - 1].phys_start);
        }
    }
    assert forall|x: int| 0 <= x < lo implies region_end(#[trigger] m[x]) <= ws by {}
    assert forall|x: int| hi <= x < m.len() implies we <= (#[trigger] m[x]).phys_start by {}
    assert(map_wf(s)) by {
        assert forall|i: int, j: int| 0 <= i < j < s.len() implies region_end(s[i])
            <= s[j].phys_start by {
            if i < lo {
                if j >= lo && j < lo + d {
                    assert(rs[j - lo].phys_start >= ws);
                } else if j >= lo + d {
                    assert(m[j - lo - d + hi].phys_start >= we);
                }
            } else if i < lo + d {
                if j < lo + d {
                } else {
                    assert(m[j - lo - d + hi].phys_start >= we);
                }
            }
        }
    }
    assert forall|a: int| ws <= a < we implies #[trigger] type_at(s, a) == type_at(rs, a) by {
        if exists|x: int| 0 <= x < d && covers(rs[x], a) {
            let x = choose|x: int| 0 <= x < d && covers(rs[x], a);
            lemma_type_at_index(rs, x, a);
            lemma_type_at_index(s, lo + x, a);
        } else {
            assert forall|j: int| 0 <= j < s.len() implies !covers(#[trigger] s[j], a) by {
                if lo <= j < lo + d {
                    assert(!covers(rs[j - lo], a));
                }
            }
            lemma_type_at_none(s, a);
        }
    }
    assert forall|a: int| !(ws <= a < we) implies #[trigger] type_at(s, a) == type_at(m, a) by {
        if exists|x: int| 0 <= x < m.len() && covers(m[x], a) {
            let x = choose|x: int| 0 <= x < m.len() && covers(m[x], a);
            lemma_type_at_index(m, x, a);
            if x < lo {
                lemma_type_at_index(s, x, a);
            } else if x >= hi {
                lemma_type_at_index(s, x - hi + lo + d, a);
            } else {
                assert(false);
            }
        } else {
            assert forall|j: int| 0 <= j < s.len() implies !covers(#[trigger] s[j], a) by {
                if j < lo {
                    assert(!covers(m[j], a));
                } else if j >= lo + d {
                    assert(!covers(m[j - lo - d + hi], a));
                }
            }
            lemma_type_at_none(s, a);
        }
    }
}

/// The map `r` is `m` with the addresses of the page at `page` given the
/// type `key`, in order.
pub open spec fn carved(m: Seq<MemoryDescriptor>, r: Seq<MemoryDescriptor>, page: u64, key: u32) -> bool {
    &&& map_wf(r)
    &&& forall|a: int|
        #![trigger type_at(r, a)]
        type_at(r, a) == if page <= a < page + 4096 && type_at(m, a) == Some(CONVENTIONAL) {
            Some(key)
        } else {
            type_at(m, a)
        }
}

/// What the branches of the carving share: the page lies in region `i`,
/// which is conventional.
pub open spec fn carving_at(m: Seq<MemoryDescriptor>, page: u64, key: u32, i: int) -> bool {
    &&& map_wf(m)
    &&& page % 4096 == 0
    &&& key != CONVENTIONAL
    &&& 0 <= i < m.len()
    &&& covers(m[i], page as int)
    &&& m[i].ty == CONVENTIONAL
    &&& page + 4096 <= region_end(m[i])
    &&& page_in_use(m, page as int, key)
    &&& holding_region(m, page as int, key) == i
}

/// Splicing in regions that agree with the carving inside their span
/// gives the carving.
proof fn lemma_splice_carves(
    m: Seq<MemoryDescriptor>,
    lo: int,
    hi: int,
    rs: Seq<MemoryDescriptor>,
    page: u64,
    key: u32,
)
    requires
        map_wf(m),
        map_wf(rs),
        0 <= lo < hi <= m.len(),
        rs.len() > 0,
        m[lo].phys_start <= rs[0].phys_start,
        region_end(rs.last()) <= region_end(m[hi - 1]),
        m[lo].phys_start <= page,
        page + 4096 <= region_end(m[hi - 1]),
        forall|a: int| page <= a < page + 4096 ==> #[trigger] type_at(m, a) == Some(CONVENTIONAL),
        forall|a: int|
            m[lo].phys_start <= a < region_end(m[hi - 1]) ==> #[trigger] type_at(rs, a) == if page
                <= a < page + 4096 {
                Some(key)
            } else {
                type_at(m, a)
            },
    ensures
        carved(m, splice(m, lo, hi, rs), page, key),
{
    lemma_splice(m, lo, hi, rs);
}

proof fn lemma_carve_single(m: Seq<MemoryDescriptor>, page: u64, key: u32, i: int)
    requires
        carving_at(m, page, key, i),
        m[i].page_count == 1,
    ensures
        carved(m, remove_page_spec(m, page, key), page, key),
{
    let e = m[i];
    assert forall|a: int| page <= a < page + 4096 implies #[trigger] type_at(m, a) == Some(
        CONVENTIONAL,
    ) by {
        lemma_type_at_index(m, i, a);
    }
    let rs = seq![MemoryDescriptor { ty: key, ..e }];
    assert(remove_page_spec(m, page, key) =~= splice(m, i, i + 1, rs));
    assert forall|a: int| e.phys_start <= a < region_end(e) implies #[trigger] type_at(rs, a) == (
    if page <= a < page + 4096 {
        Some(key)
    } else {
        type_at(m, a)
    }) by {
        lemma_type_at_index(rs, 0, a);
    }
    lemma_splice_carves(m, i, i + 1, rs, page, key);
}

proof fn lemma_carve_front(m: Seq<MemoryDescriptor>, page: u64, key: u32, i: int)
    requires
        carving_at(m, page, key, i),
        m[i].page_count != 1,
        page == m[i].phys_start,
    ensures
        carved(m, remove_page_spec(m, page, key), page, key),
{
    let e = m[i];
    assert forall|a: int| page <= a < page + 4096 implies #[trigger] type_at(m, a) == Some(
        CONVENTIONAL,
    ) by {
        lemma_type_at_index(m, i, a);
    }
    let end = region_end(e);
    let e2 = MemoryDescriptor {
        page_count: (e.page_count - 1) as u64,
        phys_start: (e.phys_start + 4096) as u64,
        ..e
    };
    if i > 0 && m[i - 1].ty == key && region_end(m[i - 1]) == page {
        let p = m[i - 1];
        let p2 = MemoryDescriptor { page_count: (p.page_count + 1) as u64, ..p };
        let rs = seq![p2, e2];
        assert(remove_page_spec(m, page, key) =~= splice(m, i - 1, i + 1, rs));
        assert forall|a: int| p.phys_start <= a < end implies #[trigger] type_at(rs, a) == (if page
            <= a < page + 4096 {
            Some(key)
        } else {
            type_at(m, a)
        }) by {
            if a < page {
                lemma_type_at_index(rs, 0, a);
                lemma_type_at_index(m, i - 1, a);
            } else if a < page + 4096 {
                lemma_type_at_index(rs, 0, a);
            } else {
                lemma_type_at_index(rs, 1, a);
                lemma_type_at_index(m, i, a);
            }
        }
        lemma_splice_carves(m, i - 1, i + 1, rs, page, key);
    } else {
        let rs = seq![key_page(page, key, e.att), e2];
        assert(remove_page_spec(m, page, key) =~= splice(m, i, i + 1, rs));
        assert forall|a: int| page <= a < end implies #[trigger] type_at(rs, a) == (if page <= a
            < page + 4096 {
            Some(key)
        } else {
            type_at(m, a)
        }) by {
            if a < page + 4096 {
                lemma_type_at_index(rs, 0, a);
            } else {
                lemma_type_at_index(rs, 1, a);
                lemma_type_at_index(m, i, a);
            }
        }
        lemma_splice_carves(m, i, i + 1, rs, page, key);
    }
}

proof fn lemma_carve_back(m: Seq<MemoryDescriptor>, page: u64, key: u32, i: int)
    requires
        carving_at(m, page, key, i),
        m[i].page_count != 1,
        page != m[i].phys_start,
        page + 4096 == region_end(m[i]),
    ensures
        carved(m, remove_page_spec(m, page, key), page, key),
{
    let e = m[i];
    assert forall|a: int| page <= a < page + 4096 implies #[trigger] type_at(m, a) == Some(
        CONVENTIONAL,
    ) by {
        lemma_type_at_index(m, i, a);
    }
    let start = e.phys_start as int;
    let end = region_end(e);
    let e1 = MemoryDescriptor { page_count: (e.page_count - 1) as u64, ..e };
    if i + 1 < m.len() && m[i + 1].ty == key && m[i + 1].phys_start == page + 4096 {
        let n = m[i + 1];
        let n2 = MemoryDescriptor { phys_start: page, page_count: (n.page_count + 1) as u64, ..n };
        let rs = seq![e1, n2];
        assert(remove_page_spec(m, page, key) =~= splice(m, i, i + 2, rs));
        assert forall|a: int| start <= a < region_end(n) implies #[trigger] type_at(rs, a) == (
        if page <= a < page + 4096 {
            Some(key)
        } else {
            type_at(m, a)
        }) by {
            if a < page {
                lemma_type_at_index(rs, 0, a);
                lemma_type_at_index(m, i, a);
            } else if a < page + 4096 {
                lemma_type_at_index(rs, 1, a);
            } else {
                lemma_type_at_index(rs, 1, a);
                lemma_type_at_index(m, i + 1, a);
            }
        }
        lemma_splice_carves(m, i, i + 2, rs, page, key);
    } else {
        let rs = seq![e1, key_page(page, key, e.att)];
        assert(remove_page_spec(m, page, key) =~= splice(m, i, i + 1, rs));
        assert forall|a: int| start <= a < end implies #[trigger] type_at(rs, a) == (if page <= a
            < page + 4096 {
            Some(key)
        } else {
            type_at(m, a)
        }) by {
            if a < page {
                lemma_type_at_index(rs, 0, a);
                lemma_type_at_index(m, i, a);
            } else {
                lemma_type_at_index(rs, 1, a);
            }
        }
        lemma_splice_carves(m, i, i + 1, rs, page, key);
    }
}

proof fn lemma_carve_middle(m: Seq<MemoryDescriptor>, page: u64, key: u32, i: int)
    requires
        carving_at(m, page, key, i),
        m[i].page_count != 1,
        page != m[i].phys_start,
        page + 4096 != region_end(m[i]),
    ensures
        carved(m, remove_page_spec(m, page, key), page, key),
{
    let e = m[i];
    assert forall|a: int| page <= a < page + 4096 implies #[trigger] type_at(m, a) == Some(
        CONVENTIONAL,
    ) by {
        lemma_type_at_index(m, i, a);
    }
    let start = e.phys_start as int;
    let end = region_end(e);
    let new = ((page - e.phys_start) / 4096) as u64;
    assert(new * 4096 == page - start && new < e.page_count) by (nonlinear_arith)
        requires
            page % 4096 == 0,
            start % 4096 == 0,
            start <= page,
            page + 4096 <= start + e.page_count * 4096,
            new == (page - start) / 4096,
    ;
    let e1 = MemoryDescriptor { page_count: new, ..e };
    let e3 = MemoryDescriptor {
        ty: e.ty,
        phys_start: (page + 4096) as u64,
        virt_start: 0,
        page_count: (e.page_count - new - 1) as u64,
        att: e.att,
    };
    let rs = seq![e1, key_page(page, key, e.att), e3];
    assert(remove_page_spec(m, page, key) =~= splice(m, i, i + 1, rs));
    assert forall|a: int| start <= a < end implies #[trigger] type_at(rs, a) == (if page <= a
        < page + 4096 {
        Some(key)
    } else {
        type_at(m, a)
    }) by {
        if a < page {
            lemma_type_at_index(rs, 0, a);
            lemma_type_at_index(m, i, a);
        } else if a < page + 4096 {
            lemma_type_at_index(rs, 1, a);
        } else {
            lemma_type_at_index(rs, 2, a);
            lemma_type_at_index(m, i, a);
        }
    }
    lemma_splice_carves(m, i, i + 1, rs, page, key);
}

/// A page-aligned region that holds an address holds the whole page of
/// that address.
proof fn lemma_page_within(r: MemoryDescriptor, page: int, a: int)
    requires
        r.phys_start % 4096 == 0,
        page % 4096 == 0,
        page <= a < page + 4096,
        covers(r, a),
    ensures
        covers(r, page),
        page + 4096 <= region_end(r),
{
    let s = r.phys_start as int;
    let c = r.page_count as int;
    assert(s <= page && page + 4096 <= s + c * 4096) by (nonlinear_arith)
        requires
            s % 4096 == 0,
            page % 4096 == 0,
            page <= a < page + 4096,
            s <= a < s + c * 4096,
    ;
}

/// Giving a page the type `key` keeps the map ordered and changes the
/// type of that page's addresses from conventional to `key`, and of no
/// other address: pages already of type `key`, or in no region, stay as
/// they were.
pub proof fn lemma_remove_page_types(m: Seq<MemoryDescriptor>, page: u64, key: u32)
    requires
        map_wf(m),
        page % 4096 == 0,
        key != CONVENTIONAL,
        carvable(m, page as int, key),
    ensures
        carved(m, remove_page_spec(m, page, key), page, key),
{
    lemma_carvable(m, page as int, key);
    if !page_in_use(m, page as int, key) {
        assert forall|a: int| page <= a < page + 4096 implies type_at(m, a) != Some(
            CONVENTIONAL,
        ) by {
            if exists|j: int| 0 <= j < m.len() && covers(m[j], a) {
                let j = choose|j: int| 0 <= j < m.len() && covers(m[j], a);
                lemma_type_at_index(m, j, a);
                lemma_page_within(m[j], page as int, a);
                if m[j].ty == CONVENTIONAL {
                    assert(page_in_use(m, page as int, key));
                }
            }
        }
        return;
    }
    let i = holding_region(m, page as int, key);
    let e = m[i];
    lemma_type_at_index(m, i, page as int);
    lemma_page_within(e, page as int, page as int);
    assert(carving_at(m, page, key, i));
    if e.page_count == 1 {
        lemma_carve_single(m, page, key, i);
    } else if page == e.phys_start {
        lemma_carve_front(m, page, key, i);
    } else if page + 4096 == region_end(e) {
        lemma_carve_back(m, page, key, i);
    } else {
        lemma_carve_middle(m, page, key, i);
    }
}

/// The map `r` is `m` with the addresses of `count` pages from `page` that
/// were conventional given the type `key`, in order.
pub open spec fn carved_range(
    m: Seq<MemoryDescriptor>,
    r: Seq<MemoryDescriptor>,
    page: u64,
    count: int,
    key: u32,
) -> bool {
    &&& map_wf(r)
    &&& forall|a: int|
        #![trigger type_at(r, a)]
        type_at(r, a) == if page <= a < page + count * 4096 && type_at(m, a) == Some(
            CONVENTIONAL,
        ) {
            Some(key)
        } else {
            type_at(m, a)
        }
}

/// Gives `count` pages from `page` the type `key`, one after another.
pub fn remove_pages(mmap: &mut Vec<MemoryDescriptor>, page: u64, count: u64, key: u32)
    requires
        map_wf(old(mmap)@),
        page % 4096 == 0,
        key != CONVENTIONAL,
        page + count * 4096 <= u64::MAX,
        forall|x: int| 0 <= x < count ==> #[trigger] carvable(old(mmap)@, page + x * 4096, key),
    ensures
        carved_range(old(mmap)@, final(mmap)@, page, count as int, key),
{
    let ghost m = mmap@;
    let mut x: u64 = 0;
    while x < count
        invariant
            m == old(mmap)@,
            map_wf(m),
            page % 4096 == 0,
            key != CONVENTIONAL,
            page + count * 4096 <= u64::MAX,
            forall|y: int| 0 <= y < count ==> #[trigger] carvable(m, page + y * 4096, key),
            x <= count,
            carved_range(m, mmap@, page, x as int, key),
        decreases count - x,
    {
        let ghost before = mmap@;
        let p = page + x * 4096;
        assert(carvable(m, page + x * 4096, key));
        assert(type_at(before, p as int) == type_at(m, p as int));
        assert(p % 4096 == 0) by (nonlinear_arith)
            requires
                p == page + x * 4096,
                page % 4096 == 0,
        ;
        remove_page(mmap, p, key);
        assert forall|a: int| #![trigger type_at(mmap@, a)]
            type_at(mmap@, a) == if page <= a < page + (x + 1) * 4096 && type_at(m, a) == Some(
                CONVENTIONAL,
            ) {
                Some(key)
            } else {
                type_at(m, a)
            } by {
            assert(type_at(mmap@, a) == if p <= a < p + 4096 && type_at(before, a) == Some(
                CONVENTIONAL,
            ) {
                Some(key)
            } else {
                type_at(before, a)
            });
        }
        x += 1;
    }
}

/// The type the new map gives to memory taken for the new kernel: one past
/// the largest type in use, and above the firmware's reserved range.
pub fn memory_key(types: &[u32]) -> (k: u32)
    requires
        types@.len() > 0,
        forall|i: int| 0 <= i < types@.len() ==> types@[i] < u32::MAX,
    ensures
        k > 0x80000000,
        forall|i: int| 0 <= i < types@.len() ==> types@[i] < k,
        k - 1 == 0x80000000 || exists|i: int| 0 <= i < types@.len() && types@[i] == k - 1,
{
    let mut max: u32 = types[0];
    let mut i: usize = 1;
    while i < types.len()
        invariant
            1 <= i <= types@.len(),
            forall|j: int| 0 <= j < i ==> types@[j] <= max,
            exists|j: int| 0 <= j < i && types@[j] == max,
            forall|j: int| 0 <= j < types@.len() ==> types@[j] < u32::MAX,
        decreases types.len() - i,
    {
        if types[i] > max {
            max = types[i];
        }
        i += 1;
    }
    if max < 0x80000000 {
        max = 0x80000000;
    }
    max + 1
}

/// The pages the new map needs, with one to spare in case taking them
/// adds regions: the map's bytes rounded up to pages, plus one.
pub fn mmap_buffer_pages(len: usize, entry_size: usize) -> (p: usize)
    requires
        len * entry_size + 4095 <= usize::MAX,
    ensures
        p == (len * entry_size + 4095) / 4096 + 1,
{
    let bytes = len * entry_size;
    let pages = bytes / 4096 + if bytes % 4096 == 0 {
        0
    } else {
        1
    };
    assert(pages == (bytes + 4095) / 4096);
    pages + 1
}

} // verus!