//! The kernel's slab allocator: small requests are served from per-size free
//! lists carved out of whole pages, large ones from whole pages.
use vstd::prelude::*;

verus! {

/// Number of block sizes.
pub const SLAB_CLASSES: usize = 9;

/// Size of a page.
pub const PAGE_SIZE: u64 = 0x1000;

/// The block size of each class: 8, 16, ..., 2048 bytes.
pub open spec fn slab_size(i: int) -> int {
    if i == 0 {
        8
    } else if i == 1 {
        16
    } else if i == 2 {
        32
    } else if i == 3 {
        64
    } else if i == 4 {
        128
    } else if i == 5 {
        256
    } else if i == 6 {
        512
    } else if i == 7 {
        1024
    } else {
        2048
    }
}

/// The smallest class whose blocks hold `min_size` bytes, if any.
pub open spec fn spec_block_class(min_size: int) -> Option<int> {
    if min_size <= 8 {
        Some(0)
    } else if min_size <= 16 {
        Some(1)
    } else if min_size <= 32 {
        Some(2)
    } else if min_size <= 64 {
        Some(3)
    } else if min_size <= 128 {
        Some(4)
    } else if min_size <= 256 {
        Some(5)
    } else if min_size <= 512 {
        Some(6)
    } else if min_size <= 1024 {
        Some(7)
    } else if min_size <= 2048 {
        Some(8)
    } else {
        None
    }
}

/// The block size of class `i`.
pub fn slab_size_of(i: usize) -> (s: usize)
    requires
        i < SLAB_CLASSES,
    ensures
        s == slab_size(i as int),
{
    let sizes: [usize; 9] = [8, 16, 32, 64, 128, 256, 512, 1024, 2048];
    sizes[i]
}

/// The index of the smallest block size that holds `min_size` bytes.
pub fn block_size(min_size: usize) -> (r: Option<usize>)
    ensures
        match spec_block_class(min_size as int) {
            Some(i) => r == Some(i as usize),
            None => r is None,
        },
        r matches Some(i) ==> i < SLAB_CLASSES && slab_size(i as int) >= min_size && (i == 0
            || slab_size(i - 1) < min_size),
{
    let mut i: usize = 0;
    while i < SLAB_CLASSES
        invariant
            0 <= i <= SLAB_CLASSES,
            forall|j: int| 0 <= j < i ==> slab_size(j) < min_size,
        decreases SLAB_CLASSES - i,
    {
        if slab_size_of(i) >= min_size {
            assert(i == 0 || slab_size(i - 1) < min_size);
            assert(i == 0 || i == 1 || i == 2 || i == 3 || i == 4 || i == 5 || i == 6 || i == 7
                || i == 8);
            return Some(i);
        }
        i = i + 1;
    }
    assert(slab_size(8) < min_size);
    None
}

/// The request size rounded up to whole pages.
pub open spec fn page_round(size: int) -> int {
    (size + 0xFFF) / 0x1000 * 0x1000
}

/// What the caller must do for an allocation or release: map fresh pages
/// at an address, unmap pages (freeing their frames), or nothing.
#[derive(Clone, Copy, Debug, PartialEq, Eq, Structural)]
pub enum PageAction {
    NoChange,
    MapPages { base: u64, pages: u64 },
    UnmapPages { base: u64, pages: u64 },
}

/// The address of an allocated block and the pages to map for it.
#[derive(Clone, Copy, Debug, PartialEq, Eq, Structural)]
pub struct Allocation {
    pub ptr: u64,
    pub action: PageAction,
}

/// The free lists after the head block of class `i` is handed out.
pub open spec fn lists_after_take(l: Seq<Seq<u64>>, i: int) -> Seq<Seq<u64>> {
    l.update(i, l[i].drop_last())
}

/// The free lists after block `ptr` of class `i` is given back.
pub open spec fn lists_after_return(l: Seq<Seq<u64>>, i: int, ptr: u64) -> Seq<Seq<u64>> {
    l.update(i, l[i].push(ptr))
}

/// Whether the byte ranges `[a, a + asize)` and `[b, b + bsize)` do not
/// overlap.
pub open spec fn apart(a: int, asize: int, b: int, bsize: int) -> bool {
    a + asize <= b || b + bsize <= a
}

/// Whether the block `[p, p + size)` overlaps no free block.
pub open spec fn apart_from_free(l: Seq<Seq<u64>>, p: int, size: int) -> bool {
    forall|k: int, m: int|
        0 <= k < SLAB_CLASSES && 0 <= m < l[k].len() ==> apart(
            p,
            size,
            #[trigger] l[k][m] as int,
            slab_size(k),
        )
}

/// The free-list invariant: one list per class; every free block of a
/// class lies below the next unused address `base` and sits at the same
/// offset modulo its size as `base` does (so with a page-aligned `base`
/// every block is aligned to its size); no two free blocks overlap, and no
/// address is free twice.
pub open spec fn lists_wf(l: Seq<Seq<u64>>, base: int) -> bool {
    &&& l.len() == SLAB_CLASSES
    &&& forall|i: int, j: int|
        0 <= i < SLAB_CLASSES && 0 <= j < l[i].len() ==> #[trigger] l[i][j] + slab_size(i) <= base
            && (l[i][j] as int) % slab_size(i) == base % slab_size(i)
    &&& forall|i: int, j: int, k: int, m: int|
        0 <= i < SLAB_CLASSES && 0 <= j < l[i].len() && 0 <= k < SLAB_CLASSES && 0 <= m
            < l[k].len() && !(i == k && j == m) ==> apart(
            #[trigger] l[i][j] as int,
            slab_size(i),
            #[trigger] l[k][m] as int,
            slab_size(k),
        )
}

/// Moving the next unused address on by whole pages keeps every class's
/// offset modulo its block size.
proof fn lemma_page_shift(base: int, p: int, i: int)
    requires
        p % 4096 == 0,
        0 <= i < SLAB_CLASSES,
    ensures
        (base + p) % slab_size(i) == base % slab_size(i),
{
    let bs = slab_size(i);
    let q = p / 4096;
    assert(p == 4096 * q);
    let k = (4096int / bs) * q;
    assert(p == bs * k) by {
        let sizes = seq![8int, 16, 32, 64, 128, 256, 512, 1024, 2048];
        assert(bs == sizes[i]);
        assert(k == (4096int / sizes[i]) * q);
        if i == 0 {
            assert(k == 512 * q);
        } else if i == 1 {
            assert(k == 256 * q);
        } else if i == 2 {
            assert(k == 128 * q);
        } else if i == 3 {
            assert(k == 64 * q);
        } else if i == 4 {
            assert(k == 32 * q);
        } else if i == 5 {
            assert(k == 16 * q);
        } else if i == 6 {
            assert(k == 8 * q);
        } else if i == 7 {
            assert(k == 4 * q);
        } else {
            assert(k == 2 * q);
        }
    }
    vstd::arithmetic::div_mod::lemma_mod_multiples_vanish(k, base, bs);
}

/// Whether an address is on some free list.
pub open spec fn in_lists(l: Seq<Seq<u64>>, p: u64) -> bool {
    exists|i: int, j: int| 0 <= i < SLAB_CLASSES && 0 <= j < l[i].len() && #[trigger] l[i][j] == p
}

/// Cutting a fresh page at `base` into blocks of class `index`, listing all
/// but the last, keeps the invariant with the next unused address one page
/// further; the last block is on no list, overlaps no free block, and sits
/// at `base`'s offset modulo its size.
proof fn lemma_fresh_page(o: Seq<Seq<u64>>, base: int, index: int, list: Seq<u64>, block: int)
    requires
        lists_wf(o, base),
        0 <= index < SLAB_CLASSES,
        o[index].len() == 0,
        base + 4096 <= u64::MAX,
        block == base + 4096 - slab_size(index),
        list.len() * slab_size(index) == block - base,
        forall|j: int| 0 <= j < list.len() ==> list[j] == base + j * slab_size(index),
    ensures
        lists_wf(o.update(index, list), base + 4096),
        !in_lists(o.update(index, list), block as u64),
        apart_from_free(o.update(index, list), block, slab_size(index)),
        block % slab_size(index) == base % slab_size(index),
{
    let n = o.update(index, list);
    let bs = slab_size(index);
    assert forall|j: int| 0 <= j < list.len() implies list[j] + bs <= block by {
        assert(j * bs + bs <= list.len() * bs) by (nonlinear_arith)
            requires
                0 <= j < list.len(),
                bs > 0,
        ;
    }
    assert forall|j: int| 0 <= j < list.len() implies list[j] >= base by {
        assert(j * bs >= 0) by (nonlinear_arith)
            requires
                j >= 0,
                bs > 0,
        ;
    }
    assert forall|i: int, j: int|
        0 <= i < SLAB_CLASSES && 0 <= j < n[i].len() implies #[trigger] n[i][j] + slab_size(i)
        <= base + 4096 && (n[i][j] as int) % slab_size(i) == (base + 4096) % slab_size(i) by {
        lemma_page_shift(base, 4096, i);
        if i != index {
            assert(n[i][j] == o[i][j]);
        } else {
            vstd::arithmetic::div_mod::lemma_mod_multiples_vanish(j, base, bs);
            assert(j * bs == bs * j) by (nonlinear_arith);
        }
    }
    assert forall|i: int, j: int, k: int, m: int|
        0 <= i < SLAB_CLASSES && 0 <= j < n[i].len() && 0 <= k < SLAB_CLASSES && 0 <= m
            < n[k].len() && !(i == k && j == m) implies apart(
        #[trigger] n[i][j] as int,
        slab_size(i),
        #[trigger] n[k][m] as int,
        slab_size(k),
    ) by {
        if i == index && k == index {
            if j < m {
                assert(j * bs + bs <= m * bs) by (nonlinear_arith)
                    requires
                        j < m,
                        bs > 0,
                ;
            } else {
                assert(m * bs + bs <= j * bs) by (nonlinear_arith)
                    requires
                        m < j,
                        bs > 0,
                ;
            }
        } else if i == index {
            assert(n[k][m] == o[k][m]);
        } else if k == index {
            assert(n[i][j] == o[i][j]);
        } else {
            assert(n[i][j] == o[i][j] && n[k][m] == o[k][m]);
        }
    }
    assert forall|k: int, m: int| 0 <= k < SLAB_CLASSES && 0 <= m < n[k].len() implies apart(
        block,
        bs,
        #[trigger] n[k][m] as int,
        slab_size(k),
    ) by {
        if k != index {
            assert(n[k][m] == o[k][m]);
        }
    }
    if in_lists(n, block as u64) {
        let (i, j) = choose|i: int, j: int|
            0 <= i < SLAB_CLASSES && 0 <= j < n[i].len() && #[trigger] n[i][j] == block as u64;
        if i == index {
            assert(list[j] + bs <= block);
        } else {
            assert(o[i][j] + slab_size(i) <= base);
        }
    }
    lemma_page_shift(base, 4096, index);
    vstd::arithmetic::div_mod::lemma_mod_multiples_vanish(1, base + 4096 - bs, bs);
    assert(bs * 1 + (base + 4096 - bs) == base + 4096);
}

/// Whether `s` is the block size of some class.
pub open spec fn is_slab_size(s: int) -> bool {
    s == 8 || s == 16 || s == 32 || s == 64 || s == 128 || s == 256 || s == 512 || s == 1024 || s
        == 2048
}

/// The class whose block size is `s`.
proof fn slab_class_of(s: int) -> (i: int)
    requires
        is_slab_size(s),
    ensures
        0 <= i < SLAB_CLASSES,
        slab_size(i) == s,
{
    if s == 8 {
        0
    } else if s == 16 {
        1
    } else if s == 32 {
        2
    } else if s == 64 {
        3
    } else if s == 128 {
        4
    } else if s == 256 {
        5
    } else if s == 512 {
        6
    } else if s == 1024 {
        7
    } else {
        8
    }
}

/// The bytes a request of `min_size` bytes takes: the block size of its
/// class, or whole pages when no class holds it.
pub open spec fn block_bytes(min_size: int) -> int {
    match spec_block_class(min_size) {
        Some(i) => slab_size(i),
        None => page_round(min_size),
    }
}

/// The invariant of the blocks handed out (`live`, by address, with their
/// sizes) against the free lists `l` and the next unused address `base`:
/// each lies below `base`, overlaps no free block and no other handed-out
/// block, and a block of a class sits at `base`'s offset modulo its size.
pub open spec fn live_wf(l: Seq<Seq<u64>>, live: Map<u64, int>, base: int) -> bool {
    &&& forall|p: u64|
        #[trigger] live.dom().contains(p) ==> live[p] > 0 && p + live[p] <= base
            && apart_from_free(l, p as int, live[p]) && (is_slab_size(live[p]) ==> (p as int)
            % live[p] == base % live[p])
    &&& forall|p: u64, q: u64|
        #[trigger] live.dom().contains(p) && #[trigger] live.dom().contains(q) && p != q ==> apart(
            p as int,
            live[p],
            q as int,
            live[q],
        )
}

/// Handing out the head of a non-empty free list keeps the invariant of the
/// handed-out blocks; the block was not handed out before and overlaps none
/// that was.
proof fn lemma_live_take(o: Seq<Seq<u64>>, live: Map<u64, int>, base: int, i: int)
    requires
        lists_wf(o, base),
        live_wf(o, live, base),
        0 <= i < SLAB_CLASSES,
        o[i].len() > 0,
    ensures
        !live.dom().contains(o[i].last()),
        forall|q: u64|
            #[trigger] live.dom().contains(q) ==> apart(
                o[i].last() as int,
                slab_size(i),
                q as int,
                live[q],
            ),
        live_wf(lists_after_take(o, i), live.insert(o[i].last(), slab_size(i)), base),
{
    let n = lists_after_take(o, i);
    let node = o[i].last();
    let last = o[i].len() - 1;
    let bs = slab_size(i);
    let nl = live.insert(node, bs);
    assert(o[i][last] == node);
    assert forall|q: u64| #[trigger] live.dom().contains(q) implies apart(
        node as int,
        bs,
        q as int,
        live[q],
    ) by {
        assert(apart(q as int, live[q], o[i][last] as int, slab_size(i)));
    }
    if live.dom().contains(node) {
        assert(apart(node as int, bs, node as int, live[node]));
    }
    assert forall|k: int, m: int| 0 <= k < SLAB_CLASSES && 0 <= m < n[k].len() implies n[k][m]
        == o[k][m] && !(k == i && m == last) by {}
    assert forall|p: u64| #[trigger] nl.dom().contains(p) implies nl[p] > 0 && p + nl[p] <= base
        && apart_from_free(n, p as int, nl[p]) && (is_slab_size(nl[p]) ==> (p as int) % nl[p]
        == base % nl[p]) by {
        if p == node {
            assert(o[i][last] + slab_size(i) <= base);
            assert forall|k: int, m: int| 0 <= k < SLAB_CLASSES && 0 <= m < n[k].len() implies apart(
                p as int,
                nl[p],
                #[trigger] n[k][m] as int,
                slab_size(k),
            ) by {
                assert(apart(o[i][last] as int, slab_size(i), o[k][m] as int, slab_size(k)));
            }
        } else {
            assert(live.dom().contains(p));
            assert forall|k: int, m: int| 0 <= k < SLAB_CLASSES && 0 <= m < n[k].len() implies apart(
                p as int,
                nl[p],
                #[trigger] n[k][m] as int,
                slab_size(k),
            ) by {
                assert(apart(p as int, live[p], o[k][m] as int, slab_size(k)));
            }
        }
    }
    assert forall|p: u64, q: u64|
        #[trigger] nl.dom().contains(p) && #[trigger] nl.dom().contains(q) && p != q implies apart(
        p as int,
        nl[p],
        q as int,
        nl[q],
    ) by {
        if p == node {
            assert(live.dom().contains(q));
        } else if q == node {
            assert(live.dom().contains(p));
        } else {
            assert(live.dom().contains(p) && live.dom().contains(q));
        }
    }
}

/// Cutting a fresh page at `base` keeps the invariant of the handed-out
/// blocks, with the new block handed out; it overlaps none that was.
proof fn lemma_live_fresh(
    o: Seq<Seq<u64>>,
    live: Map<u64, int>,
    base: int,
    index: int,
    list: Seq<u64>,
    block: int,
)
    requires
        lists_wf(o, base),
        live_wf(o, live, base),
        0 <= index < SLAB_CLASSES,
        block == base + 4096 - slab_size(index),
        forall|j: int| 0 <= j < list.len() ==> list[j] == base + j * slab_size(index),
        apart_from_free(o.update(index, list), block, slab_size(index)),
        block % slab_size(index) == base % slab_size(index),
        0 <= block <= u64::MAX,
    ensures
        !live.dom().contains(block as u64),
        forall|q: u64|
            #[trigger] live.dom().contains(q) ==> apart(block, slab_size(index), q as int, live[q]),
        live_wf(o.update(index, list), live.insert(block as u64, slab_size(index)), base + 4096),
{
    let n = o.update(index, list);
    let bs = slab_size(index);
    let b = block as u64;
    let nl = live.insert(b, bs);
    assert forall|j: int| 0 <= j < list.len() implies list[j] >= base by {
        assert(j * bs >= 0) by (nonlinear_arith)
            requires
                j >= 0,
                bs > 0,
        ;
    }
    assert forall|p: u64| #[trigger] nl.dom().contains(p) implies nl[p] > 0 && p + nl[p] <= base
        + 4096 && apart_from_free(n, p as int, nl[p]) && (is_slab_size(nl[p]) ==> (p as int)
        % nl[p] == (base + 4096) % nl[p]) by {
        lemma_page_shift(base, 4096, index);
        if p == b {
        } else {
            assert(live.dom().contains(p));
            assert forall|k: int, m: int| 0 <= k < SLAB_CLASSES && 0 <= m < n[k].len() implies apart(
                p as int,
                nl[p],
                #[trigger] n[k][m] as int,
                slab_size(k),
            ) by {
                if k != index {
                    assert(n[k][m] == o[k][m]);
                    assert(apart(p as int, live[p], o[k][m] as int, slab_size(k)));
                }
            }
            if is_slab_size(live[p]) {
                let c = slab_class_of(live[p]);
                lemma_page_shift(base, 4096, c);
            }
        }
    }
    assert forall|p: u64, q: u64|
        #[trigger] nl.dom().contains(p) && #[trigger] nl.dom().contains(q) && p != q implies apart(
        p as int,
        nl[p],
        q as int,
        nl[q],
    ) by {
        if p == b {
            assert(live.dom().contains(q));
        } else if q == b {
            assert(live.dom().contains(p));
        } else {
            assert(live.dom().contains(p) && live.dom().contains(q));
        }
    }
}

/// Handing out whole pages at `base` keeps the invariant of the handed-out
/// blocks with the next unused address `len` bytes further; the pages
/// overlap no block handed out before.
proof fn lemma_live_large(o: Seq<Seq<u64>>, live: Map<u64, int>, base: int, len: int)
    requires
        lists_wf(o, base),
        live_wf(o, live, base),
        len % 4096 == 0,
        len >= 4096,
        0 <= base <= u64::MAX,
    ensures
        !live.dom().contains(base as u64),
        forall|q: u64| #[trigger] live.dom().contains(q) ==> apart(base, len, q as int, live[q]),
        live_wf(o, live.insert(base as u64, len), base + len),
{
    let b = base as u64;
    let nl = live.insert(b, len);
    assert forall|p: u64| #[trigger] nl.dom().contains(p) implies nl[p] > 0 && p + nl[p] <= base
        + len && apart_from_free(o, p as int, nl[p]) && (is_slab_size(nl[p]) ==> (p as int)
        % nl[p] == (base + len) % nl[p]) by {
        if p != b {
            assert(live.dom().contains(p));
            if is_slab_size(live[p]) {
                let c = slab_class_of(live[p]);
                lemma_page_shift(base, len, c);
            }
        }
    }
    assert forall|p: u64, q: u64|
        #[trigger] nl.dom().contains(p) && #[trigger] nl.dom().contains(q) && p != q implies apart(
        p as int,
        nl[p],
        q as int,
        nl[q],
    ) by {
        if p == b {
            assert(live.dom().contains(q));
        } else if q == b {
            assert(live.dom().contains(p));
        } else {
            assert(live.dom().contains(p) && live.dom().contains(q));
        }
    }
}

/// A handed-out block of class `i` lies below `base`, sits at `base`'s
/// offset modulo its size and overlaps no free block; putting it back on
/// its list keeps the invariant of the blocks still handed out.
proof fn lemma_live_return(o: Seq<Seq<u64>>, live: Map<u64, int>, base: int, i: int, ptr: u64)
    requires
        lists_wf(o, base),
        live_wf(o, live, base),
        0 <= i < SLAB_CLASSES,
        live.dom().contains(ptr),
        live[ptr] == slab_size(i),
    ensures
        ptr + slab_size(i) <= base,
        (ptr as int) % slab_size(i) == base % slab_size(i),
        apart_from_free(o, ptr as int, slab_size(i)),
        !in_lists(o, ptr),
        live_wf(lists_after_return(o, i, ptr), live.remove(ptr), base),
{
    let n = lists_after_return(o, i, ptr);
    let nl = live.remove(ptr);
    let last = o[i].len() as int;
    if in_lists(o, ptr) {
        let (k, m) = choose|k: int, m: int|
            0 <= k < SLAB_CLASSES && 0 <= m < o[k].len() && #[trigger] o[k][m] == ptr;
        assert(apart(ptr as int, live[ptr], o[k][m] as int, slab_size(k)));
    }
    assert forall|p: u64| #[trigger] nl.dom().contains(p) implies nl[p] > 0 && p + nl[p] <= base
        && apart_from_free(n, p as int, nl[p]) && (is_slab_size(nl[p]) ==> (p as int) % nl[p]
        == base % nl[p]) by {
        assert(live.dom().contains(p) && p != ptr);
        assert forall|k: int, m: int| 0 <= k < SLAB_CLASSES && 0 <= m < n[k].len() implies apart(
            p as int,
            nl[p],
            #[trigger] n[k][m] as int,
            slab_size(k),
        ) by {
            if k == i && m == last {
                assert(apart(p as int, live[p], ptr as int, live[ptr]));
            } else {
                assert(n[k][m] == o[k][m]);
                assert(apart(p as int, live[p], o[k][m] as int, slab_size(k)));
            }
        }
    }
    assert forall|p: u64, q: u64|
        #[trigger] nl.dom().contains(p) && #[trigger] nl.dom().contains(q) && p != q implies apart(
        p as int,
        nl[p],
        q as int,
        nl[q],
    ) by {
        assert(live.dom().contains(p) && live.dom().contains(q));
    }
}

/// A slab allocator: one free list per block size, and the next address of
/// its virtual range.
pub struct SlabAllocator {
    slab_heads: Vec<Vec<u64>>,
    base_address: u64,
    live: Ghost<Map<u64, int>>,
}

impl SlabAllocator {
    /// The free lists; the last element of each is its head.
    pub closed spec fn lists(&self) -> Seq<Seq<u64>> {
        Seq::new(self.slab_heads@.len(), |i: int| self.slab_heads@[i]@)
    }

    /// The next unused address of the allocator's range.
    pub closed spec fn base(&self) -> u64 {
        self.base_address
    }

    /// The blocks handed out and not given back, by address, with the
    /// bytes each takes.
    pub closed spec fn live(&self) -> Map<u64, int> {
        self.live@
    }

    /// The allocator's invariant (see `lists_wf` and `live_wf`).
    pub open spec fn wf(&self) -> bool {
        &&& lists_wf(self.lists(), self.base() as int)
        &&& live_wf(self.lists(), self.live(), self.base() as int)
    }

    /// Whether an address is on some free list.
    pub open spec fn is_free(&self, p: u64) -> bool {
        in_lists(self.lists(), p)
    }

    /// An allocator with empty free lists, starting at `base_address`.
    pub fn new(base_address: u64) -> (a: Self)
        ensures
            a.wf(),
            a.base() == base_address,
            forall|i: int| 0 <= i < SLAB_CLASSES ==> #[trigger] a.lists()[i].len() == 0,
            a.live() == Map::<u64, int>::empty(),
    {
        let mut heads: Vec<Vec<u64>> = Vec::new();
        let mut i: usize = 0;
        while i < SLAB_CLASSES
            invariant
                0 <= i <= SLAB_CLASSES,
                heads@.len() == i,
                forall|j: int| 0 <= j < i ==> (#[trigger] heads@[j])@.len() == 0,
            decreases SLAB_CLASSES - i,
        {
            heads.push(Vec::new());
            i = i + 1;
        }
        Self { slab_heads: heads, base_address, live: Ghost(Map::empty()) }
    }

    /// Serves a request of `size` bytes aligned to `align`. A request that
    /// fits a block class takes the head of that class's free list; when the
    /// list is empty a fresh page at the next unused address is cut into
    /// blocks, the last block is handed out and the others are listed, last
    /// but one at the head. A larger request takes whole pages at the next
    /// unused address.
    pub fn allocate(&mut self, size: usize, align: usize) -> (r: Allocation)
        requires
            old(self).wf(),
            match spec_block_class(if size < align { align as int } else { size as int }) {
                Some(i) => old(self).lists()[i].len() > 0 || old(self).base() + PAGE_SIZE
                    <= u64::MAX,
                None => old(self).base() + page_round(
                    if size < align { align as int } else { size as int },
                ) <= u64::MAX,
            },
        ensures
            final(self).wf(),
            (final(self).base() as int) % 4096 == (old(self).base() as int) % 4096,
            spec_block_class(if size < align { align as int } else { size as int }) matches Some(i)
                ==> {
                &&& apart_from_free(final(self).lists(), r.ptr as int, slab_size(i))
                &&& (r.ptr as int) % slab_size(i) == (old(self).base() as int) % slab_size(i)
                &&& r.ptr + slab_size(i) <= final(self).base()
            },
            !old(self).live().dom().contains(r.ptr),
            final(self).live() == old(self).live().insert(
                r.ptr,
                block_bytes(if size < align { align as int } else { size as int }),
            ),
            forall|q: u64|
                #[trigger] old(self).live().dom().contains(q) ==> apart(
                    r.ptr as int,
                    block_bytes(if size < align { align as int } else { size as int }),
                    q as int,
                    old(self).live()[q],
                ),
            ({
                let min_size = if size < align { align as int } else { size as int };
                let o = old(self).lists();
                let n = final(self).lists();
                match spec_block_class(min_size) {
                    Some(i) => if o[i].len() > 0 {
                        &&& r == Allocation { ptr: o[i].last(), action: PageAction::NoChange }
                        &&& n == lists_after_take(o, i)
                        &&& final(self).base() == old(self).base()
                    } else {
                        let base = old(self).base();
                        let bs = slab_size(i);
                        &&& r == Allocation {
                            ptr: (base + PAGE_SIZE - bs) as u64,
                            action: PageAction::MapPages { base, pages: 1 },
                        }
                        &&& n.len() == o.len()
                        &&& forall|k: int| 0 <= k < SLAB_CLASSES && k != i ==> n[k] == o[k]
                        &&& n[i].len() == 4096int / bs - 1
                        &&& forall|j: int| 0 <= j < n[i].len() ==> n[i][j] == base + j * bs
                        &&& final(self).base() == base + PAGE_SIZE
                    },
                    None => {
                        &&& r == Allocation {
                            ptr: old(self).base(),
                            action: PageAction::MapPages {
                                base: old(self).base(),
                                pages: (page_round(min_size) / 0x1000) as u64,
                            },
                        }
                        &&& n == o
                        &&& final(self).base() == old(self).base() + page_round(min_size)
                    },
                }
            }),
            !final(self).is_free(r.ptr),
    {
        let min_size = if size < align {
            align
        } else {
            size
        };
        let ghost o = self.lists();
        let ghost live = self.live@;
        let ghost b0 = self.base() as int;
        match block_size(min_size) {
            Some(index) => {
                let mut list = self.slab_heads.remove(index);
                if list.len() > 0 {
                    let ghost ol = list@;
                    let node = list.pop().unwrap();
                    self.slab_heads.insert(index, list);
                    proof {
                        let n = self.lists();
                        let last = ol.len() - 1;
                        let b = self.base() as int;
                        assert(n =~= o.update(index as int, ol.drop_last()));
                        assert(node == o[index as int][last]);
                        assert forall|i: int, j: int|
                            0 <= i < SLAB_CLASSES && 0 <= j < n[i].len() implies n[i][j] == o[i][j]
                            && !(i == index && j == last) by {}
                        assert forall|i: int, j: int|
                            0 <= i < SLAB_CLASSES && 0 <= j < n[i].len() implies #[trigger] n[i][j]
                            + slab_size(i) <= b && (n[i][j] as int) % slab_size(i) == b
                            % slab_size(i) by {
                            assert(o[i][j] == n[i][j]);
                        }
                        assert forall|i: int, j: int, k: int, m: int|
                            0 <= i < SLAB_CLASSES && 0 <= j < n[i].len() && 0 <= k < SLAB_CLASSES
                                && 0 <= m < n[k].len() && !(i == k && j == m) implies apart(
                            #[trigger] n[i][j] as int,
                            slab_size(i),
                            #[trigger] n[k][m] as int,
                            slab_size(k),
                        ) by {
                            assert(o[i][j] == n[i][j] && o[k][m] == n[k][m]);
                        }
                        assert forall|k: int, m: int|
                            0 <= k < SLAB_CLASSES && 0 <= m < n[k].len() implies apart(
                            node as int,
                            slab_size(index as int),
                            #[trigger] n[k][m] as int,
                            slab_size(k),
                        ) by {
                            assert(o[k][m] == n[k][m]);
                        }
                        assert forall|i: int, j: int|
                            0 <= i < SLAB_CLASSES && 0 <= j < n[i].len() implies #[trigger] n[i][j]
                            != node by {
                            assert(o[i][j] == n[i][j]);
                            assert(slab_size(i) > 0 && slab_size(index as int) > 0);
                        }
                    }
                    proof {
                        lemma_live_take(o, live, b0, index as int);
                        assert(self.lists() =~= lists_after_take(o, index as int));
                        self.live = Ghost(live.insert(node, slab_size(index as int)));
                    }
                    Allocation { ptr: node, action: PageAction::NoChange }
                } else {
                    let bs = slab_size_of(index) as u64;
                    let base = self.base_address;
                    self.base_address = self.base_address + PAGE_SIZE;
                    let mut block = base;
                    while block + bs < base + PAGE_SIZE
                        invariant
                            base + PAGE_SIZE <= u64::MAX,
                            bs == slab_size(index as int),
                            index < SLAB_CLASSES,
                            base <= block <= base + PAGE_SIZE - bs,
                            (block - base) % (bs as int) == 0,
                            list@.len() == (block - base) / (bs as int),
                            forall|j: int| 0 <= j < list@.len() ==> list@[j] == base + j * bs,
                        decreases base + PAGE_SIZE - block,
                    {
                        proof {
                            assert(list@.len() * bs == block - base) by (nonlinear_arith)
                                requires
                                    (block - base) % (bs as int) == 0,
                                    list@.len() == (block - base) / (bs as int),
                                    bs > 0,
                            ;
                        }
                        list.push(block);
                        proof {
                            assert(((block + bs) - base) / (bs as int) == list@.len()) by (
                            nonlinear_arith)
                                requires
                                    list@.len() * bs == block + bs - base,
                                    bs > 0,
                            ;
                            assert(((block + bs) - base) % (bs as int) == 0) by (nonlinear_arith)
                                requires
                                    list@.len() * bs == block + bs - base,
                                    bs > 0,
                            ;
                        }
                        block = block + bs;
                    }
                    proof {
                        assert(block == base + PAGE_SIZE - bs);
                        assert(list@.len() * bs == block - base) by (nonlinear_arith)
                            requires
                                (block - base) % (bs as int) == 0,
                                list@.len() == (block - base) / (bs as int),
                                bs > 0,
                        ;
                        lemma_fresh_page(o, base as int, index as int, list@, block as int);
                        assert((4096 - bs) / (bs as int) == 4096int / (bs as int) - 1) by (
                        nonlinear_arith)
                            requires
                                bs > 0,
                        ;
                    }
                    let ghost new_list = list@;
                    self.slab_heads.insert(index, list);
                    assert(self.lists() =~= o.update(index as int, new_list));
                    proof {
                        lemma_live_fresh(o, live, b0, index as int, new_list, block as int);
                        self.live = Ghost(live.insert(block, slab_size(index as int)));
                    }
                    Allocation { ptr: block, action: PageAction::MapPages { base, pages: 1 } }
                }
            },
            None => {
                let length = ((min_size as u64 + 0xFFF) / 0x1000) * 0x1000;
                let base = self.base_address;
                self.base_address = self.base_address + length;
                proof {
                    let n = self.lists();
                    assert(n =~= o);
                    assert(length % 4096 == 0);
                    assert forall|i: int, j: int|
                        0 <= i < SLAB_CLASSES && 0 <= j < n[i].len() implies #[trigger] n[i][j]
                        + slab_size(i) <= self.base() && (n[i][j] as int) % slab_size(i)
                        == (self.base() as int) % slab_size(i) by {
                        lemma_page_shift(base as int, length as int, i);
                    }
                    lemma_page_shift(base as int, length as int, 0);
                    vstd::arithmetic::div_mod::lemma_mod_multiples_vanish(
                        (length / 4096) as int,
                        base as int,
                        4096,
                    );
                }
                proof {
                    assert(length as int == page_round(min_size as int));
                    lemma_live_large(o, live, b0, length as int);
                    self.live = Ghost(live.insert(base, length as int));
                }
                Allocation { ptr: base, action: PageAction::MapPages { base, pages: length / 0x1000 } }
            },
        }
    }

    /// Returns the block at `ptr`, allocated for `size` bytes aligned to
    /// `align`. A block of a size class goes back to the head of its list;
    /// whole pages are unmapped by the caller.
    pub fn deallocate(&mut self, ptr: u64, size: usize, align: usize) -> (action: PageAction)
        requires
            old(self).wf(),
            old(self).live().dom().contains(ptr),
            old(self).live()[ptr] == block_bytes(if size < align { align as int } else { size as int }),
        ensures
            final(self).wf(),
            final(self).base() == old(self).base(),
            final(self).live() == old(self).live().remove(ptr),
            ({
                let min_size = if size < align { align as int } else { size as int };
                let o = old(self).lists();
                let n = final(self).lists();
                match spec_block_class(min_size) {
                    Some(i) => action == PageAction::NoChange && n == lists_after_return(o, i, ptr),
                    None => action == (PageAction::UnmapPages {
                        base: ptr,
                        pages: (page_round(min_size) / 0x1000) as u64,
                    }) && n == o,
                }
            }),
    {
        let max_size = if size < align {
            align
        } else {
            size
        };
        let ghost o = self.lists();
        let ghost live = self.live@;
        let ghost b0 = self.base() as int;
        match block_size(max_size) {
            Some(index) => {
                proof {
                    lemma_live_return(o, live, b0, index as int, ptr);
                }
                let mut list = self.slab_heads.remove(index);
                list.push(ptr);
                self.slab_heads.insert(index, list);
                proof {
                    let n = self.lists();
                    let idx = index as int;
                    let b = self.base() as int;
                    assert(n =~= o.update(idx, o[idx].push(ptr)));
                    let last = o[idx].len() as int;
                    assert(n[idx][last] == ptr);
                    assert forall|i: int, j: int|
                        0 <= i < SLAB_CLASSES && 0 <= j < n[i].len() && !(i == idx && j == last)
                        implies #[trigger] n[i][j] == o[i][j] by {}
                    assert forall|i: int, j: int|
                        0 <= i < SLAB_CLASSES && 0 <= j < n[i].len() implies #[trigger] n[i][j]
                        + slab_size(i) <= b && (n[i][j] as int) % slab_size(i) == b % slab_size(i) by {
                        if !(i == idx && j == last) {
                            assert(n[i][j] == o[i][j]);
                        }
                    }
                    assert forall|i: int, j: int, k: int, m: int|
                        0 <= i < SLAB_CLASSES && 0 <= j < n[i].len() && 0 <= k < SLAB_CLASSES && 0
                            <= m < n[k].len() && !(i == k && j == m) implies apart(
                        #[trigger] n[i][j] as int,
                        slab_size(i),
                        #[trigger] n[k][m] as int,
                        slab_size(k),
                    ) by {
                        if i == idx && j == last {
                            assert(n[k][m] == o[k][m]);
                        } else if k == idx && m == last {
                            assert(n[i][j] == o[i][j]);
                        } else {
                            assert(n[i][j] == o[i][j] && n[k][m] == o[k][m]);
                        }
                    }
                    assert(n =~= lists_after_return(o, idx, ptr));
                    self.live = Ghost(live.remove(ptr));
                }
                PageAction::NoChange
            },
            None => {
                assert(ptr + live[ptr] <= b0);
                let length = ((max_size as u64 + 0xFFF) / 0x1000) * 0x1000;
                proof {
                    assert(self.lists() =~= o);
                    let nl = live.remove(ptr);
                    assert forall|p: u64, q: u64|
                        #[trigger] nl.dom().contains(p) && #[trigger] nl.dom().contains(q) && p != q
                        implies apart(p as int, nl[p], q as int, nl[q]) by {
                        assert(live.dom().contains(p) && live.dom().contains(q));
                    }
                    self.live = Ghost(nl);
                }
                PageAction::UnmapPages { base: ptr, pages: length / 0x1000 }
            },
        }
    }
}

/// A block given back is the next one of its class handed out, and handing
/// it out leaves the free lists as they were before it came back.
pub proof fn lemma_returned_block_comes_back(l: Seq<Seq<u64>>, i: int, ptr: u64)
    requires
        0 <= i < l.len(),
    ensures
        lists_after_return(l, i, ptr)[i].len() > 0,
        lists_after_return(l, i, ptr)[i].last() == ptr,
        lists_after_take(lists_after_return(l, i, ptr), i) == l,
{
    assert(l[i].push(ptr).drop_last() =~= l[i]);
    assert(lists_after_take(lists_after_return(l, i, ptr), i) =~= l);
}

/// Giving back the block just handed out from a free list leaves the free
/// lists as they were.
pub proof fn lemma_return_undoes_take(l: Seq<Seq<u64>>, i: int)
    requires
        0 <= i < l.len(),
        l[i].len() > 0,
    ensures
        lists_after_return(lists_after_take(l, i), i, l[i].last()) == l,
{
    assert(lists_after_take(l, i)[i].push(l[i].last()) =~= l[i]);
    assert(lists_after_return(lists_after_take(l, i), i, l[i].last()) =~= l);
}

} // verus!
