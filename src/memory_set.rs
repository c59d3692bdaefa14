//! The address space of one task: which virtual pages are mapped, with what
//! permission bits, and the bytes each of them holds.
use vstd::prelude::*;

use std::collections::HashMap;

use crate::addr::page_floor;
use crate::config::PAGE_SIZE;

verus! {

broadcast use vstd::std_specs::hash::group_hash_axioms;

/// One mapped page as the contracts see it.
pub struct PageView {
    pub perm: usize,
    pub bytes: Seq<u8>,
}

/// A freshly mapped page: the given permission bits, every byte zero.
pub open spec fn zero_page(perm: usize) -> PageView {
    PageView { perm, bytes: Seq::new(PAGE_SIZE as nat, |o: int| 0u8) }
}

/// Every mapped page holds exactly one page of bytes.
pub open spec fn pages_wf(m: Map<usize, PageView>) -> bool {
    forall|v: usize| #[trigger] m.contains_key(v) ==> m[v].bytes.len() == PAGE_SIZE
}

/// No page of `[start, end)` is mapped.
pub open spec fn range_unmapped(m: Map<usize, PageView>, start: usize, end: usize) -> bool {
    forall|v: usize| start <= v < end ==> !#[trigger] m.contains_key(v)
}

/// Every page of `[start, end)` is mapped.
pub open spec fn range_mapped(m: Map<usize, PageView>, start: usize, end: usize) -> bool {
    forall|v: usize| start <= v < end ==> #[trigger] m.contains_key(v)
}

/// The pages `[start, end)`, as a set.
pub open spec fn page_range(start: usize, end: usize) -> Set<usize> {
    Set::new(|v: usize| start <= v < end)
}

/// `m` with fresh zeroed pages of permission `perm` over `[start, end)`.
pub open spec fn map_range(m: Map<usize, PageView>, start: usize, end: usize, perm: usize) -> Map<
    usize,
    PageView,
> {
    Map::new(
        |v: usize| m.contains_key(v) || (start <= v < end),
        |v: usize|
            if start <= v < end {
                zero_page(perm)
            } else {
                m[v]
            },
    )
}

/// `m` without the pages `[start, end)`.
pub open spec fn unmap_range(m: Map<usize, PageView>, start: usize, end: usize) -> Map<
    usize,
    PageView,
> {
    m.remove_keys(page_range(start, end))
}

/// The byte at virtual address `a`, in a mapped page.
pub open spec fn byte_at(m: Map<usize, PageView>, a: int) -> u8 {
    m[page_floor(a) as usize].bytes[a % (PAGE_SIZE as int)]
}

/// The `n` bytes at `addr` lie below the top of the address space and on
/// mapped pages.
pub open spec fn buffer_mapped(m: Map<usize, PageView>, addr: usize, n: nat) -> bool {
    &&& addr + n <= usize::MAX
    &&& forall|a: int| addr <= a < addr + n ==> #[trigger] m.contains_key(page_floor(a) as usize)
}

/// `m` after `bytes` are stored from virtual address `addr` on; pages and
/// permissions stay as they are.
pub open spec fn write_bytes(m: Map<usize, PageView>, addr: usize, bytes: Seq<u8>) -> Map<
    usize,
    PageView,
> {
    Map::new(
        |v: usize| m.contains_key(v),
        |v: usize|
            PageView {
                perm: m[v].perm,
                bytes: Seq::new(
                    m[v].bytes.len(),
                    |o: int|
                        if addr <= v * PAGE_SIZE + o < addr + bytes.len() {
                            bytes[v * PAGE_SIZE + o - addr]
                        } else {
                            m[v].bytes[o]
                        },
                ),
            },
    )
}

struct Page {
    perm: usize,
    data: Vec<u8>,
}

impl View for Page {
    type V = PageView;

    closed spec fn view(&self) -> PageView {
        PageView { perm: self.perm, bytes: self.data@ }
    }
}

/// The mapped pages of one address space.
pub struct MemorySet {
    pages: HashMap<usize, Page>,
}

impl View for MemorySet {
    type V = Map<usize, PageView>;

    closed spec fn view(&self) -> Map<usize, PageView> {
        self.pages@.map_values(|p: Page| p@)
    }
}

impl MemorySet {
    /// Every page holds one page of bytes.
    pub open spec fn wf(&self) -> bool {
        pages_wf(self@)
    }

    /// An address space with nothing mapped.
    pub fn new() -> (r: MemorySet)
        ensures
            r.wf(),
            r@ == Map::<usize, PageView>::empty(),
    {
        let r = MemorySet { pages: HashMap::new() };
        assert(r@ =~= Map::<usize, PageView>::empty());
        r
    }

    /// Whether page `vpn` is mapped.
    pub fn is_mapped(&self, vpn: usize) -> (r: bool)
        ensures
            r == self@.contains_key(vpn),
    {
        self.pages.contains_key(&vpn)
    }

    /// Maps the pages `[start, end)` with permission bits `perm`, all or
    /// nothing: it fails, changing nothing, where one of them is mapped
    /// already.
    pub fn mmap(&mut self, start: usize, end: usize, perm: usize) -> (r: bool)
        requires
            old(self).wf(),
            start <= end,
        ensures
            final(self).wf(),
            r == range_unmapped(old(self)@, start, end),
            r ==> final(self)@ == map_range(old(self)@, start, end, perm),
            !r ==> final(self)@ == old(self)@,
    {
        let mut v: usize = start;
        while v < end
            invariant
                start <= v <= end,
                self@ == old(self)@,
                self.wf(),
                forall|u: usize| start <= u < v ==> !#[trigger] self@.contains_key(u),
            decreases end - v,
        {
            if self.pages.contains_key(&v) {
                assert(self@.contains_key(v));
                return false;
            }
            v = v + 1;
        }
        let ghost before = self@;
        let mut v: usize = start;
        proof {
            assert(before =~= map_range(before, start, v, perm));
        }
        while v < end
            invariant
                start <= v <= end,
                before == old(self)@,
                range_unmapped(before, start, end),
                pages_wf(before),
                self@ == map_range(before, start, v, perm),
            decreases end - v,
        {
            let data = vec![0u8; PAGE_SIZE];
            proof {
                assert(data@ =~= zero_page(perm).bytes);
            }
            let ghost pages_before = self.pages@;
            let ghost view_before = self@;
            let page = Page { perm, data };
            self.pages.insert(v, page);
            proof {
                assert(self.pages@ == pages_before.insert(v, page));
                assert(page@ == zero_page(perm));
                assert(self@ =~= view_before.insert(v, zero_page(perm)));
                assert(self@ =~= map_range(before, start, (v + 1) as usize, perm));
            }
            v = v + 1;
        }
        true
    }

    /// Unmaps the pages `[start, end)`, all or nothing: it fails, changing
    /// nothing, where one of them is not mapped.
    pub fn munmap(&mut self, start: usize, end: usize) -> (r: bool)
        requires
            old(self).wf(),
            start <= end,
        ensures
            final(self).wf(),
            r == range_mapped(old(self)@, start, end),
            r ==> final(self)@ == unmap_range(old(self)@, start, end),
            !r ==> final(self)@ == old(self)@,
    {
        let mut v: usize = start;
        while v < end
            invariant
                start <= v <= end,
                self@ == old(self)@,
                self.wf(),
                forall|u: usize| start <= u < v ==> #[trigger] self@.contains_key(u),
            decreases end - v,
        {
            if !self.pages.contains_key(&v) {
                assert(!self@.contains_key(v));
                return false;
            }
            v = v + 1;
        }
        let ghost before = self@;
        let mut v: usize = start;
        proof {
            assert(before =~= unmap_range(before, start, v));
        }
        while v < end
            invariant
                start <= v <= end,
                before == old(self)@,
                range_mapped(before, start, end),
                pages_wf(before),
                self@ == unmap_range(before, start, v),
            decreases end - v,
        {
            let ghost view_before = self@;
            self.pages.remove(&v);
            proof {
                assert(self@ =~= view_before.remove(v));
                assert(self@ =~= unmap_range(before, start, (v + 1) as usize));
            }
            v = v + 1;
        }
        true
    }

    /// Stores `bytes` from virtual address `addr` on, whatever pages the
    /// range crosses, all or nothing: it fails, changing nothing, where a
    /// byte of the range lies on an unmapped page or past the top of the
    /// address space.
    pub fn write_user_buffer(&mut self, addr: usize, bytes: &[u8]) -> (r: bool)
        requires
            old(self).wf(),
        ensures
            final(self).wf(),
            r == buffer_mapped(old(self)@, addr, bytes@.len()),
            r ==> final(self)@ == write_bytes(old(self)@, addr, bytes@),
            !r ==> final(self)@ == old(self)@,
    {
        let n = bytes.len();
        if addr > usize::MAX - n {
            return false;
        }
        let mut i: usize = 0;
        while i < n
            invariant
                i <= n,
                n == bytes@.len(),
                addr + n <= usize::MAX,
                self@ == old(self)@,
                self.wf(),
                forall|a: int|
                    addr <= a < addr + i ==> #[trigger] self@.contains_key(page_floor(a) as usize),
            decreases n - i,
        {
            if !self.pages.contains_key(&((addr + i) / PAGE_SIZE)) {
                assert(!self@.contains_key(page_floor(addr + i) as usize));
                return false;
            }
            i = i + 1;
        }
        let ghost before = self@;
        proof {
            let w0 = write_bytes(before, addr, bytes@.take(0));
            assert forall|w: usize| #[trigger] before.contains_key(w) implies w0[w] == before[w] by {
                assert(w0[w].bytes =~= before[w].bytes);
            }
            assert(before =~= w0);
        }
        let mut i: usize = 0;
        while i < n
            invariant
                i <= n,
                n == bytes@.len(),
                addr + n <= usize::MAX,
                before == old(self)@,
                buffer_mapped(before, addr, n as nat),
                pages_wf(before),
                self@ == write_bytes(before, addr, bytes@.take(i as int)),
            decreases n - i,
        {
            let a = addr + i;
            let v = a / PAGE_SIZE;
            let mut o = a % PAGE_SIZE;
            let ghost view_before = self@;
            proof {
                assert(before.contains_key(page_floor(addr + i) as usize));
                assert(self@.contains_key(v));
                assert(pages_wf(self@));
            }
            let ghost pages_before = self.pages@;
            let mut page = self.pages.remove(&v).unwrap();
            assert(pages_before[v] == page);
            assert(view_before[v] == page@);
            assert(self@ =~= view_before.remove(v));
            assert(view_before.insert(v, page@) =~= view_before);
            while i < n && o < PAGE_SIZE
                invariant
                    i <= n,
                    n == bytes@.len(),
                    addr + n <= usize::MAX,
                    o <= PAGE_SIZE,
                    v * PAGE_SIZE + o == addr + i,
                    page.data@.len() == PAGE_SIZE,
                    self@ == view_before.remove(v),
                    view_before.contains_key(v),
                    pages_wf(before),
                    pages_wf(view_before),
                    view_before.dom() == before.dom(),
                    self@.insert(v, page@) == write_bytes(before, addr, bytes@.take(i as int)),
                decreases n - i,
            {
                let ghost page_before = page@;
                page.data[o] = bytes[i];
                proof {
                    let next = write_bytes(before, addr, bytes@.take(i + 1));
                    let cur = write_bytes(before, addr, bytes@.take(i as int));
                    assert(page_before == cur[v]);
                    assert(page@.bytes =~= next[v].bytes);
                    assert(page@ == next[v]);
                    assert forall|w: usize| #[trigger] next.contains_key(w) && w != v implies next[w]
                        == cur[w] by {
                        assert(next[w].bytes =~= cur[w].bytes);
                    }
                    assert(self@.insert(v, page_before) == cur);
                    assert(next.dom() =~= cur.dom());
                    assert forall|w: usize| #[trigger] next.contains_key(w) implies self@.insert(
                        v,
                        page@,
                    )[w] == next[w] by {
                        if w != v {
                            assert(cur[w] == self@.insert(v, page_before)[w]);
                        }
                    }
                    assert(self@.insert(v, page@) =~= next);
                }
                i = i + 1;
                o = o + 1;
            }
            self.pages.insert(v, page);
            assert(self@ =~= view_before.remove(v).insert(v, page@));
        }
        proof {
            assert(bytes@.take(n as int) =~= bytes@);
        }
        true
    }

    /// The `n` bytes from virtual address `addr` on, or `None` where a byte
    /// of the range lies on an unmapped page or past the top of the address
    /// space.
    pub fn read_user_buffer(&self, addr: usize, n: usize) -> (r: Option<Vec<u8>>)
        requires
            self.wf(),
        ensures
            r is Some == buffer_mapped(self@, addr, n as nat),
            r is Some ==> r->0@ == Seq::new(n as nat, |i: int| byte_at(self@, addr + i)),
    {
        if addr > usize::MAX - n {
            return None;
        }
        let mut out: Vec<u8> = Vec::new();
        let mut i: usize = 0;
        while i < n
            invariant
                i <= n,
                addr + n <= usize::MAX,
                self.wf(),
                forall|a: int|
                    addr <= a < addr + i ==> #[trigger] self@.contains_key(page_floor(a) as usize),
                out@ =~= Seq::new(i as nat, |k: int| byte_at(self@, addr + k)),
            decreases n - i,
        {
            let a = addr + i;
            match self.pages.get(&(a / PAGE_SIZE)) {
                Some(page) => {
                    assert(self@[page_floor(a as int) as usize] == page@);
                    assert(self@.contains_key(page_floor(a as int) as usize));
                    assert(page.data@.len() == PAGE_SIZE);
                    out.push(page.data[a % PAGE_SIZE]);
                },
                None => {
                    assert(!self@.contains_key(page_floor(a as int) as usize));
                    return None;
                },
            }
            i = i + 1;
        }
        Some(out)
    }
}

} // verus!
