//! Small objects carved out of single pages.

use super::early::AllocLayout;
use vstd::prelude::*;

verus! {

/// Size of a page.
pub const PAGE_SIZE: usize = 0x1000;

/// Number of object sizes.
pub const CLASS_COUNT: usize = 9;

/// Size of the objects of a class.
pub open spec fn class_len(index: int) -> int {
    if index <= 0 {
        8
    } else if index == 1 {
        16
    } else if index == 2 {
        32
    } else if index == 3 {
        64
    } else if index == 4 {
        128
    } else if index == 5 {
        256
    } else if index == 6 {
        512
    } else if index == 7 {
        1024
    } else {
        2048
    }
}

/// Size of the objects of a class.
pub fn class_size(index: usize) -> (size: usize)
    requires
        index < CLASS_COUNT,
    ensures
        size == class_len(index as int),
        8 <= size <= 2048,
{
    match index {
        0 => 8,
        1 => 16,
        2 => 32,
        3 => 64,
        4 => 128,
        5 => 256,
        6 => 512,
        7 => 1024,
        _ => 2048,
    }
}

/// Bytes that an object must have to satisfy a layout.
pub open spec fn needed(layout: AllocLayout) -> int {
    let larger = if layout.size > layout.align {
        layout.size as int
    } else {
        layout.align as int
    };
    if larger > 8 {
        larger
    } else {
        8
    }
}

/// The smallest class whose objects satisfy a layout.
pub fn class_index(layout: AllocLayout) -> (index: Option<usize>)
    ensures
        match index {
            Some(i) => i < CLASS_COUNT && needed(layout) <= class_len(i as int) && (i > 0
                ==> class_len(i - 1) < needed(layout)),
            None => needed(layout) > 2048,
        },
{
    let larger: usize = if layout.size > layout.align {
        layout.size
    } else {
        layout.align
    };
    let needed: usize = if larger > 8 {
        larger
    } else {
        8
    };
    let mut index: usize = 0;
    while index < CLASS_COUNT
        invariant
            index <= CLASS_COUNT,
            needed == self::needed(layout),
            index > 0 ==> class_len(index - 1) < needed,
        decreases CLASS_COUNT - index,
    {
        if needed <= class_size(index) {
            return Some(index);
        }
        index = index + 1;
    }
    None
}

/// State of one page.
pub struct SlubPageMeta {
    /// Free objects; the last one is handed out first.
    free: Vec<usize>,
    /// Objects in use, and one for a cache that refers to the page.
    refcount: usize,
}

/// Contents of one page.
#[verifier::ext_equal]
pub struct PageView {
    pub free: Seq<usize>,
    pub refcount: int,
}

impl View for SlubPageMeta {
    type V = PageView;

    closed spec fn view(&self) -> PageView {
        PageView { free: self.free@, refcount: self.refcount as int }
    }
}

impl SlubPageMeta {
    fn unused() -> (page: Self)
        ensures
            page@ == no_page(),
    {
        SlubPageMeta { free: Vec::new(), refcount: 0 }
    }
}

/// A page that is not in use.
pub open spec fn no_page() -> PageView {
    PageView { free: Seq::empty(), refcount: 0 }
}

/// Objects that fit into a page.
pub open spec fn capacity(object_size: int) -> int {
    0x1000int / object_size
}

/// The objects of a page, the lowest one last.
pub open spec fn objects_of(page: int, object_size: int) -> Seq<usize> {
    Seq::new(
        capacity(object_size) as nat,
        |i: int| (page + (capacity(object_size) - 1 - i) * object_size) as usize,
    )
}

/// A page that has just been cut into objects, and that a cache refers to.
pub open spec fn fresh_page(page: int, object_size: int) -> PageView {
    PageView { free: objects_of(page, object_size), refcount: 1 }
}

/// A page once its next object has been handed out. The cache lets go of a page
/// that has no free object left.
pub open spec fn taken(page: PageView) -> PageView {
    PageView {
        free: page.free.drop_last(),
        refcount: if page.free.len() > 1 {
            page.refcount + 1
        } else {
            page.refcount
        },
    }
}

/// A page once one reference to it is gone; the last one takes the page with it.
pub open spec fn released(page: PageView) -> PageView {
    if page.refcount == 1 {
        no_page()
    } else {
        PageView { refcount: page.refcount - 1, ..page }
    }
}

/// Run of pages that are tracked.
#[derive(Debug, Clone, Copy, PartialEq, Eq, Structural)]
pub struct SlubSection {
    pub start_phys: usize,
    pub end_phys: usize,
    /// Where the states of its pages begin.
    pub first: usize,
}

impl SlubSection {
    pub open spec fn covers(self, phys: usize) -> bool {
        self.start_phys <= phys < self.end_phys
    }

    pub open spec fn wf(self, pages: int) -> bool {
        &&& self.start_phys <= self.end_phys
        &&& self.start_phys % 0x1000 == 0
        &&& self.end_phys % 0x1000 == 0
        &&& self.first + (self.end_phys - self.start_phys) / 0x1000 <= pages
    }
}

/// A range of physical memory.
#[derive(Debug, Clone, Copy, PartialEq, Eq, Structural)]
pub struct MemoryRange {
    pub start: usize,
    pub end: usize,
}

/// First whole page of a range.
pub open spec fn page_ceil(addr: usize) -> int {
    if addr % 0x1000 == 0 {
        addr as int
    } else {
        addr - addr % 0x1000 + 0x1000
    }
}

/// End of the last whole page of a range.
pub open spec fn page_floor(addr: usize) -> int {
    addr - addr % 0x1000
}

/// Whole pages of a range.
pub open spec fn whole_pages(range: MemoryRange) -> int {
    if page_floor(range.end) <= page_ceil(range.start) {
        0
    } else {
        (page_floor(range.end) - page_ceil(range.start)) / 0x1000
    }
}

/// The sections for the first ranges, and the number of their pages.
pub open spec fn sections_of(ranges: Seq<MemoryRange>, count: int) -> (Seq<SlubSection>, int)
    decreases count,
{
    if count <= 0 {
        (Seq::empty(), 0)
    } else {
        let (sections, pages) = sections_of(ranges, count - 1);
        let range = ranges[count - 1];
        if whole_pages(range) == 0 {
            (sections, pages)
        } else {
            (
                sections.push(
                    SlubSection {
                        start_phys: page_ceil(range.start) as usize,
                        end_phys: page_floor(range.end) as usize,
                        first: pages as usize,
                    },
                ),
                pages + whole_pages(range),
            )
        }
    }
}

proof fn lemma_sections_grow(ranges: Seq<MemoryRange>, a: int, b: int)
    requires
        a <= b,
    ensures
        sections_of(ranges, a).0.len() <= sections_of(ranges, b).0.len(),
        sections_of(ranges, a).1 <= sections_of(ranges, b).1,
    decreases b - a,
{
    if a < b {
        lemma_sections_grow(ranges, a, b - 1);
    }
}

/// States of all the pages that can hold small objects.
pub struct SlubRuntime {
    sections: Vec<SlubSection>,
    pages: Vec<SlubPageMeta>,
}

impl SlubRuntime {
    pub closed spec fn sections(&self) -> Seq<SlubSection> {
        self.sections@
    }

    pub closed spec fn pages(&self) -> Seq<PageView> {
        self.pages@.map_values(|page: SlubPageMeta| page@)
    }

    pub open spec fn wf(&self) -> bool {
        forall|i: int|
            0 <= i < self.sections().len() ==> (#[trigger] self.sections()[i]).wf(
                self.pages().len() as int,
            )
    }

    /// The state of the page that an address lies in, looked up from a section
    /// on.
    pub open spec fn slot_from(sections: Seq<SlubSection>, phys: usize, from: int) -> Option<int>
        decreases sections.len() - from,
    {
        if from >= sections.len() {
            None
        } else if sections[from].covers(phys) {
            Some(sections[from].first + (phys - sections[from].start_phys) / 0x1000)
        } else {
            Self::slot_from(sections, phys, from + 1)
        }
    }

    pub open spec fn slot(&self, phys: usize) -> Option<int> {
        Self::slot_from(self.sections(), phys, 0)
    }

    /// Builds the states of all the whole pages in the ranges, where the
    /// reserve is large enough for them.
    pub fn from_storage(
        reserved_sections: usize,
        reserved_pages: usize,
        ranges: &Vec<MemoryRange>,
    ) -> (runtime: Option<Self>)
        requires
            forall|i: int|
                0 <= i < ranges@.len() ==> page_ceil((#[trigger] ranges@[i]).start) <= usize::MAX,
        ensures
            ({
                let (sections, pages) = sections_of(ranges@, ranges@.len() as int);
                match runtime {
                    Some(runtime) => {
                        &&& runtime.wf()
                        &&& sections.len() <= reserved_sections && pages <= reserved_pages
                        &&& runtime.sections() == sections
                        &&& runtime.pages().len() == pages
                        &&& forall|i: int|
                            0 <= i < pages ==> #[trigger] runtime.pages()[i] == no_page()
                    },
                    None => sections.len() > reserved_sections || pages > reserved_pages,
                }
            }),
    {
        let mut sections: Vec<SlubSection> = Vec::new();
        let mut pages: Vec<SlubPageMeta> = Vec::new();
        let mut i: usize = 0;
        while i < ranges.len()
            invariant
                i <= ranges@.len(),
                forall|j: int|
                    0 <= j < ranges@.len() ==> page_ceil((#[trigger] ranges@[j]).start)
                        <= usize::MAX,
                sections@ == sections_of(ranges@, i as int).0,
                pages@.len() == sections_of(ranges@, i as int).1,
                sections@.len() <= reserved_sections,
                pages@.len() <= reserved_pages,
                forall|j: int| 0 <= j < pages@.len() ==> (#[trigger] pages@[j])@ == no_page(),
                forall|j: int|
                    0 <= j < sections@.len() ==> (#[trigger] sections@[j]).wf(pages@.len() as int),
            decreases ranges@.len() - i,
        {
            let range = ranges[i];
            let start: usize = if range.start % PAGE_SIZE == 0 {
                range.start
            } else {
                range.start - range.start % PAGE_SIZE + PAGE_SIZE
            };
            let end: usize = range.end - range.end % PAGE_SIZE;
            proof {
                lemma_sections_grow(ranges@, i + 1, ranges@.len() as int);
            }
            if end > start {
                let count: usize = (end - start) / PAGE_SIZE;
                if sections.len() >= reserved_sections || count > reserved_pages - pages.len() {
                    return None;
                }
                let ghost before = pages@;
                sections.push(
                    SlubSection { start_phys: start, end_phys: end, first: pages.len() },
                );
                let mut added: usize = 0;
                while added < count
                    invariant
                        added <= count,
                        pages@.len() == before.len() + added,
                        forall|j: int|
                            0 <= j < pages@.len() ==> (#[trigger] pages@[j])@ == no_page(),
                    decreases count - added,
                {
                    pages.push(SlubPageMeta::unused());
                    added = added + 1;
                }
                assert(sections@ =~= sections_of(ranges@, i + 1).0);
            }
            i = i + 1;
        }
        let runtime = SlubRuntime { sections, pages };
        assert forall|j: int| 0 <= j < runtime.pages().len() implies #[trigger] runtime.pages()[j]
            == no_page() by {
            assert(pages@[j]@ == no_page());
        }
        Some(runtime)
    }

    /// A known page has a state.
    pub proof fn lemma_slot(&self, phys: usize, from: int)
        requires
            self.wf(),
            0 <= from <= self.sections().len(),
        ensures
            Self::slot_from(self.sections(), phys, from) matches Some(at) ==> 0 <= at
                < self.pages().len(),
        decreases self.sections().len() - from,
    {
        if from < self.sections().len() {
            let section = self.sections()[from];
            assert(section.wf(self.pages().len() as int));
            if section.covers(phys) {
                lemma_page_index(section.start_phys as int, section.end_phys as int, phys as int);
            } else {
                self.lemma_slot(phys, from + 1);
            }
        }
    }

    fn meta_for_phys(&self, phys: usize) -> (slot: Option<usize>)
        requires
            self.wf(),
        ensures
            match slot {
                Some(at) => self.slot(phys) == Some(at as int) && at < self.pages().len(),
                None => self.slot(phys) is None,
            },
    {
        let page_count: usize = self.pages.len();
        let mut i: usize = 0;
        proof {
            self.lemma_slot(phys, 0);
        }
        while i < self.sections.len()
            invariant
                page_count == self.pages().len(),
                i <= self.sections@.len(),
                self.wf(),
                self.slot(phys) == Self::slot_from(self.sections(), phys, i as int),
                self.slot(phys) matches Some(at) ==> 0 <= at < self.pages().len(),
            decreases self.sections@.len() - i,
        {
            let section = self.sections[i];
            if section.start_phys <= phys && phys < section.end_phys {
                let at: usize = section.first + (phys - section.start_phys) / PAGE_SIZE;
                return Some(at);
            }
            i = i + 1;
        }
        None
    }
}

proof fn lemma_page_index(start: int, end: int, phys: int)
    requires
        start % 0x1000 == 0,
        end % 0x1000 == 0,
        start <= phys < end,
    ensures
        0 <= (phys - start) / 0x1000 < (end - start) / 0x1000,
{
}

/// Pages from which a processor takes objects, one for each class; 0 stands for
/// none.
pub struct SlubCache {
    pages: Vec<usize>,
}

impl View for SlubCache {
    type V = Seq<usize>;

    closed spec fn view(&self) -> Seq<usize> {
        self.pages@
    }
}

impl SlubCache {
    pub open spec fn wf(&self) -> bool {
        self@.len() == CLASS_COUNT
    }

    pub fn new() -> (cache: Self)
        ensures
            cache.wf(),
            forall|i: int| 0 <= i < CLASS_COUNT ==> #[trigger] cache@[i] == 0,
    {
        SlubCache { pages: vec![0; CLASS_COUNT] }
    }
}

/// A page that the frame allocator gave for small objects.
#[derive(Debug, Clone, Copy, PartialEq, Eq, Structural)]
pub struct FreshPage {
    pub phys: usize,
    pub virt: usize,
}

/// What a request for a small object comes to.
#[derive(Debug, Clone, Copy, PartialEq, Eq, Structural)]
pub struct SlabAllocation {
    pub object: Option<usize>,
    /// Whether the fresh page was used.
    pub used_fresh: bool,
    /// Page that has to go back to the frame allocator.
    pub freed: Option<usize>,
}

/// State of a cache and of the pages.
#[verifier::ext_equal]
pub struct SlabWorld {
    pub cache: Seq<usize>,
    pub pages: Seq<PageView>,
}

/// The cache and the pages once the cache lets go of an exhausted page of a
/// class.
pub open spec fn without_exhausted(world: SlabWorld, class: int, at: int) -> SlabWorld {
    SlabWorld {
        cache: world.cache.update(class, 0),
        pages: world.pages.update(at, released(world.pages[at])),
    }
}

impl SlubRuntime {
    /// The page that the cache has for a class can be used: it is tracked, and
    /// the cache counts among its references.
    pub open spec fn cached_ok(&self, cache: Seq<usize>, class: int) -> bool {
        cache[class] != 0 ==> {
            &&& self.slot(cache[class]) matches Some(at)
            &&& self.pages()[at].refcount >= 1
        }
    }

    /// What a request for a small object does.
    pub open spec fn alloc_effect(
        sections: Seq<SlubSection>,
        class: int,
        fresh: Option<FreshPage>,
        before: SlabWorld,
        after: SlabWorld,
        result: SlabAllocation,
    ) -> bool {
        let page = before.cache[class];
        let at = Self::slot_from(sections, page, 0)->0;
        if page != 0 && before.pages[at].free.len() > 0 {
            &&& result == SlabAllocation {
                object: Some(before.pages[at].free.last()),
                used_fresh: false,
                freed: None,
            }
            &&& after == SlabWorld {
                cache: if before.pages[at].free.len() == 1 {
                    before.cache.update(class, 0)
                } else {
                    before.cache
                },
                pages: before.pages.update(at, taken(before.pages[at])),
            }
        } else {
            let cleared = if page != 0 {
                without_exhausted(before, class, at)
            } else {
                before
            };
            &&& result.freed == if page != 0 && before.pages[at].refcount == 1 {
                Some(page)
            } else {
                None
            }
            &&& match fresh {
                None => result.object is None && !result.used_fresh && after == cleared,
                Some(fresh) => {
                    let slot = Self::slot_from(sections, fresh.phys, 0)->0;
                    let filled = fresh_page(fresh.virt as int, class_len(class));
                    &&& result.object == Some(fresh.virt)
                    &&& result.used_fresh
                    &&& after == SlabWorld {
                        cache: cleared.cache.update(class, fresh.phys),
                        pages: cleared.pages.update(slot, taken(filled)),
                    }
                },
            }
        }
    }

    fn release_reference(&mut self, at: usize) -> (freed: bool)
        requires
            old(self).wf(),
            at < old(self).pages().len(),
            old(self).pages()[at as int].refcount >= 1,
        ensures
            final(self).wf(),
            final(self).sections() == old(self).sections(),
            final(self).pages() == old(self).pages().update(
                at as int,
                released(old(self).pages()[at as int]),
            ),
            freed == (old(self).pages()[at as int].refcount == 1),
    {
        assert(self.pages()[at as int] == self.pages@[at as int]@);
        if self.pages[at].refcount == 1 {
            self.pages[at] = SlubPageMeta::unused();
            assert(self.pages() =~= old(self).pages().update(at as int, no_page()));
            assert(self.sections() == old(self).sections());
            true
        } else {
            let refcount: usize = self.pages[at].refcount - 1;
            self.pages[at].refcount = refcount;
            assert(self.pages() =~= old(self).pages().update(
                at as int,
                released(old(self).pages()[at as int]),
            ));
            assert(self.sections() == old(self).sections());
            false
        }
    }

    /// Hands out an object of a class: from the page in the cache, and from a
    /// fresh one where that has none left.
    pub fn allocate(
        &mut self,
        cache: &mut SlubCache,
        class_index: usize,
        fresh: Option<FreshPage>,
    ) -> (result: SlabAllocation)
        requires
            old(self).wf(),
            old(cache).wf(),
            class_index < CLASS_COUNT,
            old(self).cached_ok(old(cache)@, class_index as int),
            forall|i: int|
                0 <= i < old(self).pages().len() ==> (#[trigger] old(self).pages()[i]).refcount
                    < usize::MAX,
            fresh matches Some(page) ==> {
                &&& old(self).slot(page.phys) is Some
                &&& page.phys != 0
                &&& page.virt + PAGE_SIZE <= usize::MAX
            },
        ensures
            final(self).wf(),
            final(cache).wf(),
            final(self).sections() == old(self).sections(),
            Self::alloc_effect(
                old(self).sections(),
                class_index as int,
                fresh,
                (SlabWorld { cache: old(cache)@, pages: old(self).pages() }),
                (SlabWorld { cache: final(cache)@, pages: final(self).pages() }),
                result,
            ),
    {
        let page: usize = cache.pages[class_index];
        let mut freed: Option<usize> = None;
        if page != 0 {
            let at: usize = match self.meta_for_phys(page) {
                Some(at) => at,
                None => {
                    return SlabAllocation { object: None, used_fresh: false, freed: None };
                },
            };
            assert(self.pages()[at as int] == self.pages@[at as int]@);
            if self.pages[at].free.len() > 0 {
                let last: bool = self.pages[at].free.len() == 1;
                let object: usize = self.take_object(at);
                if last {
                    cache.pages[class_index] = 0;
                }
                return SlabAllocation { object: Some(object), used_fresh: false, freed: None };
            }
            cache.pages[class_index] = 0;
            if self.release_reference(at) {
                freed = Some(page);
            }
        }
        match fresh {
            None => SlabAllocation { object: None, used_fresh: false, freed },
            Some(fresh) => {
                proof {
                    self.lemma_slot(fresh.phys, 0);
                }
                let at: usize = match self.meta_for_phys(fresh.phys) {
                    Some(at) => at,
                    None => {
                        return SlabAllocation { object: None, used_fresh: false, freed };
                    },
                };
                let size: usize = class_size(class_index);
                let ghost cleared = self.pages();
                self.initialize_page(at, fresh.virt, size);
                cache.pages[class_index] = fresh.phys;
                proof {
                    lemma_objects(fresh.virt as int, size as int);
                }
                let object: usize = self.take_object(at);
                assert(self.pages() =~= cleared.update(
                    at as int,
                    taken(fresh_page(fresh.virt as int, size as int)),
                ));
                SlabAllocation { object: Some(object), used_fresh: true, freed }
            },
        }
    }

    /// Takes the next object of a page.
    fn take_object(&mut self, at: usize) -> (object: usize)
        requires
            old(self).wf(),
            at < old(self).pages().len(),
            old(self).pages()[at as int].free.len() > 0,
            old(self).pages()[at as int].refcount < usize::MAX,
        ensures
            final(self).wf(),
            final(self).sections() == old(self).sections(),
            object == old(self).pages()[at as int].free.last(),
            final(self).pages() == old(self).pages().update(
                at as int,
                taken(old(self).pages()[at as int]),
            ),
    {
        assert(self.pages()[at as int] == self.pages@[at as int]@);
        let mut refcount: usize = self.pages[at].refcount;
        let mut object: usize = 0;
        if let Some(next) = self.pages[at].free.pop() {
            object = next;
        }
        if self.pages[at].free.len() > 0 {
            refcount = refcount + 1;
        }
        self.pages[at].refcount = refcount;
        assert(self.pages() =~= old(self).pages().update(
            at as int,
            taken(old(self).pages()[at as int]),
        ));
        assert(self.sections() == old(self).sections());
        object
    }

    /// Cuts a page into objects.
    fn initialize_page(&mut self, at: usize, page_virt: usize, object_size: usize)
        requires
            old(self).wf(),
            at < old(self).pages().len(),
            8 <= object_size <= 2048,
            page_virt + PAGE_SIZE <= usize::MAX,
        ensures
            final(self).wf(),
            final(self).sections() == old(self).sections(),
            final(self).pages() == old(self).pages().update(
                at as int,
                fresh_page(page_virt as int, object_size as int),
            ),
    {
        let object_count: usize = PAGE_SIZE / object_size;
        let mut free: Vec<usize> = Vec::new();
        let mut index: usize = object_count;
        let ghost all = objects_of(page_virt as int, object_size as int);
        proof {
            lemma_objects(page_virt as int, object_size as int);
        }
        while index > 0
            invariant
                index <= object_count,
                8 <= object_size <= 2048,
                page_virt + PAGE_SIZE <= usize::MAX,
                object_count == capacity(object_size as int),
                object_count * object_size <= PAGE_SIZE,
                all == objects_of(page_virt as int, object_size as int),
                free@ == all.take(object_count - index),
                all.len() == object_count,
            decreases index,
        {
            index = index - 1;
            assert(index * object_size <= object_count * object_size) by (nonlinear_arith)
                requires
                    index <= object_count,
            ;
            let object: usize = page_virt + index * object_size;
            free.push(object);
            assert(free@ =~= all.take(object_count - index));
        }
        assert(all.take(object_count as int) =~= all);
        self.pages[at] = SlubPageMeta { free, refcount: 1 };
        assert(self.pages() =~= old(self).pages().update(
            at as int,
            fresh_page(page_virt as int, object_size as int),
        ));
        assert(self.sections() == old(self).sections());
    }
}

proof fn lemma_objects(page: int, object_size: int)
    requires
        8 <= object_size <= 2048,
        0 <= page,
        page + PAGE_SIZE <= usize::MAX,
    ensures
        capacity(object_size) >= 2,
        capacity(object_size) * object_size <= PAGE_SIZE,
        objects_of(page, object_size).len() == capacity(object_size),
        objects_of(page, object_size).last() == page,
{
    let count = capacity(object_size);
    vstd::arithmetic::div_mod::lemma_fundamental_div_mod(0x1000, object_size);
    vstd::arithmetic::div_mod::lemma_mod_bound(0x1000, object_size);
    assert(count >= 2) by (nonlinear_arith)
        requires
            0x1000 == object_size * count + 0x1000int % object_size,
            0 <= 0x1000int % object_size < object_size,
            8 <= object_size <= 2048,
    ;
    assert(count * object_size <= 0x1000) by (nonlinear_arith)
        requires
            0x1000 == object_size * count + 0x1000int % object_size,
            0 <= 0x1000int % object_size,
    ;
    assert((count - 1 - (count - 1)) * object_size == 0) by (nonlinear_arith);
}

impl SlubRuntime {
    /// What the return of a small object does. The last object takes its page
    /// with it; a page that had no free object goes into the cache where that
    /// has none.
    pub open spec fn dealloc_effect(
        sections: Seq<SlubSection>,
        class: Option<usize>,
        page: Option<usize>,
        object: usize,
        before: SlabWorld,
        after: SlabWorld,
        freed: Option<usize>,
    ) -> bool {
        if class is None || page is None || Self::slot_from(sections, page->0, 0) is None {
            after == before && freed is None
        } else {
            let at = Self::slot_from(sections, page->0, 0)->0;
            let old = before.pages[at];
            let given = old.free.push(object);
            if old.refcount == 1 {
                &&& freed == page
                &&& after == SlabWorld { pages: before.pages.update(at, no_page()), ..before }
            } else if old.free.len() == 0 && before.cache[class->0 as int] == 0 {
                &&& freed is None
                &&& after == SlabWorld {
                    cache: before.cache.update(class->0 as int, page->0),
                    pages: before.pages.update(
                        at,
                        PageView { free: given, refcount: old.refcount },
                    ),
                }
            } else {
                &&& freed is None
                &&& after == SlabWorld {
                    pages: before.pages.update(
                        at,
                        PageView { free: given, refcount: old.refcount - 1 },
                    ),
                    ..before
                }
            }
        }
    }

    /// Takes an object back. `phys` is the physical address of the object, where
    /// it has one; the page that has to go back to the frame allocator is
    /// returned.
    pub fn deallocate(
        &mut self,
        cache: &mut SlubCache,
        object: usize,
        phys: Option<usize>,
        layout: AllocLayout,
    ) -> (freed: Option<usize>)
        requires
            old(self).wf(),
            old(cache).wf(),
            phys matches Some(phys) ==> (old(self).slot(page_floor(phys) as usize) matches Some(
                at,
            ) ==> old(self).pages()[at].refcount >= 1),
        ensures
            final(self).wf(),
            final(cache).wf(),
            final(self).sections() == old(self).sections(),
            exists|class: Option<usize>|
                #![trigger is_class_of(layout, class)]
                is_class_of(layout, class) && Self::dealloc_effect(
                    old(self).sections(),
                    class,
                    match phys {
                        Some(phys) => Some(page_floor(phys) as usize),
                        None => None,
                    },
                    object,
                    (SlabWorld { cache: old(cache)@, pages: old(self).pages() }),
                    (SlabWorld { cache: final(cache)@, pages: final(self).pages() }),
                    freed,
                ),
    {
        let class = class_index(layout);
        assert(is_class_of(layout, class));
        let class_index: usize = match class {
            Some(index) => index,
            None => {
                return None;
            },
        };
        let page: usize = match phys {
            Some(phys) => phys - phys % PAGE_SIZE,
            None => {
                return None;
            },
        };
        let at: usize = match self.meta_for_phys(page) {
            Some(at) => at,
            None => {
                return None;
            },
        };
        assert(self.pages()[at as int] == self.pages@[at as int]@);
        if self.pages[at].refcount == 1 {
            self.pages[at] = SlubPageMeta::unused();
            assert(self.pages() =~= old(self).pages().update(at as int, no_page()));
            assert(self.sections() == old(self).sections());
            return Some(page);
        }
        let page_was_full: bool = self.pages[at].free.len() == 0;
        self.pages[at].free.push(object);
        if page_was_full && cache.pages[class_index] == 0 {
            cache.pages[class_index] = page;
        } else {
            let refcount: usize = self.pages[at].refcount - 1;
            self.pages[at].refcount = refcount;
        }
        proof {
            let old_page = old(self).pages()[at as int];
            assert(self.pages() =~= old(self).pages().update(
                at as int,
                PageView {
                    free: old_page.free.push(object),
                    refcount: if page_was_full && old(cache)@[class_index as int] == 0 {
                        old_page.refcount
                    } else {
                        old_page.refcount - 1
                    },
                },
            ));
            assert(self.sections() == old(self).sections());
        }
        None
    }

    /// The cache and the pages once the cache has let go of its first pages.
    pub open spec fn after_release(
        sections: Seq<SlubSection>,
        world: SlabWorld,
        count: int,
    ) -> SlabWorld
        decreases count,
    {
        if count <= 0 {
            world
        } else {
            let before = Self::after_release(sections, world, count - 1);
            let page = before.cache[count - 1];
            if page == 0 {
                before
            } else {
                without_exhausted(before, count - 1, Self::slot_from(sections, page, 0)->0)
            }
        }
    }

    /// Whether the cache counts among the references of each of its pages.
    pub open spec fn can_release(sections: Seq<SlubSection>, world: SlabWorld) -> bool {
        forall|i: int|
            0 <= i < CLASS_COUNT && #[trigger] world.cache[i] != 0 ==> {
                &&& Self::slot_from(sections, world.cache[i], 0) matches Some(at)
                &&& Self::after_release(sections, world, i).pages[at].refcount >= 1
            }
    }

    /// Lets go of all the pages of a cache; those that go back to the frame
    /// allocator are returned in order.
    pub fn release(&mut self, cache: &mut SlubCache) -> (freed: Vec<usize>)
        requires
            old(self).wf(),
            old(cache).wf(),
            Self::can_release(
                old(self).sections(),
                (SlabWorld { cache: old(cache)@, pages: old(self).pages() }),
            ),
        ensures
            final(self).wf(),
            final(cache).wf(),
            final(self).sections() == old(self).sections(),
            ({
                let before = SlabWorld { cache: old(cache)@, pages: old(self).pages() };
                let after = SlabWorld { cache: final(cache)@, pages: final(self).pages() };
                after == Self::after_release(
                    old(self).sections(),
                    before,
                    CLASS_COUNT as int,
                ) && freed@ == Self::freed_by_release(
                    old(self).sections(),
                    before,
                    CLASS_COUNT as int,
                )
            }),
    {
        let ghost before = SlabWorld { cache: old(cache)@, pages: old(self).pages() };
        let mut freed: Vec<usize> = Vec::new();
        let mut i: usize = 0;
        while i < CLASS_COUNT
            invariant
                i <= CLASS_COUNT,
                self.wf(),
                cache.wf(),
                self.sections() == old(self).sections(),
                before == (SlabWorld { cache: old(cache)@, pages: old(self).pages() }),
                Self::can_release(self.sections(), before),
                (SlabWorld { cache: cache@, pages: self.pages() }) == Self::after_release(
                    self.sections(),
                    before,
                    i as int,
                ),
                freed@ == Self::freed_by_release(self.sections(), before, i as int),
                forall|j: int| i <= j < CLASS_COUNT ==> #[trigger] cache@[j] == before.cache[j],
            decreases CLASS_COUNT - i,
        {
            let page: usize = cache.pages[i];
            if page != 0 {
                assert(before.cache[i as int] != 0);
                if let Some(at) = self.meta_for_phys(page) {
                    if self.release_reference(at) {
                        freed.push(page);
                    }
                    cache.pages[i] = 0;
                }
            }
            i = i + 1;
        }
        freed
    }

    /// The pages that go back to the frame allocator when a cache lets go of its
    /// first pages.
    pub open spec fn freed_by_release(
        sections: Seq<SlubSection>,
        world: SlabWorld,
        count: int,
    ) -> Seq<usize>
        decreases count,
    {
        if count <= 0 {
            Seq::empty()
        } else {
            let freed = Self::freed_by_release(sections, world, count - 1);
            let before = Self::after_release(sections, world, count - 1);
            let page = before.cache[count - 1];
            if page != 0 && before.pages[Self::slot_from(sections, page, 0)->0].refcount == 1 {
                freed.push(page)
            } else {
                freed
            }
        }
    }
}

/// Whether this is the smallest class whose objects satisfy a layout.
pub open spec fn is_class_of(layout: AllocLayout, class: Option<usize>) -> bool {
    match class {
        Some(i) => i < CLASS_COUNT && needed(layout) <= class_len(i as int) && (i > 0 ==> class_len(
            i - 1,
        ) < needed(layout)),
        None => needed(layout) > 2048,
    }
}

/// Whether the references of a page are its objects in use and its cache.
pub open spec fn balanced(page: PageView, object_size: int, cached: bool) -> bool {
    &&& page.refcount == capacity(object_size) - page.free.len() + if cached {
        1int
    } else {
        0
    }
    &&& page.free.len() <= capacity(object_size)
}

/// A fresh page is balanced, stays so when an object leaves it, and when one
/// comes back; it is given up exactly when all of its objects are free and no
/// cache refers to it.
pub proof fn law_references_are_counted(page: PageView, object: usize, object_size: int, cached: bool)
    requires
        8 <= object_size <= 2048,
        balanced(page, object_size, cached),
    ensures
        cached && page.free.len() > 0 ==> balanced(
            taken(page),
            object_size,
            page.free.len() > 1,
        ),
        page.free.len() < capacity(object_size) ==> balanced(
            PageView { free: page.free.push(object), refcount: page.refcount - 1 },
            object_size,
            cached,
        ),
        page.refcount == 0 <==> !cached && page.free.len() == capacity(object_size),
        page.free.len() < capacity(object_size) && page.refcount == 1 ==> !cached
            && page.free.len() + 1 == capacity(object_size),
{
}

/// A fresh page is balanced.
pub proof fn law_fresh_page_is_counted(page: int, object_size: int)
    requires
        8 <= object_size <= 2048,
        0 <= page,
        page + PAGE_SIZE <= usize::MAX,
    ensures
        balanced(fresh_page(page, object_size), object_size, true),
{
    lemma_objects(page, object_size);
}

/// The objects of a page lie in it, one behind the other.
pub proof fn law_objects_do_not_overlap(page: int, object_size: int, i: int, j: int)
    requires
        8 <= object_size <= 2048,
        0 <= page,
        page + PAGE_SIZE <= usize::MAX,
        0 <= i < j < capacity(object_size),
    ensures
        page <= objects_of(page, object_size)[j],
        objects_of(page, object_size)[j] + object_size <= objects_of(page, object_size)[i],
        objects_of(page, object_size)[i] + object_size <= page + PAGE_SIZE,
{
    lemma_objects(page, object_size);
    let count = capacity(object_size);
    let a = count - 1 - i;
    let b = count - 1 - j;
    assert(0 <= b * object_size) by (nonlinear_arith)
        requires
            b >= 0,
            object_size >= 8,
    ;
    assert(b * object_size + object_size <= a * object_size) by (nonlinear_arith)
        requires
            b + 1 <= a,
            object_size >= 8,
    ;
    assert(a * object_size + object_size <= count * object_size) by (nonlinear_arith)
        requires
            a + 1 <= count,
            object_size >= 8,
    ;
}

/// An object that comes back to the page in the cache is the next to be handed
/// out.
pub proof fn law_returned_object_comes_next(
    sections: Seq<SlubSection>,
    class: usize,
    page: usize,
    object: usize,
    fresh: Option<FreshPage>,
    before: SlabWorld,
    middle: SlabWorld,
    after: SlabWorld,
    result: SlabAllocation,
)
    requires
        class < CLASS_COUNT,
        before.cache.len() == CLASS_COUNT,
        page != 0,
        SlubRuntime::slot_from(sections, page, 0) matches Some(at) && 0 <= at < before.pages.len(),
        SlubRuntime::dealloc_effect(
            sections,
            Some(class),
            Some(page),
            object,
            before,
            middle,
            None,
        ),
        middle.cache[class as int] == page,
        SlubRuntime::alloc_effect(sections, class as int, fresh, middle, after, result),
    ensures
        result.object == Some(object),
{
}

/// A page is cut into objects that are all different.
pub proof fn law_fresh_objects_are_distinct(page: int, object_size: int)
    requires
        8 <= object_size <= 2048,
        0 <= page,
        page + PAGE_SIZE <= usize::MAX,
    ensures
        fresh_page(page, object_size).free.no_duplicates(),
{
    let all = objects_of(page, object_size);
    assert forall|i: int, j: int| 0 <= i < all.len() && 0 <= j < all.len() && i != j implies all[i]
        != all[j] by {
        if i < j {
            law_objects_do_not_overlap(page, object_size, i, j);
        } else {
            law_objects_do_not_overlap(page, object_size, j, i);
        }
    }
}

/// An object that is handed out is no longer free, and one that comes back, and
/// was not free, leaves the free objects all different.
pub proof fn law_handed_out_object_is_not_free(page: PageView, object: usize)
    requires
        page.free.no_duplicates(),
    ensures
        page.free.len() > 0 ==> !taken(page).free.contains(page.free.last()),
        page.free.len() > 0 ==> taken(page).free.no_duplicates(),
        !page.free.contains(object) ==> page.free.push(object).no_duplicates(),
{
    if page.free.len() > 0 {
        let rest = page.free.drop_last();
        assert forall|i: int| 0 <= i < rest.len() implies rest[i] != page.free.last() by {
            assert(page.free[i] != page.free[page.free.len() - 1]);
        }
    }
    if !page.free.contains(object) {
        let grown = page.free.push(object);
        assert forall|i: int, j: int|
            0 <= i < grown.len() && 0 <= j < grown.len() && i != j implies grown[i] != grown[j] by {
            if i < page.free.len() {
                assert(page.free.contains(page.free[i]));
            }
            if j < page.free.len() {
                assert(page.free.contains(page.free[j]));
            }
        }
    }
}

} // verus!
