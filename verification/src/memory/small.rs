//! The small objects of all processors.

use super::early::AllocLayout;
use super::slab::{
    capacity, class_index, class_len, is_class_of, needed, no_page, page_floor, without_exhausted,
    FreshPage, PageView, SlabAllocation, SlabWorld, SlubCache, SlubRuntime, SlubSection,
    CLASS_COUNT, PAGE_SIZE,
};
use vstd::prelude::*;

verus! {

/// Whether an entry of a cache refers to a page: 1 if so, else 0.
pub open spec fn holds(sections: Seq<SlubSection>, page: usize, at: int) -> int {
    if page != 0 && SlubRuntime::slot_from(sections, page, 0) == Some(at) {
        1
    } else {
        0
    }
}

/// How often a cache refers to a page.
pub open spec fn held_by(sections: Seq<SlubSection>, cache: Seq<usize>, at: int) -> int
    decreases cache.len(),
{
    if cache.len() == 0 {
        0
    } else {
        held_by(sections, cache.drop_last(), at) + holds(sections, cache.last(), at)
    }
}

/// How often the caches refer to a page.
pub open spec fn held(sections: Seq<SlubSection>, caches: Seq<Seq<usize>>, at: int) -> int
    decreases caches.len(),
{
    if caches.len() == 0 {
        0
    } else {
        held(sections, caches.drop_last(), at) + held_by(sections, caches.last(), at)
    }
}

proof fn lemma_entry(sections: Seq<SlubSection>, cache: Seq<usize>, k: int, page: usize, at: int)
    requires
        0 <= k < cache.len(),
    ensures
        held_by(sections, cache, at) >= holds(sections, cache[k], at),
        held_by(sections, cache.update(k, page), at) == held_by(sections, cache, at) - holds(
            sections,
            cache[k],
            at,
        ) + holds(sections, page, at),
    decreases cache.len(),
{
    lemma_not_negative(sections, cache.drop_last(), at);
    if k == cache.len() - 1 {
        assert(cache.update(k, page).drop_last() =~= cache.drop_last());
    } else {
        assert(cache.update(k, page).drop_last() =~= cache.drop_last().update(k, page));
        lemma_entry(sections, cache.drop_last(), k, page, at);
    }
}

proof fn lemma_not_negative(sections: Seq<SlubSection>, cache: Seq<usize>, at: int)
    ensures
        held_by(sections, cache, at) >= 0,
    decreases cache.len(),
{
    if cache.len() > 0 {
        lemma_not_negative(sections, cache.drop_last(), at);
    }
}

proof fn lemma_cache(
    sections: Seq<SlubSection>,
    caches: Seq<Seq<usize>>,
    c: int,
    cache: Seq<usize>,
    at: int,
)
    requires
        0 <= c < caches.len(),
    ensures
        held(sections, caches, at) >= held_by(sections, caches[c], at) >= 0,
        held(sections, caches.update(c, cache), at) == held(sections, caches, at) - held_by(
            sections,
            caches[c],
            at,
        ) + held_by(sections, cache, at),
    decreases caches.len(),
{
    lemma_not_negative(sections, caches[c], at);
    lemma_none_negative(sections, caches.drop_last(), at);
    if c == caches.len() - 1 {
        assert(caches.update(c, cache).drop_last() =~= caches.drop_last());
    } else {
        lemma_not_negative(sections, caches.last(), at);
        assert(caches.update(c, cache).drop_last() =~= caches.drop_last().update(c, cache));
        lemma_cache(sections, caches.drop_last(), c, cache, at);
    }
}

proof fn lemma_none_negative(sections: Seq<SlubSection>, caches: Seq<Seq<usize>>, at: int)
    ensures
        held(sections, caches, at) >= 0,
    decreases caches.len(),
{
    if caches.len() > 0 {
        lemma_none_negative(sections, caches.drop_last(), at);
        lemma_not_negative(sections, caches.last(), at);
    }
}

/// Objects of all processors, and the pages that they come from.
#[verifier::ext_equal]
pub struct SmallView {
    pub sections: Seq<SlubSection>,
    pub pages: Seq<PageView>,
    /// The cache that is in use while one processor runs, then those of the
    /// processors.
    pub caches: Seq<Seq<usize>>,
    pub ready: bool,
}

impl SmallView {
    /// How often the caches refer to a page.
    pub open spec fn held(self, at: int) -> int {
        held(self.sections, self.caches, at)
    }

    /// Objects of a page that are in use: the references that no cache has.
    pub open spec fn used(self, at: int) -> int {
        self.pages[at].refcount - self.held(at)
    }

    /// Each cache counts among the references of its pages.
    pub open spec fn wf(self) -> bool {
        &&& self.caches.len() >= 1
        &&& forall|i: int|
            0 <= i < self.caches.len() ==> (#[trigger] self.caches[i]).len() == CLASS_COUNT
        &&& forall|i: int, k: int|
            0 <= i < self.caches.len() && 0 <= k < CLASS_COUNT && #[trigger] self.caches[i][k] != 0
                ==> {
                &&& SlubRuntime::slot_from(self.sections, self.caches[i][k], 0) matches Some(at)
                &&& 0 <= at < self.pages.len()
            }
        &&& forall|at: int|
            0 <= at < self.pages.len() ==> self.held(at) <= (#[trigger] self.pages[at]).refcount
    }

    /// One cache, and the pages.
    pub open spec fn world(self, c: int) -> SlabWorld {
        SlabWorld { cache: self.caches[c], pages: self.pages }
    }

    /// The same objects with another state of one cache and of the pages.
    pub open spec fn with(self, c: int, world: SlabWorld) -> SmallView {
        SmallView {
            pages: world.pages,
            caches: self.caches.update(c, world.cache),
            ..self
        }
    }

    /// Position of the cache that a processor uses; `None` stands for the cache
    /// that is in use while one processor runs.
    pub open spec fn cache_of(cpu: Option<usize>) -> int {
        match cpu {
            Some(cpu) => cpu + 1,
            None => 0,
        }
    }

    /// Whether a request is served at all.
    pub open spec fn serves(self, class: Option<usize>, cpu: Option<usize>) -> bool {
        class is Some && (cpu is Some ==> self.ready)
    }

    /// The page that the next object of a class comes from.
    pub open spec fn source(self, c: int, class: int, fresh: Option<FreshPage>) -> Option<int> {
        let page = self.caches[c][class];
        let at = SlubRuntime::slot_from(self.sections, page, 0);
        if page != 0 && self.pages[at->0].free.len() > 0 {
            at
        } else {
            match fresh {
                Some(fresh) => SlubRuntime::slot_from(self.sections, fresh.phys, 0),
                None => None,
            }
        }
    }

    /// Whether a fresh page can be used: it is known, and nothing refers to it.
    pub open spec fn takes(self, fresh: Option<FreshPage>) -> bool {
        fresh matches Some(page) ==> {
            &&& SlubRuntime::slot_from(self.sections, page.phys, 0) matches Some(at)
            &&& 0 <= at < self.pages.len()
            &&& self.pages[at] == no_page()
            &&& page.phys != 0
            &&& page.virt + PAGE_SIZE <= usize::MAX
        }
    }

    /// What a request for a small object does.
    pub open spec fn alloc_small_effect(
        self,
        after: SmallView,
        class: Option<usize>,
        cpu: Option<usize>,
        fresh: Option<FreshPage>,
        result: SlabAllocation,
    ) -> bool {
        if !self.serves(class, cpu) {
            &&& after == self
            &&& result == SlabAllocation { object: None, used_fresh: false, freed: None }
        } else {
            let c = Self::cache_of(cpu);
            &&& after == self.with(c, after.world(c))
            &&& SlubRuntime::alloc_effect(
                self.sections,
                class->0 as int,
                fresh,
                self.world(c),
                after.world(c),
                result,
            )
        }
    }

    /// What the return of a small object does.
    pub open spec fn dealloc_small_effect(
        self,
        after: SmallView,
        class: Option<usize>,
        cpu: Option<usize>,
        page: Option<usize>,
        object: usize,
        freed: Option<usize>,
    ) -> bool {
        if cpu is Some && !self.ready {
            after == self && freed is None
        } else {
            let c = Self::cache_of(cpu);
            &&& after == self.with(c, after.world(c))
            &&& SlubRuntime::dealloc_effect(
                self.sections,
                class,
                page,
                object,
                self.world(c),
                after.world(c),
                freed,
            )
        }
    }

    /// A cache lets go of the page of one class.
    proof fn lemma_let_go(self, c: int, class: int, at: int)
        requires
            self.wf(),
            0 <= c < self.caches.len(),
            0 <= class < CLASS_COUNT,
            self.caches[c][class] != 0,
            SlubRuntime::slot_from(self.sections, self.caches[c][class], 0) == Some(at),
        ensures
            0 <= at < self.pages.len(),
            self.pages[at].refcount >= 1,
            self.with(c, without_exhausted(self.world(c), class, at)).wf(),
            forall|p: int|
                0 <= p < self.pages.len() ==> #[trigger] self.with(
                    c,
                    without_exhausted(self.world(c), class, at),
                ).used(p) == self.used(p),
    {
        let after = self.with(c, without_exhausted(self.world(c), class, at));
        let cache = self.caches[c].update(class, 0);
        lemma_entry(self.sections, self.caches[c], class, 0, at);
        lemma_cache(self.sections, self.caches, c, cache, at);
        assert(self.held(at) <= self.pages[at].refcount);
        assert forall|p: int| 0 <= p < self.pages.len() implies #[trigger] after.used(p)
            == self.used(p) && after.held(p) <= after.pages[p].refcount by {
            lemma_entry(self.sections, self.caches[c], class, 0, p);
            lemma_cache(self.sections, self.caches, c, cache, p);
            assert(self.held(p) <= self.pages[p].refcount);
        }
        assert forall|p: int| 0 <= p < after.pages.len() implies after.held(p) <= (
        #[trigger] after.pages[p]).refcount by {
            assert(after.used(p) == self.used(p));
            assert(self.held(p) <= self.pages[p].refcount);
        }
    }
}

/// What a request for a small object keeps: each cache still counts among the
/// references of its pages, the page that an object came from has one more object
/// in use, and the others have as many as before.
pub proof fn law_handed_out_objects_are_counted(
    before: SmallView,
    after: SmallView,
    class: Option<usize>,
    cpu: Option<usize>,
    fresh: Option<FreshPage>,
    result: SlabAllocation,
    page: int,
)
    requires
        before.wf(),
        class matches Some(class) ==> class < CLASS_COUNT,
        SmallView::cache_of(cpu) < before.caches.len(),
        before.takes(fresh),
        before.alloc_small_effect(after, class, cpu, fresh, result),
        0 <= page < before.pages.len(),
    ensures
        after.wf(),
        after.used(page) == before.used(page) + (if result.object is Some && before.source(
            SmallView::cache_of(cpu),
            class->0 as int,
            fresh,
        ) == Some(page) {
            1int
        } else {
            0
        }),
{
    if before.serves(class, cpu) {
        let c = SmallView::cache_of(cpu);
        let k = class->0 as int;
        let cache = before.caches[c];
        let cached = cache[k];
        let at = SlubRuntime::slot_from(before.sections, cached, 0)->0;
        assert(before.caches[c].len() == CLASS_COUNT);
        if cached != 0 && before.pages[at].free.len() > 0 {
            assert(before.caches[c][k] != 0);
            let next = after.caches[c];
            assert(cache.update(k, cache[k]) =~= cache);
            let entry: usize = if before.pages[at].free.len() == 1 {
                0
            } else {
                cached
            };
            assert(next == cache.update(k, entry));
            assert forall|p: int| 0 <= p < before.pages.len() implies after.used(p) == before.used(
                p,
            ) + (if p == at {
                1int
            } else {
                0
            }) && after.held(p) <= (#[trigger] after.pages[p]).refcount by {
                lemma_entry(before.sections, cache, k, entry, p);
                lemma_cache(before.sections, before.caches, c, next, p);
                assert(before.held(p) <= before.pages[p].refcount);
            }
        } else {
            let cleared = if cached != 0 {
                before.with(c, without_exhausted(before.world(c), k, at))
            } else {
                before
            };
            if cached != 0 {
                assert(before.caches[c][k] != 0);
                before.lemma_let_go(c, k, at);
            }
            assert(cleared.used(page) == before.used(page));
            assert(cleared.wf());
            match fresh {
                None => {
                    assert(before.caches.update(c, cache) =~= before.caches);
                    assert(after == cleared);
                },
                Some(fresh) => {
                    let slot = SlubRuntime::slot_from(before.sections, fresh.phys, 0)->0;
                    assert(before.held(slot) <= before.pages[slot].refcount);
                    lemma_none_negative(before.sections, before.caches, slot);
                    assert(cached != 0 ==> slot != at);
                    assert(cleared.pages[slot] == no_page());
                    lemma_room(k);
                    let next = cleared.caches[c].update(k, fresh.phys);
                    assert(after.caches[c] == next);
                    assert(after.caches =~= cleared.caches.update(c, next));
                    assert forall|p: int| 0 <= p < before.pages.len() implies after.used(p)
                        == cleared.used(p) + (if p == slot {
                        1int
                    } else {
                        0
                    }) && after.held(p) <= (#[trigger] after.pages[p]).refcount by {
                        assert(cleared.caches[c][k] == 0);
                        lemma_entry(before.sections, cleared.caches[c], k, fresh.phys, p);
                        lemma_cache(before.sections, cleared.caches, c, next, p);
                        assert(cleared.held(p) <= cleared.pages[p].refcount);
                    }
                },
            }
        }
        assert(after.pages[page].refcount >= after.held(page));
    }
}

proof fn lemma_room(class: int)
    requires
        0 <= class < CLASS_COUNT,
    ensures
        capacity(class_len(class)) >= 2,
{
}

/// What the return of a small object keeps: each cache still counts among the
/// references of its pages, the page of the object has one object less in use,
/// and the others have as many as before.
pub proof fn law_returned_objects_are_counted(
    before: SmallView,
    after: SmallView,
    class: usize,
    cpu: Option<usize>,
    owner: usize,
    at: int,
    object: usize,
    freed: Option<usize>,
    page: int,
)
    requires
        before.wf(),
        class < CLASS_COUNT,
        SmallView::cache_of(cpu) < before.caches.len(),
        cpu is Some ==> before.ready,
        owner != 0,
        SlubRuntime::slot_from(before.sections, owner, 0) == Some(at),
        0 <= at < before.pages.len(),
        before.used(at) >= 1,
        before.dealloc_small_effect(after, Some(class), cpu, Some(owner), object, freed),
        0 <= page < before.pages.len(),
    ensures
        after.wf(),
        after.used(page) == before.used(page) - (if page == at {
            1int
        } else {
            0
        }),
        freed is Some <==> after.pages[at].refcount == 0,
        freed is Some <==> before.used(at) == 1 && before.held(at) == 0,
{
    let c = SmallView::cache_of(cpu);
    let k = class as int;
    let cache = before.caches[c];
    assert(cache.len() == CLASS_COUNT);
    assert(cache.update(k, cache[k]) =~= cache);
    let next = after.caches[c];
    let entry: usize = next[k];
    assert(next =~= cache.update(k, entry));
    lemma_none_negative(before.sections, before.caches, at);
    assert forall|p: int| 0 <= p < before.pages.len() implies after.used(p) == before.used(p) - (
    if p == at {
        1int
    } else {
        0
    }) && after.held(p) <= (#[trigger] after.pages[p]).refcount by {
        lemma_entry(before.sections, cache, k, entry, p);
        lemma_cache(before.sections, before.caches, c, next, p);
        assert(before.held(p) <= before.pages[p].refcount);
    }
    assert(after.pages[page].refcount >= after.held(page));
    assert(after.pages[at].refcount >= after.held(at));
}

/// The small objects of all processors.
pub struct SmallObjects {
    slub: SlubRuntime,
    caches: Vec<SlubCache>,
    ready: bool,
}

impl View for SmallObjects {
    type V = SmallView;

    closed spec fn view(&self) -> SmallView {
        SmallView {
            sections: self.slub.sections(),
            pages: self.slub.pages(),
            caches: self.caches@.map_values(|cache: SlubCache| cache@),
            ready: self.ready,
        }
    }
}

impl SmallObjects {
    pub closed spec fn wf(&self) -> bool {
        self.slub.wf() && self@.wf()
    }

    /// Takes over pages of which none is in use yet.
    pub fn new(slub: SlubRuntime, cpu_count: usize) -> (objects: Self)
        requires
            slub.wf(),
            forall|at: int| 0 <= at < slub.pages().len() ==> #[trigger] slub.pages()[at] == no_page(),
            cpu_count < usize::MAX,
        ensures
            objects.wf(),
            objects@.sections == slub.sections(),
            objects@.pages == slub.pages(),
            objects@.caches.len() == cpu_count + 1,
            forall|i: int, k: int|
                0 <= i <= cpu_count && 0 <= k < CLASS_COUNT ==> #[trigger] objects@.caches[i][k]
                    == 0,
            !objects@.ready,
    {
        let mut caches: Vec<SlubCache> = Vec::new();
        let mut i: usize = 0;
        while i < cpu_count + 1
            invariant
                i <= cpu_count + 1,
                cpu_count < usize::MAX,
                caches@.len() == i,
                forall|j: int| 0 <= j < i ==> (#[trigger] caches@[j])@.len() == CLASS_COUNT,
                forall|j: int, k: int|
                    0 <= j < i && 0 <= k < CLASS_COUNT ==> #[trigger] caches@[j]@[k] == 0,
            decreases cpu_count + 1 - i,
        {
            caches.push(SlubCache::new());
            i = i + 1;
        }
        let objects = SmallObjects { slub, caches, ready: false };
        proof {
            let view = objects@;
            assert forall|at: int| 0 <= at < view.pages.len() implies view.held(at) <= (
            #[trigger] view.pages[at]).refcount by {
                lemma_empty(view.sections, view.caches, at);
            }
        }
        objects
    }

    /// Hands out an object of the smallest class that satisfies a layout. The
    /// caches of the processors serve nobody before they are ready.
    pub fn alloc_small(
        &mut self,
        layout: AllocLayout,
        cpu: Option<usize>,
        fresh: Option<FreshPage>,
    ) -> (result: SlabAllocation)
        requires
            old(self).wf(),
            SmallView::cache_of(cpu) < old(self)@.caches.len(),
            old(self)@.takes(fresh),
            forall|at: int|
                0 <= at < old(self)@.pages.len() ==> (#[trigger] old(self)@.pages[at]).refcount
                    < usize::MAX,
        ensures
            final(self).wf(),
            exists|class: Option<usize>|
                #![trigger is_class_of(layout, class)]
                is_class_of(layout, class) && old(self)@.alloc_small_effect(
                    final(self)@,
                    class,
                    cpu,
                    fresh,
                    result,
                ),
    {
        let class = class_index(layout);
        assert(is_class_of(layout, class));
        let class_index: usize = match class {
            Some(index) => index,
            None => {
                return SlabAllocation { object: None, used_fresh: false, freed: None };
            },
        };
        if cpu.is_some() && !self.ready {
            return SlabAllocation { object: None, used_fresh: false, freed: None };
        }
        let count: usize = self.caches.len();
        assert(count == self@.caches.len());
        let index: usize = match cpu {
            Some(cpu) => cpu + 1,
            None => 0,
        };
        let ghost before = self@;
        proof {
            assert(before.caches[index as int] == self.caches@[index as int]@);
            if before.caches[index as int][class_index as int] != 0 {
                let at = SlubRuntime::slot_from(
                    before.sections,
                    before.caches[index as int][class_index as int],
                    0,
                )->0;
                before.lemma_let_go(index as int, class_index as int, at);
            }
        }
        let result = self.slub.allocate(&mut self.caches[index], class_index, fresh);
        proof {
            let after = self@;
            assert(after.caches =~= before.caches.update(index as int, after.caches[index as int]));
            assert(before.alloc_small_effect(after, class, cpu, fresh, result));
            if before.pages.len() > 0 {
                law_handed_out_objects_are_counted(
                    before,
                    after,
                    class,
                    cpu,
                    fresh,
                    result,
                    0,
                );
            }
        }
        result
    }

    /// Takes back an object that is in use. The page that has to go back to the
    /// frame allocator is returned.
    pub fn dealloc_small(
        &mut self,
        object: usize,
        phys: Option<usize>,
        layout: AllocLayout,
        cpu: Option<usize>,
    ) -> (freed: Option<usize>)
        requires
            old(self).wf(),
            SmallView::cache_of(cpu) < old(self)@.caches.len(),
            phys matches Some(phys) ==> (SlubRuntime::slot_from(
                old(self)@.sections,
                page_floor(phys) as usize,
                0,
            ) matches Some(at) ==> page_floor(phys) != 0 && old(self)@.used(at) >= 1),
        ensures
            final(self).wf(),
            exists|class: Option<usize>|
                #![trigger is_class_of(layout, class)]
                is_class_of(layout, class) && old(self)@.dealloc_small_effect(
                    final(self)@,
                    class,
                    cpu,
                    match phys {
                        Some(phys) => Some(page_floor(phys) as usize),
                        None => None,
                    },
                    object,
                    freed,
                ),
    {
        if cpu.is_some() && !self.ready {
            proof {
                lemma_has_class(layout);
            }
            return None;
        }
        let count: usize = self.caches.len();
        assert(count == self@.caches.len());
        let index: usize = match cpu {
            Some(cpu) => cpu + 1,
            None => 0,
        };
        let ghost before = self@;
        let ghost owner = match phys {
            Some(phys) => Some(page_floor(phys) as usize),
            None => None,
        };
        proof {
            assert(before.caches[index as int] == self.caches@[index as int]@);
            if owner is Some {
                self.slub.lemma_slot(owner->0, 0);
                let at = SlubRuntime::slot_from(before.sections, owner->0, 0);
                if at is Some {
                    lemma_none_negative(before.sections, before.caches, at->0);
                }
            }
        }
        let freed = self.slub.deallocate(&mut self.caches[index], object, phys, layout);
        proof {
            let after = self@;
            let class = choose|class: Option<usize>|
                #![trigger is_class_of(layout, class)]
                is_class_of(layout, class) && SlubRuntime::dealloc_effect(
                    before.sections,
                    class,
                    owner,
                    object,
                    before.world(index as int),
                    after.world(index as int),
                    freed,
                );
            assert(after.caches =~= before.caches.update(index as int, after.caches[index as int]));
            assert(is_class_of(layout, class) && before.dealloc_small_effect(
                after,
                class,
                cpu,
                owner,
                object,
                freed,
            ));
            if class is Some && owner is Some && SlubRuntime::slot_from(
                before.sections,
                owner->0,
                0,
            ) is Some {
                let at = SlubRuntime::slot_from(before.sections, owner->0, 0)->0;
                law_returned_objects_are_counted(
                    before,
                    after,
                    class->0,
                    cpu,
                    owner->0,
                    at,
                    object,
                    freed,
                    at,
                );
            } else {
                assert(after.caches =~= before.caches);
            }
        }
        freed
    }
}

impl SmallView {
    /// The objects once the first cache has let go of its first pages.
    pub open spec fn let_go(self, count: int) -> SmallView {
        self.with(0, SlubRuntime::after_release(self.sections, self.world(0), count))
    }

    /// Letting go of the pages of the first cache keeps the objects that are in
    /// use.
    proof fn lemma_let_go_all(self, count: int)
        requires
            self.wf(),
            0 <= count <= CLASS_COUNT,
        ensures
            self.let_go(count).wf(),
            self.let_go(count).pages.len() == self.pages.len(),
            forall|k: int|
                count <= k < CLASS_COUNT ==> #[trigger] self.let_go(count).caches[0][k]
                    == self.caches[0][k],
            forall|k: int|
                0 <= k < count ==> #[trigger] self.let_go(count).caches[0][k] == 0,
            forall|p: int|
                0 <= p < self.pages.len() ==> #[trigger] self.let_go(count).used(p) == self.used(
                    p,
                ),
        decreases count,
    {
        assert(self.caches[0].len() == CLASS_COUNT);
        if count == 0 {
            assert(self.caches.update(0, self.caches[0]) =~= self.caches);
            assert(self.let_go(0) == self);
        } else {
            let before = self.let_go(count - 1);
            self.lemma_let_go_all(count - 1);
            assert(before.caches[0].len() == CLASS_COUNT);
            let page = before.caches[0][count - 1];
            if page == 0 {
                assert(self.let_go(count) == before);
            } else {
                let at = SlubRuntime::slot_from(self.sections, page, 0)->0;
                before.lemma_let_go(0, count - 1, at);
                assert(self.let_go(count).caches =~= before.with(
                    0,
                    without_exhausted(before.world(0), count - 1, at),
                ).caches);
                assert(self.let_go(count) == before.with(
                    0,
                    without_exhausted(before.world(0), count - 1, at),
                ));
                assert forall|p: int| 0 <= p < self.pages.len() implies #[trigger] self.let_go(
                    count,
                ).used(p) == self.used(p) by {
                    assert(before.used(p) == self.used(p));
                }
            }
        }
    }
}

/// The caches of the processors take over without a change to the objects that
/// are in use.
pub proof fn law_taking_over_keeps_objects(view: SmallView, page: int)
    requires
        view.wf(),
        0 <= page < view.pages.len(),
    ensures
        view.let_go(CLASS_COUNT as int).wf(),
        view.let_go(CLASS_COUNT as int).used(page) == view.used(page),
{
    view.lemma_let_go_all(CLASS_COUNT as int);
}

impl SmallObjects {
    /// Empties the cache of the time before the other processors run; from now on
    /// their own caches serve them. The pages that have to go back to the frame
    /// allocator are returned.
    pub fn enter_per_cpu(&mut self) -> (freed: Vec<usize>)
        requires
            old(self).wf(),
        ensures
            final(self).wf(),
            final(self)@ == (SmallView { ready: true, ..old(self)@.let_go(CLASS_COUNT as int) }),
            freed@ == SlubRuntime::freed_by_release(
                old(self)@.sections,
                old(self)@.world(0),
                CLASS_COUNT as int,
            ),
    {
        let ghost before = self@;
        proof {
            assert(before.caches[0] == self.caches@[0]@);
            assert forall|i: int|
                0 <= i < CLASS_COUNT && #[trigger] before.caches[0][i] != 0 implies {
                &&& SlubRuntime::slot_from(before.sections, before.caches[0][i], 0) matches Some(
                    at,
                )
                &&& SlubRuntime::after_release(before.sections, before.world(0), i).pages[at].refcount
                    >= 1
            } by {
                let gone = before.let_go(i);
                before.lemma_let_go_all(i);
                assert(gone.caches[0][i] == before.caches[0][i]);
                let at = SlubRuntime::slot_from(before.sections, before.caches[0][i], 0)->0;
                gone.lemma_let_go(0, i, at);
            }
            before.lemma_let_go_all(CLASS_COUNT as int);
        }
        let freed = self.slub.release(&mut self.caches[0]);
        proof {
            assert(self@.caches =~= before.let_go(CLASS_COUNT as int).caches);
        }
        self.ready = true;
        proof {
            let after = self@;
            let gone = before.let_go(CLASS_COUNT as int);
            assert(after == SmallView { ready: true, ..gone });
            assert forall|at: int| 0 <= at < after.pages.len() implies after.held(at) <= (
            #[trigger] after.pages[at]).refcount by {
                assert(gone.held(at) <= gone.pages[at].refcount);
            }
        }
        freed
    }
}

/// Each layout has a class, or is too large for all of them.
proof fn lemma_has_class(layout: AllocLayout)
    ensures
        exists|class: Option<usize>| #[trigger] is_class_of(layout, class),
{
    let size = needed(layout);
    let class: Option<usize> = if size > 2048 {
        None
    } else if size > 1024 {
        Some(8)
    } else if size > 512 {
        Some(7)
    } else if size > 256 {
        Some(6)
    } else if size > 128 {
        Some(5)
    } else if size > 64 {
        Some(4)
    } else if size > 32 {
        Some(3)
    } else if size > 16 {
        Some(2)
    } else if size > 8 {
        Some(1)
    } else {
        Some(0)
    };
    assert(is_class_of(layout, class));
}

proof fn lemma_empty(sections: Seq<SlubSection>, caches: Seq<Seq<usize>>, at: int)
    requires
        forall|i: int| 0 <= i < caches.len() ==> (#[trigger] caches[i]).len() == CLASS_COUNT,
        forall|i: int, k: int|
            0 <= i < caches.len() && 0 <= k < CLASS_COUNT ==> #[trigger] caches[i][k] == 0,
    ensures
        held(sections, caches, at) == 0,
    decreases caches.len(),
{
    if caches.len() > 0 {
        let rest = caches.drop_last();
        assert forall|i: int| 0 <= i < rest.len() implies (#[trigger] rest[i]).len()
            == CLASS_COUNT by {
            assert(caches[i].len() == CLASS_COUNT);
        }
        assert forall|i: int, k: int|
            0 <= i < rest.len() && 0 <= k < CLASS_COUNT implies #[trigger] rest[i][k] == 0 by {
            assert(caches[i][k] == 0);
        }
        lemma_empty(sections, rest, at);
        assert(caches.last() == caches[caches.len() - 1]);
        lemma_empty_cache(sections, caches.last(), at);
    }
}

proof fn lemma_empty_cache(sections: Seq<SlubSection>, cache: Seq<usize>, at: int)
    requires
        forall|k: int| 0 <= k < cache.len() ==> #[trigger] cache[k] == 0,
    ensures
        held_by(sections, cache, at) == 0,
    decreases cache.len(),
{
    if cache.len() > 0 {
        lemma_empty_cache(sections, cache.drop_last(), at);
    }
}

} // verus!
