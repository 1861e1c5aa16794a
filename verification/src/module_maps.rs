use vstd::prelude::*;

use crate::lookup::{find_first, is_first_found};

verus! {

/// A module loaded in this process: where its memory lies and its file
/// name. Its memory never wraps around the end of the address space.
pub struct Module {
    base: usize,
    size: usize,
    file_name: String,
}

impl Module {
    #[verifier::type_invariant]
    spec fn fits(self) -> bool {
        self.base + self.size <= usize::MAX
    }

    /// The first address of the module's memory.
    pub closed spec fn base_address(self) -> usize {
        self.base
    }

    /// The length of the module's memory.
    pub closed spec fn memory_size(self) -> usize {
        self.size
    }

    /// The module's file name.
    pub closed spec fn name(self) -> Seq<char> {
        self.file_name@
    }

    /// A module whose memory is `size` bytes from `base`.
    pub fn new(base: usize, size: usize, file_name: String) -> (m: Module)
        requires
            base + size <= usize::MAX,
        ensures
            m.base_address() == base,
            m.memory_size() == size,
            m.name() == file_name@,
    {
        Module { base, size, file_name }
    }

    /// The first address of the module's memory.
    pub fn base(&self) -> (b: usize)
        ensures
            b == self.base_address(),
    {
        self.base
    }

    /// The module's file name.
    pub fn file_name(&self) -> (name: &str)
        ensures
            name@ == self.name(),
    {
        self.file_name.as_str()
    }

    /// The module's memory as (first address, length).
    pub fn memory(&self) -> (m: (usize, usize))
        ensures
            m == (self.base_address(), self.memory_size()),
            m.0 + m.1 <= usize::MAX,
    {
        proof {
            use_type_invariant(self);
        }
        (self.base, self.size)
    }

    /// A walk over the memory regions of the module, from its base.
    pub fn regions_snapshot(&self) -> (r: Regions)
        ensures
            r.end() == self.base_address() + self.memory_size(),
            r.next_base() == Some(self.base_address()),
    {
        proof {
            use_type_invariant(self);
        }
        Regions { module_end: self.base + self.size, next_region_base: Some(self.base) }
    }
}

/// The modules of one snapshot of the process.
pub struct ModuleMap {
    modules: Vec<Module>,
}

impl View for ModuleMap {
    type V = Seq<Module>;

    closed spec fn view(&self) -> Seq<Module> {
        self.modules@
    }
}

impl ModuleMap {
    /// A snapshot made of the given modules, in order.
    pub fn from_modules(modules: Vec<Module>) -> (res: ModuleMap)
        ensures
            res@ == modules@,
    {
        ModuleMap { modules }
    }

    /// Hands out the modules of the snapshot in order.
    pub fn into_iter(self) -> (res: Modules)
        ensures
            res@ == self@,
    {
        Modules { remaining: self.modules }
    }
}

/// The modules of a snapshot that are left to hand out.
pub struct Modules {
    remaining: Vec<Module>,
}

impl View for Modules {
    type V = Seq<Module>;

    closed spec fn view(&self) -> Seq<Module> {
        self.remaining@
    }
}

impl Modules {
    /// The next module, if any is left.
    pub fn next(&mut self) -> (res: Option<Module>)
        ensures
            old(self)@.len() == 0 ==> res is None && final(self)@ == old(self)@,
            old(self)@.len() > 0 ==> res == Some(old(self)@[0]) && final(self)@ == old(
                self,
            )@.drop_first(),
    {
        if self.remaining.len() == 0 {
            None
        } else {
            let m = self.remaining.remove(0);
            assert(self.remaining@ =~= old(self)@.drop_first());
            Some(m)
        }
    }
}

/// The first module of the snapshot that `predicate` accepts.
pub fn find_module<P: Fn(&Module) -> bool>(map: ModuleMap, predicate: P) -> (res: Option<Module>)
    requires
        forall|m: &Module| call_requires(predicate, (m,)),
    ensures
        is_first_found(map@, predicate, res),
{
    find_first(map.modules, predicate)
}

/// A memory region: its first address and its length.
#[derive(Clone, Copy, Debug, PartialEq, Eq, Structural)]
pub struct RegionInfo {
    pub base: usize,
    pub size: usize,
}

/// A walk over the memory regions of a module. The caller queries the
/// region at `next_region_base` and hands the answer to `next`.
pub struct Regions {
    module_end: usize,
    next_region_base: Option<usize>,
}

impl Regions {
    /// The end of the module's memory.
    pub closed spec fn end(&self) -> usize {
        self.module_end
    }

    /// Where the next region is to be queried; `None` once the walk is over.
    pub closed spec fn next_base(&self) -> Option<usize> {
        self.next_region_base
    }

    /// The address to query next, if the walk is not over.
    pub fn next_region_base(&self) -> (a: Option<usize>)
        ensures
            a == self.next_base(),
    {
        self.next_region_base
    }

    /// Takes the answer to the query at `next_region_base` and yields that
    /// region. A failed query (the module was unloaded) ends the walk; so
    /// does a region that reaches the module's end.
    pub fn next(&mut self, queried: Option<RegionInfo>) -> (res: Option<RegionInfo>)
        requires
            queried matches Some(r) ==> r.base + r.size <= usize::MAX,
        ensures
            final(self).end() == old(self).end(),
            (res, final(self).next_base()) == walk_step(old(self).next_base(), old(self).end(), queried),
            final(self).next_base() matches Some(b) ==> b < final(self).end(),
    {
        if self.next_region_base.is_none() {
            return None;
        }
        let region = match queried {
            Some(r) => r,
            None => {
                self.next_region_base = None;
                return None;
            },
        };
        let next = region.base + region.size;
        self.next_region_base = if next < self.module_end {
            Some(next)
        } else {
            None
        };
        Some(region)
    }
}

/// One step of a region walk: the region yielded and the address to query
/// next, from the address queried now, the module's end and the answer.
/// A walk that is over, or a failed query, yields nothing and ends.
pub open spec fn walk_step(next: Option<usize>, end: usize, queried: Option<RegionInfo>) -> (
    Option<RegionInfo>,
    Option<usize>,
) {
    match (next, queried) {
        (Some(_), Some(r)) => (
            Some(r),
            if r.base + r.size < end {
                Some((r.base + r.size) as usize)
            } else {
                None
            },
        ),
        _ => (None, None),
    }
}

/// The address a walk queries at step `k`, given the answers so far.
pub open spec fn walk_next(
    start: Option<usize>,
    end: usize,
    answers: Seq<Option<RegionInfo>>,
    k: nat,
) -> Option<usize>
    decreases k,
{
    if k == 0 {
        start
    } else {
        walk_step(walk_next(start, end, answers, (k - 1) as nat), end, answers[k - 1]).1
    }
}

/// The region a walk yields at step `k`.
pub open spec fn walk_yield(
    start: Option<usize>,
    end: usize,
    answers: Seq<Option<RegionInfo>>,
    k: nat,
) -> Option<RegionInfo> {
    walk_step(walk_next(start, end, answers, k), end, answers[k as int]).0
}

/// The answers are those of a memory query: each region found holds the
/// address that was queried and does not wrap around the address space.
pub open spec fn answers_hold_queries(
    start: Option<usize>,
    end: usize,
    answers: Seq<Option<RegionInfo>>,
) -> bool {
    forall|k: int|
        0 <= k < answers.len() ==> match #[trigger] answers[k] {
            Some(r) => r.base + r.size <= usize::MAX && (walk_next(start, end, answers, k as nat) matches Some(
                a,
            ) ==> r.base <= a < r.base + r.size),
            None => true,
        }
}

proof fn lemma_walk_bounds(base: usize, end: usize, answers: Seq<Option<RegionInfo>>, k: nat)
    requires
        base < end,
        k <= answers.len(),
        answers_hold_queries(Some(base), end, answers),
    ensures
        walk_next(Some(base), end, answers, k) matches Some(a) ==> base + k <= a < end,
    decreases k,
{
    if k > 0 {
        lemma_walk_bounds(base, end, answers, (k - 1) as nat);
        let prev = walk_next(Some(base), end, answers, (k - 1) as nat);
        let q = answers[k - 1];
        if let (Some(a), Some(r)) = (prev, q) {
            assert(r.base <= a < r.base + r.size);
        }
    }
}

proof fn lemma_walk_over(base: usize, end: usize, answers: Seq<Option<RegionInfo>>, k: nat, j: nat)
    requires
        k <= j <= answers.len(),
        walk_next(Some(base), end, answers, k) is None,
    ensures
        walk_next(Some(base), end, answers, j) is None,
    decreases j - k,
{
    if j > k {
        lemma_walk_over(base, end, answers, k, (j - 1) as nat);
    }
}

/// A region walk over a non-empty module, that is successive calls of
/// `Regions::next` from `Module::regions_snapshot` (each call is one
/// `walk_step`), fed the answers of a memory query: it first queries the module's base; every region it yields holds
/// the address queried; the next address queried is the end of the region
/// just yielded, strictly past the previous one and below the module's end;
/// after a failed query, or a region reaching the module's end, it yields
/// nothing more; so it yields at most one region per byte of the module.
pub proof fn law_region_walk(base: usize, end: usize, answers: Seq<Option<RegionInfo>>)
    requires
        base < end,
        answers_hold_queries(Some(base), end, answers),
    ensures
        walk_next(Some(base), end, answers, 0) == Some(base),
        forall|k: nat|
            k < answers.len() ==> (#[trigger] walk_yield(Some(base), end, answers, k) matches Some(r)
                ==> walk_next(Some(base), end, answers, k) matches Some(a) && Some(r) == answers[k as int]
                && r.base <= a < r.base + r.size),
        forall|k: nat|
            k < answers.len() ==> (#[trigger] walk_next(Some(base), end, answers, k + 1) matches Some(n)
                ==> walk_yield(Some(base), end, answers, k) matches Some(r) && n == r.base + r.size
                && n > walk_next(Some(base), end, answers, k).unwrap() && n < end),
        forall|k: nat|
            k <= answers.len() ==> (#[trigger] walk_next(Some(base), end, answers, k) matches Some(a)
                ==> base + k <= a < end),
        forall|k: nat, j: nat|
            k <= j < answers.len() && #[trigger] walk_next(Some(base), end, answers, k) is None
                ==> #[trigger] walk_yield(Some(base), end, answers, j) is None,
        forall|k: nat|
            k < answers.len() && #[trigger] walk_yield(Some(base), end, answers, k) is Some ==> k < end
                - base,
{
    assert forall|k: nat| k <= answers.len() implies (#[trigger] walk_next(
        Some(base),
        end,
        answers,
        k,
    ) matches Some(a) ==> base + k <= a < end) by {
        lemma_walk_bounds(base, end, answers, k);
    }
    assert forall|k: nat| k < answers.len() implies (#[trigger] walk_yield(
        Some(base),
        end,
        answers,
        k,
    ) matches Some(r) ==> walk_next(Some(base), end, answers, k) matches Some(a) && Some(r)
        == answers[k as int] && r.base <= a < r.base + r.size) by {
        let q = answers[k as int];
        assert(match q {
            Some(r) => r.base + r.size <= usize::MAX && (walk_next(Some(base), end, answers, k) matches Some(
                a,
            ) ==> r.base <= a < r.base + r.size),
            None => true,
        });
    }
    assert forall|k: nat| k < answers.len() implies (#[trigger] walk_next(
        Some(base),
        end,
        answers,
        k + 1,
    ) matches Some(n) ==> walk_yield(Some(base), end, answers, k) matches Some(r) && n == r.base
        + r.size && n > walk_next(Some(base), end, answers, k).unwrap() && n < end) by {
        let q = answers[k as int];
        assert(match q {
            Some(r) => r.base + r.size <= usize::MAX && (walk_next(Some(base), end, answers, k) matches Some(
                a,
            ) ==> r.base <= a < r.base + r.size),
            None => true,
        });
        assert(walk_next(Some(base), end, answers, k + 1) == walk_step(
            walk_next(Some(base), end, answers, k),
            end,
            answers[k as int],
        ).1);
    }
    assert forall|k: nat, j: nat|
        k <= j < answers.len() && #[trigger] walk_next(Some(base), end, answers, k)
            is None implies #[trigger] walk_yield(Some(base), end, answers, j) is None by {
        lemma_walk_over(base, end, answers, k, j);
    }
    assert forall|k: nat|
        k < answers.len() && #[trigger] walk_yield(Some(base), end, answers, k) is Some implies k
        < end - base by {
        lemma_walk_bounds(base, end, answers, k);
    }
}

/// One step of a walk: a found region is yielded; the walk goes on at
/// exactly the region's end while that end is below the module's end, and
/// ends once the region reaches the module's end; a failed query, or a walk
/// already over, yields nothing and ends the walk.
pub proof fn law_walk_step(a: usize, end: usize, r: RegionInfo, q: Option<RegionInfo>)
    requires
        r.base + r.size <= usize::MAX,
    ensures
        walk_step(Some(a), end, Some(r)).0 == Some(r),
        r.base + r.size < end ==> walk_step(Some(a), end, Some(r)).1 == Some(
            (r.base + r.size) as usize,
        ),
        r.base + r.size >= end ==> walk_step(Some(a), end, Some(r)).1 is None,
        walk_step(Some(a), end, None) == (None::<RegionInfo>, None::<usize>),
        walk_step(None, end, q) == (None::<RegionInfo>, None::<usize>),
{
}

/// A walk leaves no gap: after each region it yields, the walk either goes
/// on at exactly that region's end, or that region reaches the module's
/// end; so until a query fails, the regions yielded cover the module from
/// the queried base to its end without a gap.
pub proof fn law_region_walk_covers(base: usize, end: usize, answers: Seq<Option<RegionInfo>>)
    requires
        answers_hold_queries(Some(base), end, answers),
    ensures
        forall|k: nat|
            k < answers.len() ==> (#[trigger] walk_yield(Some(base), end, answers, k) matches Some(r)
                ==> if r.base + r.size < end {
                walk_next(Some(base), end, answers, k + 1) == Some((r.base + r.size) as usize)
            } else {
                walk_next(Some(base), end, answers, k + 1) is None
            }),
{
    assert forall|k: nat| k < answers.len() implies (#[trigger] walk_yield(
        Some(base),
        end,
        answers,
        k,
    ) matches Some(r) ==> if r.base + r.size < end {
        walk_next(Some(base), end, answers, k + 1) == Some((r.base + r.size) as usize)
    } else {
        walk_next(Some(base), end, answers, k + 1) is None
    }) by {
        assert(walk_next(Some(base), end, answers, k + 1) == walk_step(
            walk_next(Some(base), end, answers, k),
            end,
            answers[k as int],
        ).1);
    }
}

} // verus!
