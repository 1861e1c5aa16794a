use vstd::prelude::*;

use crate::lookup::{find_first, is_first_found};

verus! {

/// Why the loaded modules could not be enumerated.
#[derive(Clone, Copy, Debug, PartialEq, Eq, Structural)]
pub enum Error {
    MappingEnumerationError,
}

/// A loaded module: where its memory lies and its file name.
pub struct ModuleMapping {
    pub base: usize,
    pub size: usize,
    pub file_name: String,
}

/// The module mappings of one snapshot, handed out in order.
pub struct IntoIter {
    remaining: Vec<ModuleMapping>,
}

impl View for IntoIter {
    type V = Seq<ModuleMapping>;

    closed spec fn view(&self) -> Seq<ModuleMapping> {
        self.remaining@
    }
}

impl IntoIter {
    /// Hands out the given mappings in order.
    pub fn new(mappings: Vec<ModuleMapping>) -> (res: IntoIter)
        ensures
            res@ == mappings@,
    {
        IntoIter { remaining: mappings }
    }

    /// The next mapping, if any is left.
    pub fn next(&mut self) -> (res: Option<ModuleMapping>)
        ensures
            old(self)@.len() == 0 ==> res is None && final(self)@ == old(self)@,
            old(self)@.len() > 0 ==> res == Some(old(self)@[0]) && final(self)@ == old(
                self,
            )@.drop_first(),
    {
        if self.remaining.len() == 0 {
            None
        } else {
            let m = self.remaining.remove(0);
            assert(self.remaining@ =~= old(self)@.drop_first());
            Some(m)
        }
    }

    /// The mappings that are left.
    pub fn into_vec(self) -> (v: Vec<ModuleMapping>)
        ensures
            v@ == self@,
    {
        self.remaining
    }
}

/// The first mapping of the snapshot that `predicate` accepts.
pub fn find_module<P: Fn(&ModuleMapping) -> bool>(mappings: IntoIter, predicate: P) -> (res:
    Option<ModuleMapping>)
    requires
        forall|m: &ModuleMapping| call_requires(predicate, (m,)),
    ensures
        is_first_found(mappings@, predicate, res),
{
    find_first(mappings.into_vec(), predicate)
}

/// The type of a program segment that the loader maps into memory.
pub open spec fn loadable_segment_type() -> u32 {
    1
}

/// A program segment of a loaded module: its type, and where its memory
/// lies relative to the module's base.
#[derive(Clone, Copy, Debug, PartialEq, Eq, Structural)]
pub struct Segment {
    pub kind: u32,
    pub vaddr: usize,
    pub memsz: usize,
}

/// Where a segment's memory ends, relative to the module's base.
pub open spec fn segment_end(s: Segment) -> int {
    s.vaddr + s.memsz
}

/// The size of a loaded module: the end of its loadable segment that ends
/// last, or 0 when it has no loadable segment.
pub fn module_span(segments: &[Segment]) -> (size: usize)
    requires
        forall|i: int|
            0 <= i < segments@.len() && (#[trigger] segments@[i]).kind == loadable_segment_type()
                ==> segment_end(segments@[i]) <= usize::MAX,
    ensures
        forall|i: int|
            0 <= i < segments@.len() && (#[trigger] segments@[i]).kind == loadable_segment_type()
                ==> segment_end(segments@[i]) <= size,
        size == 0 || exists|i: int|
            0 <= i < segments@.len() && (#[trigger] segments@[i]).kind == loadable_segment_type()
                && segment_end(segments@[i]) == size,
{
    let mut size: usize = 0;
    let mut i: usize = 0;
    while i < segments.len()
        invariant
            i <= segments@.len(),
            forall|k: int|
                0 <= k < segments@.len() && (#[trigger] segments@[k]).kind == loadable_segment_type()
                    ==> segment_end(segments@[k]) <= usize::MAX,
            forall|k: int|
                0 <= k < i && (#[trigger] segments@[k]).kind == loadable_segment_type()
                    ==> segment_end(segments@[k]) <= size,
            size == 0 || exists|k: int|
                0 <= k < i && (#[trigger] segments@[k]).kind == loadable_segment_type()
                    && segment_end(segments@[k]) == size,
        decreases segments@.len() - i,
    {
        let segment = segments[i];
        if segment.kind == 1 {
            assert(segments@[i as int] == segment);
            let end = segment.vaddr + segment.memsz;
            if end > size {
                size = end;
            }
        }
        i = i + 1;
    }
    size
}

} // verus!
