//! Records of the machine-readable report that do not hold floating-point
//! values.

use vstd::prelude::*;
use crate::duplication::{CloneGroup, CloneInstance};

verus! {

/// Run metadata.
#[derive(Debug, Clone, Copy, PartialEq, Eq, Structural)]
pub struct JsonMetadata {
    pub elapsed_ms: u64,
    pub thread_count: u32,
}

/// One location of a clone group.
#[derive(Debug, Clone)]
pub struct JsonCloneLocation {
    pub file: String,
    pub start_line: usize,
    pub end_line: usize,
}

/// One clone group, with its locations by path.
#[derive(Debug, Clone)]
pub struct JsonCloneGroup {
    pub token_count: u32,
    pub locations: Vec<JsonCloneLocation>,
}

/// `loc` names the instance `inst` of a file among `paths`.
pub open spec fn locates(loc: JsonCloneLocation, inst: CloneInstance, paths: Seq<String>) -> bool {
    &&& loc.file@ == paths[inst.file_index as int]@
    &&& loc.start_line == inst.start_line
    &&& loc.end_line == inst.end_line
}

/// The report record of a clone group, with file indices turned into paths.
pub fn json_clone_group(g: &CloneGroup, paths: &Vec<String>) -> (r: JsonCloneGroup)
    requires
        forall|i: int| 0 <= i < g.instances@.len() ==> (#[trigger] g.instances@[i]).file_index < paths@.len(),
    ensures
        r.token_count == g.token_count,
        r.locations@.len() == g.instances@.len(),
        forall|i: int| 0 <= i < g.instances@.len() ==> locates(#[trigger] r.locations@[i], g.instances@[i], paths@),
{
    let mut locations: Vec<JsonCloneLocation> = Vec::new();
    let mut i: usize = 0;
    while i < g.instances.len()
        invariant
            i <= g.instances@.len(),
            locations@.len() == i,
            forall|k: int| 0 <= k < g.instances@.len() ==> (#[trigger] g.instances@[k]).file_index < paths@.len(),
            forall|k: int| 0 <= k < i ==> locates(#[trigger] locations@[k], g.instances@[k], paths@),
        decreases g.instances@.len() - i,
    {
        let inst = g.instances[i];
        assert(g.instances@[i as int].file_index < paths@.len());
        locations.push(
            JsonCloneLocation {
                file: paths[inst.file_index].clone(),
                start_line: inst.start_line,
                end_line: inst.end_line,
            },
        );
        i = i + 1;
    }
    JsonCloneGroup { token_count: g.token_count, locations }
}

} // verus!
