//! The assets a scene names.

use vstd::prelude::*;

verus! {

/// The index of a material among those that were loaded.
pub type MaterialId = usize;

/// The files to load before the first frame.
pub struct AssetsToLoad {
    pub texture_files: Vec<String>,
}

/// `i` is the index of the first of `names` that equals `name`.
pub open spec fn is_first(names: Seq<String>, name: Seq<char>, i: int) -> bool {
    &&& 0 <= i < names.len()
    &&& names[i]@ == name
    &&& forall|k: int| 0 <= k < i ==> (#[trigger] names[k])@ != name
}

/// The identifier of the material called `material_name`, the materials
/// given by their names in the order of their identifiers.
pub fn get_material_id(names: &Vec<String>, material_name: &str) -> (r: Option<MaterialId>)
    ensures
        match r {
            Some(id) => is_first(names@, material_name@, id as int),
            None => forall|k: int| 0 <= k < names@.len() ==> (#[trigger] names@[k])@ != material_name@,
        },
{
    let wanted = material_name.to_string();
    let mut i: usize = 0;
    while i < names.len()
        invariant
            wanted@ == material_name@,
            0 <= i <= names@.len(),
            forall|k: int| 0 <= k < i ==> (#[trigger] names@[k])@ != material_name@,
        decreases names@.len() - i,
    {
        if names[i] == wanted {
            return Some(i);
        }
        i += 1;
    }
    None
}

} // verus!
