use vstd::prelude::*;

verus! {

/// Arguments of the save-loaded event: the kind of save and its slot.
#[derive(Debug, Clone, Copy)]
pub struct SaveLoadedArgs {
    pub ty: i32,
    pub slot_id: i32,
}

} // verus!
