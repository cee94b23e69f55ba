//! Command handlers: one per event command kind, each with an extract and
//! an inject operation, plus the registry that the page walker dispatches
//! through.

pub mod choices;
pub mod comment;
pub mod dialogue;
pub mod plugin;
pub mod registry;

use vstd::prelude::*;

use crate::translation_path::{Seg, TranslationPath};

verus! {

/// The unit id for a handler firing at one list position: the list path
/// with the index appended, then the role suffix.
pub open spec fn spec_position_unit_id(path: Seq<Seg>, index: int, suffix: Seq<char>) -> Seq<
    char,
> {
    TranslationPath::spec_unit_id(path.push(Seg::Index(index)), suffix)
}

/// Build the unit id for a position in a command list.
pub fn generate_unit_id(path: &TranslationPath, index: usize, suffix: &str) -> (r: String)
    ensures
        r@ == spec_position_unit_id(path@, index as int, suffix@),
{
    let base = path.append_index(index);
    base.to_unit_id(suffix)
}

} // verus!
