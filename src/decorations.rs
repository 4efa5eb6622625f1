//! The title bar above the text.
use vstd::prelude::*;

verus! {

/// The title bar: it shows the name of the file being edited.
pub struct Decorations {
    pub file_name: String,
}

impl Decorations {
    pub fn init(file_name: &str) -> (r: Self)
        ensures
            r.file_name@ == file_name@,
    {
        Decorations { file_name: file_name.to_owned() }
    }
}

} // verus!
