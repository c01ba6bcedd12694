use vstd::prelude::*;

verus! {

/// Placeholder for an on-screen settings surface; the widget toolkit that
/// would draw it stays outside the library.
pub struct Ui {}

impl Ui {
    pub fn new() -> (r: Ui)
        ensures
            r == (Ui {  }),
    {
        Ui {  }
    }
}

} // verus!
