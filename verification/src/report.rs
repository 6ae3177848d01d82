//! Things that can describe themselves in a text report.
use vstd::prelude::*;

verus! {

/// A source of a text report.
pub trait Report {
    /// Whether `text` is a report that this source may give. For a source
    /// whose state is known this pins the text down; a source that asks a
    /// remote device admits one text for each answer the device may give.
    spec fn is_report(&self, text: Seq<char>) -> bool;

    fn report(&self) -> (r: String)
        ensures
            self.is_report(r@),
    ;
}

impl<T: Report + ?Sized> Report for &T {
    open spec fn is_report(&self, text: Seq<char>) -> bool {
        (**self).is_report(text)
    }

    fn report(&self) -> (r: String) {
        (**self).report()
    }
}

} // verus!
