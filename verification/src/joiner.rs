use crate::text::join;
use crate::text::joined;
use crate::text::views;
use vstd::prelude::*;

verus! {

/// A list of texts that reads as one text, with a separator between each two.
pub struct Joiner<'a, 'b> {
    pub sep: &'a str,
    pub list: &'b Vec<String>,
}

impl<'a, 'b> Joiner<'a, 'b> {
    pub fn new(sep: &'a str, list: &'b Vec<String>) -> (joiner: Joiner<'a, 'b>)
        ensures
            joiner.sep == sep,
            joiner.list == list,
    {
        Joiner { sep, list }
    }

    /// The texts of the list, with the separator between each two.
    pub fn to_text(&self) -> (text: String)
        ensures
            text@ == joined(self.sep@, views(self.list@)),
    {
        join(self.sep, self.list)
    }
}

} // verus!
