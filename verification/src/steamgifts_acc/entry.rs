//! A giveaway record stripped to what one submission needs.

use vstd::prelude::*;

verus! {

use crate::account::URL;
use crate::account::entry::{code_of, CODE_START, CODE_END};

/// One giveaway as handed to the submission layer.
#[derive(Debug, Clone, PartialEq, Eq)]
pub struct Entry {
    name: String,
    href: URL,
    price: u32,
    copies: u32,
    entries: u32,
}

impl Entry {
    /// Builds a record from already extracted values.
    pub fn new(name: String, href: URL, price: u32, copies: u32, entries: u32) -> (r: Entry)
        ensures
            r.spec_name() == name@,
            r.spec_href() == href@,
            r.spec_price() == price,
            r.spec_copies() == copies,
            r.spec_entries() == entries,
    {
        Entry { name, href, price, copies, entries }
    }

    /// The record's display title.
    pub closed spec fn spec_name(&self) -> Seq<char> {
        self.name@
    }

    /// The record's canonical URL.
    pub closed spec fn spec_href(&self) -> Seq<char> {
        self.href@
    }

    /// The record's points cost.
    pub closed spec fn spec_price(&self) -> u32 {
        self.price
    }

    /// The record's number of winners.
    pub closed spec fn spec_copies(&self) -> u32 {
        self.copies
    }

    /// The record's number of submitted entries.
    pub closed spec fn spec_entries(&self) -> u32 {
        self.entries
    }

    /// The canonical URL is long enough to carry the code.
    pub open spec fn wf(&self) -> bool {
        self.spec_href().len() >= CODE_END
    }

    /// The giveaway's code, sliced out of the fixed offset range of the
    /// canonical URL.
    pub fn get_code(&self) -> (r: String)
        requires
            self.wf(),
        ensures
            r@ == code_of(self.spec_href()),
    {
        let code = self.href.as_str().substring_char(CODE_START, CODE_END);
        String::from_str(code)
    }

    /// The record's canonical URL.
    pub fn get_href(&self) -> (r: &URL)
        ensures
            r@ == self.spec_href(),
    {
        &self.href
    }

    /// The record's points cost.
    pub fn get_price(&self) -> (r: u32)
        ensures
            r == self.spec_price(),
    {
        self.price
    }
}

} // verus!
