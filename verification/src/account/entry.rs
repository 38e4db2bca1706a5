//! One giveaway record as produced by the extraction layer.

use vstd::prelude::*;

verus! {

use crate::account::URL;

/// Start of the five-character code inside a canonical giveaway URL.  The
/// platform's URL prefix and path prefix have constant length, so the code
/// always occupies the same character range.
pub const CODE_START: usize = 36;

/// End (exclusive) of the five-character code inside a canonical URL.
pub const CODE_END: usize = 41;

/// The five-character code carried by a canonical giveaway URL.
pub open spec fn code_of(href: Seq<char>) -> Seq<char> {
    href.subrange(CODE_START as int, CODE_END as int)
}

/// One open giveaway at scrape time.
#[derive(Debug, Clone, PartialEq, Eq)]
pub struct Entry {
    /// Display title.
    pub name: String,
    /// Canonical URL of the giveaway's own page.
    pub href: URL,
    /// Points cost to enter.
    pub price: u32,
    /// Number of winners drawn.
    pub copies: u32,
    /// Number of entries already submitted by all participants.
    pub entries: u32,
    /// Remaining time before the giveaway closes, in whole seconds.
    pub ends_in_secs: u64,
}

/// Mathematical image of an `Entry`.
pub ghost struct EntryV {
    pub name: Seq<char>,
    pub href: Seq<char>,
    pub price: u32,
    pub copies: u32,
    pub entries: u32,
    pub ends_in_secs: u64,
}

impl View for Entry {
    type V = EntryV;

    open spec fn view(&self) -> EntryV {
        EntryV {
            name: self.name@,
            href: self.href@,
            price: self.price,
            copies: self.copies,
            entries: self.entries,
            ends_in_secs: self.ends_in_secs,
        }
    }
}

impl DeepView for Entry {
    type V = EntryV;

    open spec fn deep_view(&self) -> EntryV {
        self.view()
    }
}

/// What every record the extraction layer emits looks like: a non-empty
/// display title, a positive winner count, and a canonical URL long enough
/// to carry the five-character code.
pub open spec fn record_valid(e: EntryV) -> bool {
    &&& e.name.len() > 0
    &&& e.copies >= 1
    &&& e.href.len() >= CODE_END
}

impl Entry {
    /// The canonical URL is long enough to carry the code: the invariant the
    /// extraction layer establishes for every record it emits.
    pub open spec fn wf(&self) -> bool {
        self.href@.len() >= CODE_END
    }

    /// The giveaway's code, sliced out of the fixed offset range of the
    /// canonical URL; the submission endpoint identifies giveaways by it.
    pub fn get_code(&self) -> (r: String)
        requires
            self.wf(),
        ensures
            r@ == code_of(self@.href),
    {
        let code = self.href.as_str().substring_char(CODE_START, CODE_END);
        String::from_str(code)
    }
}

} // verus!
