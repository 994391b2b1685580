//! The browser: it owns the pages and names the active one.

use vstd::prelude::*;

use crate::page::Page;

verus! {

/// The browser: its pages, and the index of the active one.
#[derive(Debug)]
pub struct Browser {
    pub active_page_index: usize,
    pub pages: Vec<Page>,
}

impl Browser {
    /// Well-formedness: the active index names a page, and every page is
    /// well-formed.
    pub open spec fn wf(&self) -> bool {
        &&& self.active_page_index < self.pages@.len()
        &&& forall|i: int| 0 <= i < self.pages@.len() ==> (#[trigger] self.pages@[i]).wf()
    }

    /// A browser with one empty page, which is active.
    pub fn new() -> (r: Self)
        ensures
            r.wf(),
            r.pages@.len() == 1,
            r.active_page_index == 0,
    {
        let mut pages: Vec<Page> = Vec::new();
        pages.push(Page::new());
        Self { active_page_index: 0, pages }
    }

    /// A borrow of the active page.
    pub fn current_page(&self) -> (r: &Page)
        requires
            self.wf(),
        ensures
            *r == self.pages@[self.active_page_index as int],
            r.wf(),
    {
        &self.pages[self.active_page_index]
    }
}

} // verus!
