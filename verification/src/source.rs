//! Snapshots of the open book.
use vstd::prelude::*;

verus! {

/// Identity of a page within a book. It survives a refresh that moves the page to another index.
#[derive(Debug, Clone, Copy, PartialEq, Eq, Hash, Structural)]
pub struct PageId(pub u32);

/// What the worker knows of one page of a snapshot.
#[derive(Debug, Clone)]
pub struct PageEntry {
    pub page_id: PageId,
    pub name: String,
}

/// One snapshot of a book: who it is, and which pages it has in reading order.
///
/// `instance_id` is new with every snapshot; `cache_id` stays the same as long as the bytes of
/// the pages do.
#[derive(Debug, Clone)]
pub struct BookSnapshot {
    pub book_id: String,
    pub instance_id: u64,
    pub cache_id: u64,
    pub concurrent_reads: bool,
    pub pages: Vec<PageEntry>,
}

impl BookSnapshot {
    /// The identity of the page at `index`, if there is one.
    pub open spec fn id_at(&self, index: int) -> Option<PageId> {
        if 0 <= index < self.pages@.len() {
            Some(self.pages@[index].page_id)
        } else {
            None
        }
    }

    /// The name of the page at `index`, if there is one.
    pub open spec fn name_at(&self, index: int) -> Option<Seq<char>> {
        if 0 <= index < self.pages@.len() {
            Some(self.pages@[index].name@)
        } else {
            None
        }
    }

    pub fn page_count(&self) -> (count: usize)
        ensures
            count == self.pages@.len(),
    {
        self.pages.len()
    }

    pub fn page_id(&self, index: usize) -> (id: Option<PageId>)
        ensures
            id == self.id_at(index as int),
    {
        if index < self.pages.len() {
            Some(self.pages[index].page_id)
        } else {
            None
        }
    }

    pub fn page_name(&self, index: usize) -> (name: Option<&str>)
        ensures
            match name {
                Some(text) => self.name_at(index as int) == Some(text@),
                None => self.name_at(index as int) is None,
            },
    {
        if index < self.pages.len() {
            Some(self.pages[index].name.as_str())
        } else {
            None
        }
    }

    /// The first index that holds the page `id`.
    pub fn page_index_for_id(&self, id: PageId) -> (index: Option<usize>)
        ensures
            match index {
                Some(found) => self.id_at(found as int) == Some(id) && forall|i: int|
                    0 <= i < found ==> self.id_at(i) != Some(id),
                None => forall|i: int| self.id_at(i) != Some(id),
            },
    {
        let mut i: usize = 0;
        while i < self.pages.len()
            invariant
                i <= self.pages@.len(),
                forall|k: int| 0 <= k < i ==> self.id_at(k) != Some(id),
            decreases self.pages.len() - i,
        {
            if self.pages[i].page_id == id {
                return Some(i);
            }
            i = i + 1;
        }
        None
    }
}

} // verus!
