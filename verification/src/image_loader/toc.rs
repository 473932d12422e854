//! Search of the flash image table of contents for a component.
//!
//! The table follows the flash header: entry `i` starts at
//! `header_size + i * entry_size`. The search reads entries one at a time,
//! in order, and stops at the first whose identifier is the component's.
use vstd::prelude::*;
use crate::errors::image_loader::{
    code, image_error, IMAGE_NOT_FOUND, IMAGE_OFFSET_OVERFLOW, INVALID_FLASH_HEADER,
    INVALID_IMAGE_HEADER,
};
use crate::mcu_error::{McuErrorCode, McuResult};

verus! {

/// A table-of-contents entry as the image describes it.
#[derive(Copy, Clone, PartialEq, Eq, Structural, Debug)]
pub struct ImageEntry {
    pub identifier: u32,
    pub offset: u32,
    pub size: u32,
}

/// What the search asks for next, or how it ended.
#[derive(Copy, Clone, PartialEq, Eq, Structural, Debug)]
pub enum TocStep {
    /// Read the entry at this offset and hand it to `on_entry`.
    Read(usize),
    /// The component's image lies at this offset and has this size.
    Found(u32, u32),
    /// The search failed with this error.
    Fail(McuErrorCode),
}

/// The state of a search: the layout of the table, the component sought and
/// the index of the entry to read next.
#[derive(Copy, Clone, Debug)]
pub struct TocSearch {
    pub header_size: usize,
    pub entry_size: usize,
    pub image_count: usize,
    pub component_id: u32,
    pub index: usize,
}

/// The offset of entry `index` in the image.
pub open spec fn entry_offset(header_size: usize, entry_size: usize, index: int) -> int {
    header_size + index * entry_size
}

impl TocSearch {
    /// What the search asks for in this state.
    pub open spec fn spec_next(self) -> TocStep {
        if self.index >= self.image_count {
            TocStep::Fail(image_error(IMAGE_NOT_FOUND))
        } else if entry_offset(self.header_size, self.entry_size, self.index as int) > usize::MAX {
            TocStep::Fail(image_error(IMAGE_OFFSET_OVERFLOW))
        } else {
            TocStep::Read(entry_offset(self.header_size, self.entry_size, self.index as int) as usize)
        }
    }

    /// The state after the entry that was read is handed over.
    pub open spec fn spec_after(self, entry: Option<ImageEntry>) -> TocSearch {
        match entry {
            Some(e) if e.identifier != self.component_id => TocSearch { index: (self.index + 1) as usize, ..self },
            _ => self,
        }
    }

    /// What the search answers when the entry that was read is handed over.
    pub open spec fn spec_on_entry(self, entry: Option<ImageEntry>) -> TocStep {
        match entry {
            None => TocStep::Fail(image_error(INVALID_IMAGE_HEADER)),
            Some(e) => if e.identifier == self.component_id {
                TocStep::Found(e.offset, e.size)
            } else {
                self.spec_after(entry).spec_next()
            },
        }
    }

    /// How a search in this state ends when it is handed `entries` in turn,
    /// one for each entry it asks to read (it asks for a read when they run
    /// out).
    pub open spec fn spec_drive(self, entries: Seq<Option<ImageEntry>>) -> TocStep
        decreases entries.len(),
    {
        match self.spec_next() {
            TocStep::Read(_) => if entries.len() == 0 {
                self.spec_next()
            } else {
                match self.spec_on_entry(entries[0]) {
                    TocStep::Read(_) => self.spec_after(entries[0]).spec_drive(entries.drop_first()),
                    other => other,
                }
            },
            other => other,
        }
    }

    /// The search for `component_id` in the table a flash header announces:
    /// `image_count` is the header's count of images, `None` when the
    /// header could not be read, which is an error.
    pub fn for_header(
        image_count: Option<usize>,
        header_size: usize,
        entry_size: usize,
        component_id: u32,
    ) -> (r: McuResult<Self>)
        ensures
            image_count is None ==> r == Err::<Self, McuErrorCode>(image_error(INVALID_FLASH_HEADER)),
            image_count matches Some(n) ==> (r matches Ok(s) && s == (TocSearch {
                header_size,
                entry_size,
                image_count: n,
                component_id,
                index: 0,
            })),
    {
        match image_count {
            Some(n) => Ok(Self::new(header_size, entry_size, n, component_id)),
            None => Err(code(INVALID_FLASH_HEADER)),
        }
    }

    /// A search of `image_count` entries for `component_id`, from the first.
    pub fn new(header_size: usize, entry_size: usize, image_count: usize, component_id: u32) -> (r:
        Self)
        ensures
            r.header_size == header_size,
            r.entry_size == entry_size,
            r.image_count == image_count,
            r.component_id == component_id,
            r.index == 0,
    {
        TocSearch { header_size, entry_size, image_count, component_id, index: 0 }
    }

    /// What the search asks for now: the offset of the next entry, or the
    /// end of the search when every entry was read or the offset overflows.
    pub fn next(&self) -> (r: TocStep)
        ensures
            r == self.spec_next(),
    {
        if self.index >= self.image_count {
            return TocStep::Fail(code(IMAGE_NOT_FOUND));
        }
        let entry_offset = match self.index.checked_mul(self.entry_size) {
            Some(v) => v,
            None => {
                proof {
                    assert(self.index * self.entry_size <= self.header_size + self.index
                        * self.entry_size) by (nonlinear_arith)
                        requires
                            0 <= self.header_size,
                    ;
                }
                return TocStep::Fail(code(IMAGE_OFFSET_OVERFLOW));
            },
        };
        match self.header_size.checked_add(entry_offset) {
            Some(v) => TocStep::Read(v),
            None => TocStep::Fail(code(IMAGE_OFFSET_OVERFLOW)),
        }
    }

    /// Takes the entry read at the offset `next` asked for (`None` when it
    /// could not be parsed): the search ends on the component's entry or on
    /// an unreadable one, and otherwise goes on to the following entry.
    pub fn on_entry(&mut self, entry: Option<ImageEntry>) -> (r: TocStep)
        requires
            old(self).index < old(self).image_count,
        ensures
            *final(self) == old(self).spec_after(entry),
            r == old(self).spec_on_entry(entry),
    {
        match entry {
            None => TocStep::Fail(code(INVALID_IMAGE_HEADER)),
            Some(e) => {
                if e.identifier == self.component_id {
                    TocStep::Found(e.offset, e.size)
                } else {
                    self.index = self.index + 1;
                    self.next()
                }
            },
        }
    }
}

/// An entry that was read and is not the component's.
pub open spec fn is_other_entry(entry: Option<ImageEntry>, component_id: u32) -> bool {
    entry matches Some(e) && e.identifier != component_id
}

/// A search that finds an image found it in the first entry, among those it
/// was to read, whose identifier is the component's, and every entry before
/// it was read and belongs to another component.
pub proof fn lemma_toc_found_is_first_match(
    s: TocSearch,
    entries: Seq<Option<ImageEntry>>,
    offset: u32,
    size: u32,
)
    requires
        s.spec_drive(entries) == TocStep::Found(offset, size),
    ensures
        exists|i: int|
            #![trigger entries[i]]
            0 <= i < entries.len() && s.index + i < s.image_count && entries[i] == Some(
                ImageEntry { identifier: s.component_id, offset, size },
            ) && forall|j: int| 0 <= j < i ==> is_other_entry(#[trigger] entries[j], s.component_id),
    decreases entries.len(),
{
    if entries.len() > 0 && s.spec_next() is Read {
        match entries[0] {
            Some(e) => {
                if e.identifier == s.component_id {
                    assert(entries[0] == Some(ImageEntry { identifier: s.component_id, offset, size }));
                } else {
                    let t = s.spec_after(entries[0]);
                    let rest = entries.drop_first();
                    lemma_toc_found_is_first_match(t, rest, offset, size);
                    let i = choose|i: int|
                        #![trigger rest[i]]
                        0 <= i < rest.len() && t.index + i < t.image_count && rest[i] == Some(
                            ImageEntry { identifier: t.component_id, offset, size },
                        ) && forall|j: int| 0 <= j < i ==> is_other_entry(#[trigger] rest[j], t.component_id);
                    assert(entries[i + 1] == rest[i]);
                    assert forall|j: int| 0 <= j < i + 1 implies is_other_entry(#[trigger] entries[j], s.component_id) by {
                        if j > 0 {
                            assert(entries[j] == rest[j - 1]);
                        }
                    }
                }
            },
            None => {},
        }
    }
}

/// A search that reports the image missing was handed, for every entry it
/// was to read, an entry of another component.
pub proof fn lemma_toc_not_found_means_no_match(s: TocSearch, entries: Seq<Option<ImageEntry>>)
    requires
        s.spec_drive(entries) == TocStep::Fail(image_error(IMAGE_NOT_FOUND)),
    ensures
        s.index < s.image_count ==> s.image_count - s.index <= entries.len(),
        forall|j: int|
            0 <= j < s.image_count - s.index ==> is_other_entry(#[trigger] entries[j], s.component_id),
    decreases entries.len(),
{
    let not_found = TocStep::Fail(image_error(IMAGE_NOT_FOUND));
    if s.index < s.image_count {
        crate::errors::image_loader::lemma_image_errors_distinct(IMAGE_NOT_FOUND, IMAGE_OFFSET_OVERFLOW);
        crate::errors::image_loader::lemma_image_errors_distinct(IMAGE_NOT_FOUND, INVALID_IMAGE_HEADER);
        // The search asks for the entry at its index: a failure there would
        // be an overflow, not a missing image.
        assert(s.spec_next() is Read);
        // Had the entries run out, the search would still be asking for one.
        assert(entries.len() > 0);
        assert(s.spec_drive(entries) == (match s.spec_on_entry(entries[0]) {
            TocStep::Read(_) => s.spec_after(entries[0]).spec_drive(entries.drop_first()),
            other => other,
        }));
        // An unreadable entry fails with another error, and the component's
        // entry is found: the first entry belongs to another component.
        assert(entries[0] is Some);
        assert(entries[0]->0.identifier != s.component_id);
        assert(is_other_entry(entries[0], s.component_id));
        let t = s.spec_after(entries[0]);
        let rest = entries.drop_first();
        assert(t.index == s.index + 1);
        assert(s.spec_on_entry(entries[0]) == t.spec_next());
        if t.index < t.image_count {
            assert(t.spec_next() is Read);
            assert(s.spec_drive(entries) == t.spec_drive(rest));
            assert(t.spec_drive(rest) == not_found);
            lemma_toc_not_found_means_no_match(t, rest);
        }
        assert(s.image_count - s.index <= entries.len());
        assert forall|j: int| 0 <= j < s.image_count - s.index implies is_other_entry(
            #[trigger] entries[j],
            s.component_id,
        ) by {
            if j > 0 {
                // Later entries are those the rest of the search was handed.
                let k = j - 1;
                assert(t.index < t.image_count);
                assert(0 <= k < t.image_count - t.index);
                assert(is_other_entry(rest[k], t.component_id));
                assert(entries[j] == rest[k]);
            }
        }
    }
}

/// When every entry the search is to read lies within the address range and
/// reads back as an entry, the search ends on the component's image when
/// one of those entries is the component's, and reports it missing when
/// none is.
pub proof fn lemma_toc_search_complete(s: TocSearch, entries: Seq<Option<ImageEntry>>)
    requires
        s.index <= s.image_count,
        entry_offset(s.header_size, s.entry_size, s.image_count as int) <= usize::MAX,
        s.image_count - s.index <= entries.len(),
        forall|j: int| 0 <= j < s.image_count - s.index ==> (#[trigger] entries[j]) is Some,
    ensures
        (exists|j: int|
            0 <= j < s.image_count - s.index && (#[trigger] entries[j])->0.identifier == s.component_id)
            ==> s.spec_drive(entries) is Found,
        !(exists|j: int|
            0 <= j < s.image_count - s.index && (#[trigger] entries[j])->0.identifier == s.component_id)
            ==> s.spec_drive(entries) == TocStep::Fail(image_error(IMAGE_NOT_FOUND)),
    decreases entries.len(),
{
    if s.index < s.image_count {
        assert(entry_offset(s.header_size, s.entry_size, s.index as int) <= entry_offset(
            s.header_size,
            s.entry_size,
            s.image_count as int,
        )) by (nonlinear_arith)
            requires
                s.index < s.image_count,
        ;
        assert(s.spec_next() is Read);
        let e = entries[0]->0;
        if e.identifier != s.component_id {
            let t = s.spec_after(entries[0]);
            let rest = entries.drop_first();
            assert forall|j: int| 0 <= j < t.image_count - t.index implies (#[trigger] rest[j]) is Some by {
                assert(rest[j] == entries[j + 1]);
            }
            lemma_toc_search_complete(t, rest);
            if t.index < t.image_count {
                assert(entry_offset(t.header_size, t.entry_size, t.index as int) <= entry_offset(
                    t.header_size,
                    t.entry_size,
                    t.image_count as int,
                )) by (nonlinear_arith)
                    requires
                        t.index < t.image_count,
                ;
            }
            if exists|j: int|
                0 <= j < s.image_count - s.index && (#[trigger] entries[j])->0.identifier == s.component_id {
                let j = choose|j: int|
                    0 <= j < s.image_count - s.index && (#[trigger] entries[j])->0.identifier == s.component_id;
                assert(j > 0);
                assert(rest[j - 1] == entries[j]);
            } else {
                assert forall|j: int| 0 <= j < t.image_count - t.index implies (#[trigger] rest[j])->0.identifier != t.component_id by {
                    assert(rest[j] == entries[j + 1]);
                }
            }
        }
    }
}

} // verus!
