//! Which pages of a continuously scrolled document are kept at hand, and
//! which of them is the current one.

use vstd::prelude::*;

verus! {

/// The direction in which the view moves over the document.
#[derive(Debug, Copy, Clone, Hash, PartialEq, Eq, Structural)]
pub enum ScrollDirection {
    Up,
    Down,
}

/// The most pages that are kept at hand.
pub const WINDOW: usize = 6;

/// The page to load after the page `tail`: the next one, but none beyond
/// the number of pages, which stands for the end of the document.
pub open spec fn page_after(tail: u32, num_pages: u32) -> Option<u32> {
    if tail < num_pages {
        Some((tail + 1) as u32)
    } else {
        None
    }
}

/// The page to load before the page `head`: the one before, if there is one.
pub open spec fn page_before(head: u32) -> Option<u32> {
    if head > 0 {
        Some((head - 1) as u32)
    } else {
        None
    }
}

/// The page to load after the last page at hand; see [`page_after`].
pub fn next_page(tail: u32, num_pages: u32) -> (r: Option<u32>)
    ensures
        r == page_after(tail, num_pages),
{
    if tail < num_pages {
        Some(tail + 1)
    } else {
        None
    }
}

/// The page to load before the first page at hand; see [`page_before`].
pub fn prev_page(head: u32) -> (r: Option<u32>)
    ensures
        r == page_before(head),
{
    if head > 0 {
        Some(head - 1)
    } else {
        None
    }
}

/// The pages at hand, each with what the caller keeps for it, in the order
/// of the document.
pub struct ContinuousScroll<T> {
    window: Vec<(u32, T)>,
}

/// `window` with `page` added at its end, and its first page dropped where
/// that makes more than [`WINDOW`] pages.
pub open spec fn with_page_after<T>(window: Seq<(u32, T)>, page: (u32, T)) -> Seq<(u32, T)> {
    if window.len() + 1 > WINDOW {
        window.push(page).drop_first()
    } else {
        window.push(page)
    }
}

/// `window` with `page` added at its start, and its last page dropped
/// where that makes more than [`WINDOW`] pages.
pub open spec fn with_page_before<T>(window: Seq<(u32, T)>, page: (u32, T)) -> Seq<(u32, T)> {
    if window.len() + 1 > WINDOW {
        (seq![page] + window).drop_last()
    } else {
        seq![page] + window
    }
}

impl<T> ContinuousScroll<T> {
    /// The pages at hand.
    pub closed spec fn view(&self) -> Seq<(u32, T)> {
        self.window@
    }

    /// No page at hand.
    pub fn new() -> (r: Self)
        ensures
            r@ == Seq::<(u32, T)>::empty(),
    {
        ContinuousScroll { window: Vec::new() }
    }

    /// Drops all pages and takes `page` as the only one, provided that the
    /// document has such a page.
    pub fn go_to_page(&mut self, page_nr: u32, num_pages: u32, page: T) -> (r: bool)
        ensures
            r == (page_nr < num_pages),
            r ==> final(self)@ == seq![(page_nr, page)],
            !r ==> final(self)@ == old(self)@,
    {
        if !(page_nr < num_pages) {
            return false;
        }
        self.window.clear();
        self.window.push((page_nr, page));
        true
    }

    /// The pages at hand, first to last.
    pub fn iter(&self) -> (pages: &Vec<(u32, T)>)
        ensures
            pages@ == self@,
    {
        &self.window
    }

    /// The number of the first page at hand.
    pub fn head(&self) -> (r: Option<u32>)
        ensures
            r == (if self@.len() > 0 {
                Some(self@[0].0)
            } else {
                None
            }),
    {
        if self.window.len() > 0 {
            Some(self.window[0].0)
        } else {
            None
        }
    }

    /// The number of the last page at hand.
    pub fn tail(&self) -> (r: Option<u32>)
        ensures
            r == (if self@.len() > 0 {
                Some(self@.last().0)
            } else {
                None
            }),
    {
        let n: usize = self.window.len();
        if n > 0 {
            Some(self.window[n - 1].0)
        } else {
            None
        }
    }

    /// Takes a page after the last one; see [`with_page_after`].
    pub fn push_next(&mut self, page_nr: u32, page: T)
        ensures
            final(self)@ == with_page_after(old(self)@, (page_nr, page)),
    {
        self.window.push((page_nr, page));
        if self.window.len() > WINDOW {
            let _ = self.window.remove(0);
            assert(self.window@ =~= old(self)@.push((page_nr, page)).drop_first());
        }
    }

    /// Takes a page before the first one; see [`with_page_before`].
    pub fn push_prev(&mut self, page_nr: u32, page: T)
        ensures
            final(self)@ == with_page_before(old(self)@, (page_nr, page)),
    {
        self.window.insert(0, (page_nr, page));
        assert(self.window@ =~= seq![(page_nr, page)] + old(self)@);
        if self.window.len() > WINDOW {
            let _ = self.window.pop();
        }
    }
}

/// Which page is the current one, of how many, and where its top edge lies.
#[derive(Debug, Copy, Clone)]
pub struct CurrentPageReplacement<T> {
    max_pages: u32,
    current_page_nr: u32,
    top_y_offset: T,
}

impl<T: Copy> CurrentPageReplacement<T> {
    /// The number of pages of the document.
    pub closed spec fn max_pages(&self) -> u32 {
        self.max_pages
    }

    /// The number of the current page.
    pub closed spec fn current_page_nr(&self) -> u32 {
        self.current_page_nr
    }

    /// Where the top edge of the current page lies.
    pub closed spec fn top_y_offset(&self) -> T {
        self.top_y_offset
    }

    /// The page `current_page_nr` of `max_pages`, with its top edge at
    /// `top_y_offset`.
    pub fn new(max_pages: u32, current_page_nr: u32, top_y_offset: T) -> (r: Self)
        ensures
            r.max_pages() == max_pages,
            r.current_page_nr() == current_page_nr,
            r.top_y_offset() == top_y_offset,
    {
        CurrentPageReplacement { max_pages, current_page_nr, top_y_offset }
    }

    /// Whether the current page is the last of the document.
    pub fn is_last_page(&self) -> (r: bool)
        ensures
            r == (self.current_page_nr() + 1 == self.max_pages()),
    {
        self.max_pages > 0 && self.current_page_nr == self.max_pages - 1
    }

    /// Whether the current page is the first of the document.
    pub fn is_first_page(&self) -> (r: bool)
        ensures
            r == (self.current_page_nr() == 0),
    {
        self.current_page_nr == 0
    }

    /// The number of the current page.
    pub fn get_current_page_nr(&self) -> (r: u32)
        ensures
            r == self.current_page_nr(),
    {
        self.current_page_nr
    }

    /// Where the top edge of the current page lies.
    pub fn get_top_y_offset(&self) -> (r: T)
        ensures
            r == self.top_y_offset(),
    {
        self.top_y_offset
    }
}

} // verus!
