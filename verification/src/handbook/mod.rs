//! The operators handbook, a binder of sections and pages.

use vstd::prelude::*;
use vstd::string::*;

use crate::text;
use crate::theme::Color;

pub mod content;
pub mod sections;

use crate::handbook::content::HandbookPage;
use crate::handbook::content::HandbookSection;

verus! {

/// The handbook and the page that is open.
pub struct HandbookWindow {
    pub sections: Vec<HandbookSection>,
    /// Index of the open section.
    pub section: usize,
    /// Index of the open page in its section.
    pub page: usize,
    /// Cleared when the window is closed.
    pub viewport_open: bool,
}

/// `i` limited to the indices below `n`; 0 when there are none.
pub open spec fn limited(i: int, n: int) -> int {
    if n <= 0 {
        0
    } else if i >= n {
        n - 1
    } else {
        i
    }
}

fn limit(i: usize, n: usize) -> (r: usize)
    ensures
        r == limited(i as int, n as int),
{
    if n == 0 {
        0
    } else if i >= n {
        n - 1
    } else {
        i
    }
}

/// How many pages the section `i` has.
pub open spec fn pages_in(sections: Seq<HandbookSection>, i: int) -> int {
    if 0 <= i < sections.len() {
        sections[i].pages.len() as int
    } else {
        0
    }
}

/// What turning back does.
pub open spec fn after_prev(a: &HandbookWindow, n: &HandbookWindow) -> bool {
    *n == (HandbookWindow {
        page: if a.page > 0 {
            (a.page - 1) as usize
        } else {
            0
        },
        ..*a
    })
}

/// What turning a page does.
pub open spec fn after_next(a: &HandbookWindow, n: &HandbookWindow) -> bool {
    *n == (HandbookWindow {
        page: if a.page + 1 < a.total_pages() {
            (a.page + 1) as usize
        } else {
            a.page
        },
        ..*a
    })
}

/// What a click on a tab does.
pub open spec fn after_tab(a: &HandbookWindow, i: usize, n: &HandbookWindow) -> bool {
    *n == (HandbookWindow { section: i, page: 0, ..*a })
}

/// Whether the two buttons can be pressed.
pub open spec fn are_buttons(a: &HandbookWindow, r: (bool, bool)) -> bool {
    &&& r.0 == (a.page > 0)
    &&& r.1 == (a.page + 1 < a.total_pages())
}

/// Whether a window that is open stays so.
pub open spec fn stays_open_spec(open: bool, close_requested: bool, f1: bool) -> bool {
    open && !close_requested && !f1
}

/// The page counter.
pub open spec fn page_label_text(a: &HandbookWindow) -> Seq<char> {
    "  Page "@ + text::dec((a.page + 1) as nat) + "  /  "@ + text::dec(
        a.total_pages() as nat,
    ) + "  "@
}

impl HandbookWindow {
    /// The open page exists.
    pub open spec fn wf(self) -> bool {
        &&& self.section < self.sections@.len()
        &&& self.page < pages_in(self.sections@, self.section as int)
    }

    /// The handbook at its first page.
    pub fn new(first_signal: HandbookSection, signals: HandbookSection) -> (w: HandbookWindow)
        ensures
            w.wf(),
            sections::is_handbook(w.sections@, first_signal, signals),
            w.section == 0,
            w.page == 0,
            w.viewport_open,
    {
        HandbookWindow {
            sections: sections::all_sections(first_signal, signals),
            section: 0,
            page: 0,
            viewport_open: true,
        }
    }

    /// The handbook at a stored page; a page that does not exist is replaced by the last one.
    pub fn with_state(
        section: usize,
        page: usize,
        first_signal: HandbookSection,
        signals: HandbookSection,
    ) -> (w: HandbookWindow)
        ensures
            first_signal.pages@.len() > 0 && signals.pages@.len() > 0 ==> w.wf(),
            sections::is_handbook(w.sections@, first_signal, signals),
            w.section == limited(section as int, sections::SECTION_COUNT as int),
            w.page == limited(page as int, pages_in(w.sections@, w.section as int)),
            w.viewport_open,
    {
        HandbookWindow::open_at(sections::all_sections(first_signal, signals), section, page)
    }

    /// The given sections, opened at a stored page.
    pub fn open_at(sections: Vec<HandbookSection>, section: usize, page: usize) -> (w:
        HandbookWindow)
        ensures
            w.sections == sections,
            w.section == limited(section as int, sections@.len() as int),
            w.page == limited(page as int, pages_in(sections@, w.section as int)),
            w.viewport_open,
    {
        let section: usize = limit(section, sections.len());
        let pages: usize = if section < sections.len() {
            sections[section].page_count()
        } else {
            0
        };
        HandbookWindow { section, page: limit(page, pages), sections, viewport_open: true }
    }

    /// A click on a tab opens the first page of its section.
    pub fn open_section(&mut self, i: usize)
        ensures
            after_tab(old(self), i, final(self)),
    {
        self.section = i;
        self.page = 0;
    }

    /// Pages of the open section; 1 when there is no such section.
    pub open spec fn total_pages(self) -> int {
        if self.section < self.sections@.len() {
            self.sections@[self.section as int].pages.len() as int
        } else {
            1
        }
    }

    fn count_pages(&self) -> (n: usize)
        ensures
            n == self.total_pages(),
    {
        if self.section < self.sections.len() {
            self.sections[self.section].page_count()
        } else {
            1
        }
    }

    /// Turns back a page, unless this is the first.
    pub fn prev_page(&mut self)
        ensures
            after_prev(old(self), final(self)),
    {
        if self.page > 0 {
            self.page = self.page - 1;
        }
    }

    /// Turns a page, unless this is the last.
    pub fn next_page(&mut self)
        ensures
            after_next(old(self), final(self)),
    {
        let n: usize = self.count_pages();
        if self.page < n && self.page + 1 < n {
            self.page = self.page + 1;
        }
    }

    /// Whether the buttons for the previous and the next page can be pressed.
    pub fn buttons(&self) -> (r: (bool, bool))
        ensures
            are_buttons(self, r),
    {
        let n: usize = self.count_pages();
        (self.page > 0, self.page < n && self.page + 1 < n)
    }

    /// The page counter.
    pub fn page_label(&self) -> (r: String)
        requires
            self.page < usize::MAX,
        ensures
            r@ == page_label_text(self),
    {
        let mut s: String = text::owned("  Page ");
        text::push_dec(&mut s, self.page as u64 + 1);
        s.append("  /  ");
        let n: usize = self.count_pages();
        text::push_dec(&mut s, n as u64);
        s.append("  ");
        s
    }

    /// The open page.
    pub fn current_page(&self) -> (r: Option<&HandbookPage>)
        ensures
            match r {
                Some(p) => self.wf() && *p == self.sections@[self.section as int].pages@[self.page as int],
                None => !self.wf(),
            },
    {
        if self.section < self.sections.len() {
            let s: &HandbookSection = &self.sections[self.section];
            if self.page < s.pages.len() {
                return Some(&s.pages[self.page]);
            }
        }
        None
    }

    /// Whether a window that is `open` stays so: the close button and the key F1 close it.
    pub fn stays_open(open: bool, close_requested: bool, f1: bool) -> (r: bool)
        ensures
            r == stays_open_spec(open, close_requested, f1),
    {
        open && !close_requested && !f1
    }
}

/// The colour of a tab.
pub open spec fn tab_fill_spec(color: Color, active: bool) -> Color {
    if active {
        color
    } else {
        Color::from_rgb(
            (color.r * 3 / 5) as u8,
            (color.g * 3 / 5) as u8,
            (color.b * 3 / 5) as u8,
        )
    }
}

/// The colour of a tab: that of its section, three fifths as bright when another one is open.
pub fn tab_fill(color: Color, active: bool) -> (c: Color)
    ensures
        c == tab_fill_spec(color, active),
{
    if active {
        color
    } else {
        Color::from_rgb(
            (color.r as u32 * 3 / 5) as u8,
            (color.g as u32 * 3 / 5) as u8,
            (color.b as u32 * 3 / 5) as u8,
        )
    }
}

/// Turning pages never leaves the section, and turning back undoes turning.
pub proof fn law_pages_turn(w: HandbookWindow)
    requires
        w.wf(),
    ensures
        ({
            let next = HandbookWindow {
                page: if w.page + 1 < w.total_pages() {
                    (w.page + 1) as usize
                } else {
                    w.page
                },
                ..w
            };
            let back = HandbookWindow {
                page: if next.page > 0 {
                    (next.page - 1) as usize
                } else {
                    0
                },
                ..next
            };
            next.wf() && back.wf() && (w.page + 1 < w.total_pages() ==> back == w)
        }),
{
}

/// A window restored from the page at which it was left opens at that page.
pub proof fn law_page_restored(w: HandbookWindow)
    requires
        w.wf(),
    ensures
        limited(w.section as int, w.sections@.len() as int) == w.section,
        limited(w.page as int, pages_in(w.sections@, w.section as int)) == w.page,
{
}

/// The buttons turn one page at a time within the section: forward unless the page is the last, back
/// unless it is the first, and the button that can do nothing is off. A tab opens at its first page.
pub proof fn law_buttons_turn_pages(
    w: HandbookWindow,
    b: HandbookWindow,
    c: HandbookWindow,
    d: HandbookWindow,
    i: usize,
    r: (bool, bool),
)
    requires
        w.wf(),
        after_next(&w, &b),
        after_prev(&w, &c),
        after_tab(&w, i, &d),
        are_buttons(&w, r),
    ensures
        ({
            let pages = w.sections@[w.section as int].pages@.len();
            &&& w.page < pages - 1 ==> b.page == w.page + 1 && r.1
            &&& w.page == pages - 1 ==> b == w && !r.1
            &&& w.page > 0 ==> c.page == w.page - 1 && r.0
            &&& w.page == 0 ==> c == w && !r.0
        }),
        b.section == w.section && c.section == w.section,
        d.section == i && d.page == 0,
        b.sections == w.sections && c.sections == w.sections && d.sections == w.sections,
        page_label_text(&w) == "  Page "@ + text::dec((w.page + 1) as nat) + "  /  "@ + text::dec(
            w.sections@[w.section as int].pages@.len(),
        ) + "  "@,
{
}

/// A stored place is kept if it exists; beyond the end the last one is opened instead.
pub proof fn law_place_is_limited(i: int, n: int)
    requires
        0 <= i,
    ensures
        i < n ==> limited(i, n) == i,
        0 < n <= i ==> limited(i, n) == n - 1,
        n <= 0 ==> limited(i, n) == 0,
{
}

/// Only the close button or F1 closes an open window; nothing opens a closed one.
pub proof fn law_closing(close: bool, f1: bool)
    ensures
        stays_open_spec(true, close, f1) == !(close || f1),
        !stays_open_spec(false, close, f1),
{
}

/// The tab of the open section has its colour, any other is darker, at three fifths of each channel.
pub proof fn law_tab_colours(c: Color)
    ensures
        tab_fill_spec(c, true) == c,
        5 * tab_fill_spec(c, false).r <= 3 * c.r < 5 * tab_fill_spec(c, false).r + 5,
        5 * tab_fill_spec(c, false).g <= 3 * c.g < 5 * tab_fill_spec(c, false).g + 5,
        5 * tab_fill_spec(c, false).b <= 3 * c.b < 5 * tab_fill_spec(c, false).b + 5,
{
}

} // verus!
