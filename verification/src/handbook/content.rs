//! The contents of the handbook: sections, their pages, and the blocks of a page.

use vstd::prelude::*;
use vstd::string::*;

use crate::theme::Color;

verus! {

/// An element of a page.
#[derive(Debug, Clone)]
pub enum ContentBlock {
    Heading(&'static str),
    Subheading(&'static str),
    /// A paragraph, wrapped to the width of the page.
    Body(&'static str),
    /// A picture.
    Image {
        /// Name of the picture.
        key: &'static str,
        caption: Option<&'static str>,
    },
    /// A box with a hint or a warning.
    Callout {
        /// Symbol in front of the text.
        icon: &'static str,
        text: &'static str,
    },
    /// A key and what it does.
    KeyBinding {
        key: &'static str,
        action: &'static str,
    },
    BulletList(&'static [&'static str]),
    NumberedList(&'static [&'static str]),
    /// A line across the page.
    Divider,
    /// Blank space.
    Spacer,
}

/// What a block says.
#[verifier::ext_equal]
pub enum BlockView {
    Heading(Seq<char>),
    Subheading(Seq<char>),
    Body(Seq<char>),
    Image { key: Seq<char>, caption: Option<Seq<char>> },
    Callout { icon: Seq<char>, text: Seq<char> },
    KeyBinding { key: Seq<char>, action: Seq<char> },
    BulletList(Seq<Seq<char>>),
    NumberedList(Seq<Seq<char>>),
    Divider,
    Spacer,
}

/// The texts of a list.
pub open spec fn texts(list: Seq<&'static str>) -> Seq<Seq<char>> {
    Seq::new(list.len(), |i: int| list[i]@)
}

impl View for ContentBlock {
    type V = BlockView;

    open spec fn view(&self) -> BlockView {
        match *self {
            ContentBlock::Heading(s) => BlockView::Heading(s@),
            ContentBlock::Subheading(s) => BlockView::Subheading(s@),
            ContentBlock::Body(s) => BlockView::Body(s@),
            ContentBlock::Image { key, caption } => BlockView::Image {
                key: key@,
                caption: match caption {
                    Some(c) => Some(c@),
                    None => None,
                },
            },
            ContentBlock::Callout { icon, text } => BlockView::Callout { icon: icon@, text: text@ },
            ContentBlock::KeyBinding { key, action } => BlockView::KeyBinding {
                key: key@,
                action: action@,
            },
            ContentBlock::BulletList(list) => BlockView::BulletList(texts(list@)),
            ContentBlock::NumberedList(list) => BlockView::NumberedList(texts(list@)),
            ContentBlock::Divider => BlockView::Divider,
            ContentBlock::Spacer => BlockView::Spacer,
        }
    }
}

/// A page.
#[derive(Debug, Clone)]
pub struct HandbookPage {
    pub blocks: Vec<ContentBlock>,
}

impl View for HandbookPage {
    type V = Seq<BlockView>;

    open spec fn view(&self) -> Seq<BlockView> {
        Seq::new(self.blocks@.len(), |i: int| self.blocks@[i]@)
    }
}

impl HandbookPage {
    pub fn new(blocks: Vec<ContentBlock>) -> (p: HandbookPage)
        ensures
            p.blocks == blocks,
    {
        HandbookPage { blocks }
    }
}

/// A section, with a tab of its own.
#[derive(Debug, Clone)]
pub struct HandbookSection {
    /// Short title on the tab.
    pub title: &'static str,
    /// Title at the top of each page.
    pub full_title: &'static str,
    pub tab_color: Color,
    pub pages: Vec<HandbookPage>,
}

/// What a section shows: its titles, the colour of its tab, and its pages.
#[verifier::ext_equal]
pub struct SectionView {
    pub title: Seq<char>,
    pub full_title: Seq<char>,
    pub tab_color: Color,
    pub pages: Seq<Seq<BlockView>>,
}

impl View for HandbookSection {
    type V = SectionView;

    open spec fn view(&self) -> SectionView {
        SectionView {
            title: self.title@,
            full_title: self.full_title@,
            tab_color: self.tab_color,
            pages: Seq::new(self.pages@.len(), |i: int| self.pages@[i]@),
        }
    }
}

impl HandbookSection {
    pub fn new(
        title: &'static str,
        full_title: &'static str,
        tab_color: Color,
        pages: Vec<HandbookPage>,
    ) -> (s: HandbookSection)
        ensures
            s == (HandbookSection { title, full_title, tab_color, pages }),
    {
        HandbookSection { title, full_title, tab_color, pages }
    }

    #[verifier::allow_in_spec]
    pub fn page_count(&self) -> usize
        returns
            self.pages.len(),
    {
        self.pages.len()
    }
}

} // verus!
