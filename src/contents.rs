//! Pages of displayable content and the ordered collection that holds them.
use vstd::prelude::*;

verus! {

/// What a page holds, as mathematical values.
pub enum PageModel {
    Empty,
    Text(Seq<Seq<char>>),
    Bitmap(Seq<u8>, u32, u32),
}

/// Number of bytes of a packed bitmap: one bit per pixel, rows padded to whole bytes.
pub open spec fn bitmap_len(w: u32, h: u32) -> nat {
    (((w as nat) + 7) / 8) * (h as nat)
}

/// A text page whose `n` lines are all empty.
pub open spec fn blank_text(n: nat) -> PageModel {
    PageModel::Text(Seq::new(n, |i: int| Seq::<char>::empty()))
}

#[derive(Debug, Clone)]
pub enum Page {
    Empty,
    Text { lines: Vec<String> },
    BImage { data: Vec<u8>, w: u32, h: u32 },
}

impl View for Page {
    type V = PageModel;

    open spec fn view(&self) -> PageModel {
        match self {
            Page::Empty => PageModel::Empty,
            Page::Text { lines } => PageModel::Text(lines@.map_values(|s: String| s@)),
            Page::BImage { data, w, h } => PageModel::Bitmap(data@, *w, *h),
        }
    }
}

impl PageModel {
    /// The lines of a text page; no lines for any other page.
    pub open spec fn lines(self) -> Seq<Seq<char>> {
        match self {
            PageModel::Text(lines) => lines,
            _ => Seq::empty(),
        }
    }

    /// A bitmap page's data has exactly the packed length of its size.
    pub open spec fn wf(self) -> bool {
        match self {
            PageModel::Bitmap(data, w, h) => data.len() == bitmap_len(w, h),
            _ => true,
        }
    }
}

impl Page {
    pub fn new_text(line_num: usize) -> (r: Self)
        ensures
            r@ == blank_text(line_num as nat),
    {
        let mut lines: Vec<String> = Vec::new();
        let mut k: usize = 0;
        while k < line_num
            invariant
                k <= line_num,
                lines@.len() == k,
                forall|j: int| 0 <= j < k ==> (#[trigger] lines@[j])@ == Seq::<char>::empty(),
            decreases line_num - k,
        {
            lines.push(String::new());
            k = k + 1;
        }
        let r = Page::Text { lines };
        assert(r@.lines() =~= blank_text(line_num as nat).lines());
        r
    }

    pub fn new_image(w: u32, h: u32) -> (r: Self)
        requires
            bitmap_len(w, h) <= usize::MAX,
        ensures
            r@ == PageModel::Bitmap(Seq::new(bitmap_len(w, h), |i: int| 0u8), w, h),
            r@.wf(),
    {
        let row: u64 = ((w as u64) + 7) / 8;
        proof {
            assert(row * (h as u64) <= 0x2000_0000u64 * 0x1_0000_0000u64) by (nonlinear_arith)
                requires row <= 0x2000_0000u64, h <= 0xffff_ffffu32;
        }
        let n: usize = (row * (h as u64)) as usize;
        let mut data: Vec<u8> = Vec::new();
        let mut k: usize = 0;
        while k < n
            invariant
                k <= n,
                n == bitmap_len(w, h),
                data@ =~= Seq::new(k as nat, |i: int| 0u8),
            decreases n - k,
        {
            data.push(0u8);
            k = k + 1;
        }
        Page::BImage { data, w, h }
    }

    /// Replaces line `i` of a text page; reports whether there was such a line.
    pub fn set_text(&mut self, i: usize, text: String) -> (r: bool)
        ensures
            r == (old(self)@ is Text && i < old(self)@.lines().len()),
            r ==> final(self)@ == PageModel::Text(old(self)@.lines().update(i as int, text@)),
            !r ==> final(self)@ == old(self)@,
    {
        match self {
            Page::Text { lines } => {
                if i < lines.len() {
                    proof {
                        assert(lines@.update(i as int, text).map_values(|s: String| s@)
                            =~= lines@.map_values(|s: String| s@).update(i as int, text@));
                    }
                    lines.set(i, text);
                    true
                } else {
                    false
                }
            },
            _ => false,
        }
    }

    /// Line `i` of a text page, if there is one.
    pub fn get_text(&self, i: usize) -> (r: Option<&str>)
        ensures
            r.is_some() == (self@ is Text && i < self@.lines().len()),
            r.is_some() ==> r.unwrap()@ == self@.lines()[i as int],
    {
        match self {
            Page::Text { lines } => {
                if i < lines.len() {
                    Some(lines[i].as_str())
                } else {
                    None
                }
            },
            _ => None,
        }
    }

    /// Removes line `i` of a text page, shifting later lines down.
    pub fn remove_text(&mut self, i: usize) -> (r: bool)
        ensures
            r == (old(self)@ is Text && i < old(self)@.lines().len()),
            r ==> final(self)@ == PageModel::Text(old(self)@.lines().remove(i as int)),
            !r ==> final(self)@ == old(self)@,
    {
        match self {
            Page::Text { lines } => {
                if i < lines.len() {
                    proof {
                        assert(lines@.remove(i as int).map_values(|s: String| s@)
                            =~= lines@.map_values(|s: String| s@).remove(i as int));
                    }
                    lines.remove(i);
                    true
                } else {
                    false
                }
            },
            _ => false,
        }
    }

    /// Number of lines of a text page; zero for any other page.
    pub fn line_num(&self) -> (r: usize)
        ensures
            r == self@.lines().len(),
    {
        match self {
            Page::Text { lines } => lines.len(),
            _ => 0,
        }
    }
}

/// The pages of a content, in order, and the line count of each new text page.
pub struct ContentModel {
    pub pages: Seq<PageModel>,
    pub line_limit: nat,
}

/// Page models of a sequence of pages.
pub open spec fn page_models(pages: Seq<Page>) -> Seq<PageModel> {
    pages.map_values(|p: Page| p@)
}

proof fn lemma_page_models_update(pages: Seq<Page>, i: int, p: Page)
    requires
        0 <= i < pages.len(),
    ensures
        page_models(pages.update(i, p)) == page_models(pages).update(i, p@),
{
    assert(page_models(pages.update(i, p)) =~= page_models(pages).update(i, p@));
}

proof fn lemma_page_models_push(pages: Seq<Page>, p: Page)
    ensures
        page_models(pages.push(p)) == page_models(pages).push(p@),
{
    assert(page_models(pages.push(p)) =~= page_models(pages).push(p@));
}

proof fn lemma_page_models_remove(pages: Seq<Page>, i: int)
    requires
        0 <= i < pages.len(),
    ensures
        page_models(pages.remove(i)) == page_models(pages).remove(i),
{
    assert(page_models(pages.remove(i)) =~= page_models(pages).remove(i));
}

/// An ordered collection of pages. Pages are appended at the end or replaced in
/// place, never added past the end; removing one shifts the later ones down.
pub struct Content {
    pages: Vec<Page>,
    line_limit: usize,
}

impl View for Content {
    type V = ContentModel;

    closed spec fn view(&self) -> ContentModel {
        ContentModel { pages: page_models(self.pages@), line_limit: self.line_limit as nat }
    }
}

impl Content {
    pub fn new(line_limit: usize) -> (r: Self)
        ensures
            r@.pages == Seq::<PageModel>::empty(),
            r@.line_limit == line_limit,
    {
        let r = Content { pages: Vec::new(), line_limit };
        assert(r@.pages =~= Seq::<PageModel>::empty());
        r
    }

    pub fn new_with_capacity(line_limit: usize, capacity: usize) -> (r: Self)
        ensures
            r@.pages == Seq::<PageModel>::empty(),
            r@.line_limit == line_limit,
    {
        let r = Content { pages: Vec::with_capacity(capacity), line_limit };
        assert(r@.pages =~= Seq::<PageModel>::empty());
        r
    }

    pub fn line_limit(&self) -> (r: usize)
        ensures
            r == self@.line_limit,
    {
        self.line_limit
    }

    pub fn get(&self, i: usize) -> (r: Option<&Page>)
        ensures
            r.is_some() == (i < self@.pages.len()),
            r.is_some() ==> r.unwrap()@ == self@.pages[i as int],
    {
        if i < self.pages.len() {
            Some(&self.pages[i])
        } else {
            None
        }
    }

    pub fn get_mut(&mut self, i: usize) -> (r: Option<&mut Page>)
        ensures
            r.is_some() == (i < old(self)@.pages.len()),
            final(self)@.line_limit == old(self)@.line_limit,
            match r {
                Some(p) => (*p)@ == old(self)@.pages[i as int]
                    && final(self)@ == (ContentModel { pages: old(self)@.pages.update(i as int, (*final(p))@), ..old(self)@ }),
                None => final(self)@ == old(self)@,
            },
    {
        if i < self.pages.len() {
            let p = &mut self.pages[i];
            proof {
                lemma_page_models_update(old(self).pages@, i as int, *final(p));
            }
            Some(p)
        } else {
            None
        }
    }

    /// The page at `i`; at `i == len` a page made by `generate` is appended first.
    pub fn get_mut_or_add<G: FnOnce() -> Page>(&mut self, i: usize, generate: G) -> (r: Option<&mut Page>)
        requires
            i == old(self)@.pages.len() ==> generate.requires(()),
        ensures
            r.is_some() == (i <= old(self)@.pages.len()),
            final(self)@.line_limit == old(self)@.line_limit,
            match r {
                Some(p) => if i < old(self)@.pages.len() {
                    (*p)@ == old(self)@.pages[i as int]
                        && final(self)@ == (ContentModel { pages: old(self)@.pages.update(i as int, (*final(p))@), ..old(self)@ })
                } else {
                    generate.ensures((), *p)
                        && final(self)@ == (ContentModel { pages: old(self)@.pages.push((*final(p))@), ..old(self)@ })
                },
                None => final(self)@ == old(self)@,
            },
    {
        let len = self.pages.len();
        if i > len {
            None
        } else {
            if i == len {
                let page = generate();
                proof {
                    lemma_page_models_push(self.pages@, page);
                }
                self.pages.push(page);
            }
            let ghost mid = self.pages@;
            let p = &mut self.pages[i];
            proof {
                lemma_page_models_update(mid, i as int, *final(p));
                if i == len {
                    lemma_page_models_push(old(self).pages@, *final(p));
                    assert(mid.update(i as int, *final(p)) =~= old(self).pages@.push(*final(p)));
                }
            }
            Some(p)
        }
    }

    /// Puts `page` at `i`: replaces the page there, or appends at `i == len`.
    /// Fails, changing nothing, past the end.
    pub fn set(&mut self, i: usize, page: Page) -> (r: bool)
        ensures
            r == (i <= old(self)@.pages.len()),
            final(self)@.line_limit == old(self)@.line_limit,
            r && i < old(self)@.pages.len() ==> final(self)@ == (ContentModel { pages: old(self)@.pages.update(i as int, page@), ..old(self)@ }),
            r && i == old(self)@.pages.len() ==> final(self)@ == (ContentModel { pages: old(self)@.pages.push(page@), ..old(self)@ }),
            !r ==> final(self)@ == old(self)@,
    {
        let len = self.pages.len();
        if i > len {
            false
        } else {
            if i == len {
                proof {
                    lemma_page_models_push(self.pages@, page);
                }
                self.pages.push(page);
            } else {
                proof {
                    lemma_page_models_update(self.pages@, i as int, page);
                }
                self.pages.set(i, page);
            }
            true
        }
    }

    /// Removes and returns the page at `i`, shifting later pages down.
    pub fn remove(&mut self, i: usize) -> (r: Option<Page>)
        ensures
            r.is_some() == (i < old(self)@.pages.len()),
            final(self)@.line_limit == old(self)@.line_limit,
            r.is_some() ==> r.unwrap()@ == old(self)@.pages[i as int]
                && final(self)@ == (ContentModel { pages: old(self)@.pages.remove(i as int), ..old(self)@ }),
            r.is_none() ==> final(self)@ == old(self)@,
    {
        if i < self.pages.len() {
            proof {
                lemma_page_models_remove(self.pages@, i as int);
            }
            Some(self.pages.remove(i))
        } else {
            None
        }
    }

    pub fn len(&self) -> (r: usize)
        ensures
            r == self@.pages.len(),
    {
        self.pages.len()
    }
}

} // verus!
