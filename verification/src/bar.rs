//! The progress indicator: a wrapper around an iterator that draws one
//! frame per pull, without touching the items it hands through.

use vstd::prelude::*;

use crate::render::{bar_glyphs, frame_chars, spinner_glyphs};
use crate::render::format_frame;
use std::io::Write;
use vstd::std_specs::iter::IteratorSpec;

verus! {

/// A wrapper around an iterator that prints a progress bar.
#[derive(Debug)]
pub struct ProgressIndicator<Iter> {
    /// The iterator to wrap.
    pub iter: Iter,
    /// A counter of the items yielded so far.
    pub i: usize,
    /// If the iterator is sized, the length it reported.
    pub bound: Option<usize>,
    /// The display width of the progress bar, in full-cell units.
    pub width: usize,
    /// The characters used to display the bar, from empty to almost
    /// full; a partially filled cell shows one of them.
    pub bars: [char; 8],
    /// The number of characters in `bars`.
    pub nbars: usize,
    /// The characters used to display a spinner, which is used when the
    /// iterator is not sized. The spinner rotates through them.
    pub spinner: [char; 4],
    /// The number of characters in `spinner`.
    pub nspinners: usize,
}

impl<Iter> ProgressIndicator<Iter> {
    /// The glyph tables hold their fixed characters, and the width is a
    /// positive number of cells whose eightfold fits the machine.
    pub open spec fn wf(&self) -> bool {
        &&& self.width >= 1
        &&& self.width * 8 <= usize::MAX
        &&& self.bars@ == bar_glyphs()
        &&& self.nbars == 8
        &&& self.spinner@ == spinner_glyphs()
        &&& self.nspinners == 4
    }

    /// Create a new `ProgressIndicator` from an iterator.
    pub fn new(iter: Iter) -> (r: Self)
        ensures
            r.iter == iter,
            r.i == 0,
            r.bound is None,
            r.width == 1,
            r.wf(),
    {
        let r = Self {
            iter,
            i: 0,
            bound: None,
            width: 1,
            bars: [' ', '▏', '▎', '▍', '▌', '▋', '▊', '▉'],
            nbars: 8,
            spinner: ['-', '\\', '|', '/'],
            nspinners: 4,
        };
        proof {
            assert(r.bars@ =~= bar_glyphs());
            assert(r.spinner@ =~= spinner_glyphs());
        }
        r
    }

    /// Format the progress indicator for the current iteration: a bar
    /// if the iterator's length has been captured in `bound`, otherwise
    /// a spinner.
    pub fn format_bar(&self) -> (r: String)
        requires
            self.wf(),
        ensures
            r@ == frame_chars(self.i as nat, self.bound, self.width as nat),
    {
        format_frame(self.i, self.bound, self.width)
    }
}

/// Relies on `std::io::Write::write_fmt` through `write!`: sends the
/// clear-screen-and-home escape sequence and one frame line to standard
/// output.
#[verifier::external_body]
fn emit_frame(frame: &str) {
    let _ = write!(std::io::stdout(), "\x1B[2J\x1B[1;1H{}\n", frame);
}

/// Relies on `ExactSizeIterator::len`: it returns the exact number of
/// items the iterator has left to yield.
#[verifier::external_body]
fn source_len<Iter: ExactSizeIterator>(iter: &Iter) -> (r: usize)
    ensures
        iter.obeys_prophetic_iter_laws() ==> r as nat == iter.remaining().len(),
{
    iter.len()
}

impl<Iter> ProgressIndicator<Iter> where Iter: Iterator {
    /// Clear the terminal, draw the frame for the current count, then
    /// pull one item from the wrapped iterator and hand it through
    /// unchanged. The count grows by one exactly when an item came.
    pub fn next(&mut self) -> (r: Option<Iter::Item>)
        requires
            old(self).wf(),
            old(self).i < usize::MAX,
        ensures
            final(self).wf(),
            final(self).bound == old(self).bound,
            final(self).width == old(self).width,
            final(self).i == old(self).i + (if r is Some { 1int } else { 0int }),
            old(self).iter.obeys_prophetic_iter_laws() ==> {
                &&& final(self).iter.obeys_prophetic_iter_laws()
                &&& (old(self).iter.decrease() is Some <==> final(self).iter.decrease() is Some)
                &&& if old(self).iter.remaining().len() > 0 {
                    &&& r == Some(old(self).iter.remaining()[0])
                    &&& final(self).iter.remaining() == old(self).iter.remaining().drop_first()
                    &&& final(self).i == old(self).i + 1
                } else {
                    &&& r is None
                    &&& final(self).iter.remaining() == old(self).iter.remaining()
                    &&& final(self).i == old(self).i
                }
            },
            (old(self).iter.obeys_prophetic_iter_laws() && old(self).iter.remaining().len() > 0
                && final(self).iter.decrease() is Some) ==> decreases_to!(
                old(self).iter.decrease()->0 => final(self).iter.decrease()->0),
    {
        let frame = self.format_bar();
        emit_frame(frame.as_str());
        let item = self.iter.next();
        if item.is_some() {
            self.i = self.i + 1;
        }
        item
    }

    /// Pull the wrapper until the wrapped iterator is exhausted, drawing
    /// one frame per pull, and return the items. The law of transparency:
    /// what comes out is exactly what the wrapped iterator had left, in
    /// the same order — rendering is a pure side channel.
    pub fn collect(self) -> (r: Vec<Iter::Item>)
        requires
            self.wf(),
            self.iter.obeys_prophetic_iter_laws(),
            self.iter.decrease() is Some,
            self.i + self.iter.remaining().len() < usize::MAX,
        ensures
            r@ == self.iter.remaining(),
    {
        let ghost source_items = self.iter.remaining();
        let mut p = self;
        let mut out: Vec<Iter::Item> = Vec::new();
        loop
            invariant
                p.wf(),
                p.iter.obeys_prophetic_iter_laws(),
                p.iter.decrease() is Some,
                p.i + p.iter.remaining().len() < usize::MAX,
                out@ + p.iter.remaining() == source_items,
            ensures
                out@ == source_items,
            decreases p.iter.decrease()->0,
        {
            match p.next() {
                Some(x) => {
                    out.push(x);
                    proof {
                        assert(out@ + p.iter.remaining() =~= source_items);
                    }
                },
                None => {
                    proof {
                        assert(out@ =~= source_items);
                    }
                    break;
                },
            }
        }
        out
    }
}

impl<Iter> ProgressIndicator<Iter> where Iter: ExactSizeIterator {
    /// Set the bound of the progress bar to the length of the iterator,
    /// turning the display into a percentage bar.
    pub fn bar(self) -> (r: Self)
        requires
            self.wf(),
        ensures
            r.wf(),
            r.iter == self.iter,
            r.i == self.i,
            r.width == self.width,
            r.bound is Some,
            self.iter.obeys_prophetic_iter_laws() ==> r.bound == Some(
                self.iter.remaining().len() as usize,
            ),
    {
        let len: usize = source_len(&self.iter);
        Self { bound: Some(len), ..self }
    }

    /// Use a bounded progress bar with a specific display width. A width
    /// below one cell is raised to one.
    pub fn bar_custom_width(self, width: usize) -> (r: Self)
        requires
            self.wf(),
            width * 8 <= usize::MAX,
        ensures
            r.wf(),
            r.iter == self.iter,
            r.i == self.i,
            r.width == (if width >= 1 { width } else { 1 }),
            r.bound is Some,
            self.iter.obeys_prophetic_iter_laws() ==> r.bound == Some(
                self.iter.remaining().len() as usize,
            ),
    {
        let len: usize = source_len(&self.iter);
        let width: usize = if width >= 1 { width } else { 1 };
        Self { bound: Some(len), width, ..self }
    }

    /// Use a spinner with a sized iterator instead. This overrides the
    /// default choice of a bar for sized iterators by leaving the bound
    /// uncaptured.
    pub fn spinner(self) -> (r: Self)
        ensures
            r == self,
    {
        self
    }
}

/// Extension trait for iterators to enable the progress indicator.
pub trait ProgressIndicatorIteratorExt: Sized {
    /// Add a progress indicator around an iterator.
    fn progress(self) -> (r: ProgressIndicator<Self>)
        ensures
            r.iter == self,
            r.i == 0,
            r.bound is None,
            r.width == 1,
            r.wf(),
    ;
}

impl<Iter> ProgressIndicatorIteratorExt for Iter where Iter: Iterator {
    fn progress(self) -> (r: ProgressIndicator<Self>) {
        ProgressIndicator::new(self)
    }
}

} // verus!
