//! The sparse table of glyph widths.

use crate::primitive::Number;
use vstd::prelude::*;

verus! {

/// A table of widths by character code: a run of values that starts at
/// code `first_char`, and a default for every code outside the run.
#[derive(Debug)]
pub struct Widths {
    values: Vec<Number>,
    default: Number,
    first_char: usize,
}

/// Mathematical view of a [`Widths`] table.
pub ghost struct WidthsView {
    pub values: Seq<Number>,
    pub default: Number,
    pub first_char: int,
}

impl WidthsView {
    /// The empty table with the given default.
    pub open spec fn empty(default: Number) -> WidthsView {
        WidthsView { values: Seq::empty(), default, first_char: 0 }
    }

    /// The code after the last of the run.
    pub open spec fn end(self) -> int {
        self.first_char + self.values.len()
    }

    /// The width of a code: its value where the code lies in the run, the
    /// default everywhere else.
    pub open spec fn width_at(self, code: int) -> Number {
        if self.first_char <= code < self.end() {
            self.values[code - self.first_char]
        } else {
            self.default
        }
    }

    /// The table with `width` set for `code`. The first code set starts
    /// the run. A code before the run moves its start there, a code after
    /// it moves its end there, and the codes between take the default.
    pub open spec fn set(self, code: int, width: Number) -> WidthsView {
        if self.values.len() == 0 {
            WidthsView { values: seq![width], default: self.default, first_char: code }
        } else if code < self.first_char {
            WidthsView {
                values: seq![width] + Seq::new(
                    (self.first_char - code - 1) as nat,
                    |i: int| self.default,
                ) + self.values,
                default: self.default,
                first_char: code,
            }
        } else if code >= self.end() {
            WidthsView {
                values: self.values + Seq::new((code - self.end()) as nat, |i: int| self.default)
                    + seq![width],
                default: self.default,
                first_char: self.first_char,
            }
        } else {
            WidthsView {
                values: self.values.update(code - self.first_char, width),
                default: self.default,
                first_char: self.first_char,
            }
        }
    }

    /// The table after a list of settings, made in order.
    pub open spec fn set_all(self, settings: Seq<(int, Number)>) -> WidthsView
        decreases settings.len(),
    {
        if settings.len() == 0 {
            self
        } else {
            self.set_all(settings.drop_last()).set(settings.last().0, settings.last().1)
        }
    }
}

/// The width last set for `code` in a list of settings, if any.
pub open spec fn last_set(settings: Seq<(int, Number)>, code: int) -> Option<Number>
    decreases settings.len(),
{
    if settings.len() == 0 {
        None
    } else if settings.last().0 == code {
        Some(settings.last().1)
    } else {
        last_set(settings.drop_last(), code)
    }
}

/// Setting a width changes the width of that code and of no other, and
/// leaves the default as it is. The run afterwards spans the old run and
/// the code.
pub proof fn lemma_set(w: WidthsView, code: int, width: Number)
    ensures
        w.set(code, width).default == w.default,
        forall|c: int|
            #[trigger] w.set(code, width).width_at(c) == if c == code {
                width
            } else {
                w.width_at(c)
            },
        w.values.len() == 0 ==> w.set(code, width).first_char == code && w.set(code, width).end()
            == code + 1,
        w.values.len() > 0 ==> w.set(code, width).first_char == (if code < w.first_char {
            code
        } else {
            w.first_char
        }) && w.set(code, width).end() == (if code >= w.end() {
            code + 1
        } else {
            w.end()
        }),
{
}

/// A table built by any settings, in any order, gives each code the width
/// last set for it, and the default to every code that was never set:
/// those below the first and above the last code set, and those in the
/// gaps between.
pub proof fn lemma_widths_lookup(default: Number, settings: Seq<(int, Number)>, code: int)
    ensures
        WidthsView::empty(default).set_all(settings).default == default,
        WidthsView::empty(default).set_all(settings).width_at(code) == match last_set(
            settings,
            code,
        ) {
            Some(width) => width,
            None => default,
        },
    decreases settings.len(),
{
    if settings.len() > 0 {
        lemma_widths_lookup(default, settings.drop_last(), code);
        lemma_set(
            WidthsView::empty(default).set_all(settings.drop_last()),
            settings.last().0,
            settings.last().1,
        );
    }
}

/// The run of a table built by settings spans the codes set and no more:
/// a code below all of them, or above all of them, lies outside the run.
pub proof fn lemma_widths_range(default: Number, settings: Seq<(int, Number)>, code: int)
    requires
        settings.len() > 0,
        (forall|i: int| 0 <= i < settings.len() ==> code < (#[trigger] settings[i]).0) || (forall|
            i: int,
        |
            0 <= i < settings.len() ==> code > (#[trigger] settings[i]).0),
    ensures
        ({
            let w = WidthsView::empty(default).set_all(settings);
            code < w.first_char || code >= w.end()
        }),
        WidthsView::empty(default).set_all(settings).width_at(code) == default,
    decreases settings.len(),
{
    let before = WidthsView::empty(default).set_all(settings.drop_last());
    lemma_set(before, settings.last().0, settings.last().1);
    lemma_widths_lookup(default, settings, code);
    if settings.len() > 1 {
        assert forall|i: int| 0 <= i < settings.drop_last().len() implies (
        #[trigger] settings.drop_last()[i]) == settings[i] by {}
        lemma_widths_range(default, settings.drop_last(), code);
    } else {
        assert(settings.drop_last().len() == 0);
        assert(before.values.len() == 0);
    }
}

impl View for Widths {
    type V = WidthsView;

    closed spec fn view(&self) -> WidthsView {
        WidthsView {
            values: self.values@,
            default: self.default,
            first_char: self.first_char as int,
        }
    }
}

impl Widths {
    /// The width of a code. Never fails: a code below or beyond the run
    /// has the default width.
    pub fn get(&self, cid: usize) -> (width: Number)
        ensures
            width == self@.width_at(cid as int),
    {
        if cid < self.first_char {
            self.default
        } else {
            let at = cid - self.first_char;
            if at < self.values.len() {
                self.values[at]
            } else {
                self.default
            }
        }
    }

    /// The empty table with the given default.
    pub fn new(default: Number) -> (w: Widths)
        ensures
            w@ == WidthsView::empty(default),
    {
        Widths { default, values: Vec::new(), first_char: 0 }
    }

    /// A table whose run is `values`, from code `first_char` on.
    pub fn from_run(default: Number, first_char: usize, values: Vec<Number>) -> (w: Widths)
        ensures
            w@ == (WidthsView { values: values@, default, first_char: first_char as int }),
    {
        Widths { default, values, first_char }
    }

    /// Makes room for `n` values in all, where the memory is to be had.
    /// The table stays as it is either way.
    pub fn ensure_capacity(&mut self, n: usize)
        ensures
            final(self)@ == old(self)@,
    {
        let len = self.values.len();
        if n > len {
            let missing = n - len;
            let mut values: Vec<Number> = Vec::new();
            std::mem::swap(&mut values, &mut self.values);
            let _ = values.try_reserve(missing);
            self.values = values;
        }
    }

    /// Sets the width of a code.
    ///
    /// The first code set starts the run. A code before the run moves its
    /// start there and a code after it moves its end there; the codes
    /// between take the default. The width of every other code stays.
    pub fn set(&mut self, cid: usize, width: Number)
        ensures
            final(self)@ == old(self)@.set(cid as int, width),
    {
        let default = self.default;
        let first = self.first_char;
        let mut values: Vec<Number> = Vec::new();
        std::mem::swap(&mut values, &mut self.values);
        let len = values.len();

        if len == 0 {
            values.push(width);
            assert(values@ =~= seq![width]);
            self.first_char = cid;
            self.values = values;
            return ;
        }
        if cid < first {
            // the new run: the width, the gap, then the old run
            let gap = first - cid - 1;
            let mut run: Vec<Number> = Vec::new();
            run.push(width);
            let mut k: usize = 0;
            while k < gap
                invariant
                    k <= gap,
                    run@ == seq![width] + Seq::new(k as nat, |i: int| default),
                decreases gap - k,
            {
                run.push(default);
                assert(run@ =~= seq![width] + Seq::new((k + 1) as nat, |i: int| default));
                k += 1;
            }
            run.append(&mut values);
            self.first_char = cid;
            self.values = run;
            return ;
        }
        let at = cid - first;
        if at >= len {
            let gap = at - len;
            let ghost held = values@;
            let mut k: usize = 0;
            while k < gap
                invariant
                    k <= gap,
                    values@ == held + Seq::new(k as nat, |i: int| default),
                decreases gap - k,
            {
                values.push(default);
                assert(values@ =~= held + Seq::new((k + 1) as nat, |i: int| default));
                k += 1;
            }
            values.push(width);
            assert(values@ =~= held + Seq::new(gap as nat, |i: int| default) + seq![width]);
            self.values = values;
            return ;
        }
        values[at] = width;
        self.values = values;
    }
}

} // verus!
