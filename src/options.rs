use vstd::prelude::*;
use crate::counting::Statistics;

verus! {

/// Which counts the user asked for.
#[derive(PartialEq, Eq, Structural, Clone, Copy, Debug)]
pub struct Options {
    pub count_bytes: bool,
    pub count_lines: bool,
    pub count_words: bool,
    pub count_chars: bool,
}

impl Options {
    pub fn is_any_set(&self) -> (r: bool)
        ensures
            r == (self.count_bytes || self.count_lines || self.count_words || self.count_chars),
    {
        self.count_bytes || self.count_lines || self.count_words || self.count_chars
    }
}

/// The counts to report: lines, words and bytes when no flag is set, else
/// those whose flags are set, in the order lines, words, bytes, chars.
pub open spec fn selection(o: Options, s: Statistics) -> Seq<usize> {
    if !(o.count_bytes || o.count_lines || o.count_words || o.count_chars) {
        seq![s.lines, s.words, s.bytes]
    } else {
        (if o.count_lines { seq![s.lines] } else { Seq::empty() })
            + (if o.count_words { seq![s.words] } else { Seq::empty() })
            + (if o.count_bytes { seq![s.bytes] } else { Seq::empty() })
            + (if o.count_chars { seq![s.chars] } else { Seq::empty() })
    }
}

pub fn selected_counts(options: &Options, stats: &Statistics) -> (r: Vec<usize>)
    ensures
        r@ == selection(*options, *stats),
{
    let mut r: Vec<usize> = Vec::new();
    if !options.is_any_set() {
        r.push(stats.lines);
        r.push(stats.words);
        r.push(stats.bytes);
        assert(r@ =~= selection(*options, *stats));
        return r;
    }
    if options.count_lines {
        r.push(stats.lines);
    }
    if options.count_words {
        r.push(stats.words);
    }
    if options.count_bytes {
        r.push(stats.bytes);
    }
    if options.count_chars {
        r.push(stats.chars);
    }
    assert(r@ =~= selection(*options, *stats));
    r
}

/// The output lines, each a list of counts: one line with all of them when
/// no flag is set, else one line per count.
pub open spec fn rows(o: Options, s: Statistics) -> Seq<Seq<usize>> {
    if !(o.count_bytes || o.count_lines || o.count_words || o.count_chars) {
        seq![selection(o, s)]
    } else {
        selection(o, s).map(|_i: int, n: usize| seq![n])
    }
}

pub fn report_rows(options: &Options, stats: &Statistics) -> (r: Vec<Vec<usize>>)
    ensures
        r@.len() == rows(*options, *stats).len(),
        forall|i: int| 0 <= i < r@.len() ==> #[trigger] r@[i]@ == rows(*options, *stats)[i],
{
    let counts = selected_counts(options, stats);
    let mut r: Vec<Vec<usize>> = Vec::new();
    if !options.is_any_set() {
        r.push(counts);
        return r;
    }
    let mut i: usize = 0;
    while i < counts.len()
        invariant
            i <= counts@.len(),
            counts@ == selection(*options, *stats),
            options.count_bytes || options.count_lines || options.count_words
                || options.count_chars,
            r@.len() == i,
            forall|j: int| 0 <= j < i ==> #[trigger] r@[j]@ == rows(*options, *stats)[j],
        decreases counts@.len() - i,
    {
        let mut row: Vec<usize> = Vec::new();
        row.push(counts[i]);
        assert(row@ =~= rows(*options, *stats)[i as int]);
        r.push(row);
        i = i + 1;
    }
    r
}

} // verus!
