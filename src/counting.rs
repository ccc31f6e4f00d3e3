use vstd::prelude::*;
use vstd::utf8::{encode_scalar, encode_utf8};

verus! {

/// Whether `c` has the Unicode `White_Space` property.
pub open spec fn is_space(c: char) -> bool {
    let u = c as u32;
    ||| 0x09 <= u <= 0x0D
    ||| u == 0x20
    ||| u == 0x85
    ||| u == 0xA0
    ||| u == 0x1680
    ||| 0x2000 <= u <= 0x200A
    ||| u == 0x2028
    ||| u == 0x2029
    ||| u == 0x202F
    ||| u == 0x205F
    ||| u == 0x3000
}

/// Executable test for Unicode whitespace.
pub fn is_whitespace(c: char) -> (r: bool)
    ensures
        r == is_space(c),
{
    let u = c as u32;
    (0x09 <= u && u <= 0x0D) || u == 0x20 || u == 0x85 || u == 0xA0 || u == 0x1680 || (0x2000
        <= u && u <= 0x200A) || u == 0x2028 || u == 0x2029 || u == 0x202F || u == 0x205F || u
        == 0x3000
}


/// Number of line terminators in `s`.
pub open spec fn newline_count(s: Seq<char>) -> nat
    decreases s.len(),
{
    if s.len() == 0 {
        0
    } else {
        newline_count(s.drop_last()) + if s.last() == '\n' { 1nat } else { 0nat }
    }
}

/// Number of lines: each terminator ends one, and a final line without a
/// terminator counts as well.
pub open spec fn line_count(s: Seq<char>) -> nat {
    newline_count(s) + if s.len() > 0 && s.last() != '\n' { 1nat } else { 0nat }
}

/// Number of maximal runs of non-whitespace characters in `s`.
pub open spec fn word_count(s: Seq<char>) -> nat
    decreases s.len(),
{
    if s.len() == 0 {
        0
    } else {
        word_count(s.drop_last()) + if !is_space(s.last()) && (s.len() == 1 || is_space(
            s[s.len() - 2],
        )) {
            1nat
        } else {
            0nat
        }
    }
}

/// Size of the UTF-8 encoding of `s`.
pub open spec fn byte_count(s: Seq<char>) -> nat {
    encode_utf8(s).len()
}

/// The four counts of a text.
pub struct Statistics {
    pub lines: usize,
    pub words: usize,
    pub bytes: usize,
    pub chars: usize,
}

impl Statistics {
    pub fn from_content(content: &str) -> (r: Statistics)
        requires
            byte_count(content@) <= usize::MAX,
        ensures
            r.lines == line_count(content@),
            r.words == word_count(content@),
            r.bytes == byte_count(content@),
            r.chars == content@.len(),
    {
        proof {
            lemma_bytes_at_least_chars(content@);
        }
        let mut newlines: usize = 0;
        let mut words: usize = 0;
        let mut chars: usize = 0;
        let mut prev_space = true;
        let mut last: char = '\n';
        for c in it: content.chars()
            invariant
                it.seq() == content@,
                content@.len() <= usize::MAX,
                chars == it.index(),
                newlines == newline_count(content@.subrange(0, it.index() as int)),
                words == word_count(content@.subrange(0, it.index() as int)),
                newlines <= chars,
                it.index() > 0 && last != '\n' ==> newlines < chars,
                words <= chars,
                it.index() > 0 ==> last == content@[it.index() - 1],
                it.index() == 0 ==> last == '\n',
                prev_space == (it.index() == 0 || is_space(content@[it.index() - 1])),
        {
            let ghost i = it.index();
            let ghost pre = content@.subrange(0, i as int);
            let ghost cur = content@.subrange(0, i + 1);
            assert(cur.drop_last() =~= pre);
            let sp = is_whitespace(c);
            if c == '\n' {
                newlines = newlines + 1;
            }
            if !sp && prev_space {
                words = words + 1;
            }
            prev_space = sp;
            last = c;
            chars = chars + 1;
        }
        assert(content@.subrange(0, content@.len() as int) =~= content@);
        let lines = if chars > 0 && last != '\n' { newlines + 1 } else { newlines };
        Statistics { lines, words, bytes: content.len(), chars }
    }
}

/// A text never has fewer bytes than characters, and has exactly as many
/// when every character is ASCII.
pub proof fn lemma_bytes_at_least_chars(s: Seq<char>)
    ensures
        byte_count(s) >= s.len(),
        byte_count(s) == s.len() <==> forall|i: int| 0 <= i < s.len() ==> (s[i] as u32) < 0x80,
    decreases s.len(),
{
    if s.len() > 0 {
        lemma_bytes_at_least_chars(s.drop_first());
        let w = encode_scalar(s[0] as u32).len();
        assert(w >= 1);
        assert(w == 1 <==> (s[0] as u32) < 0x80);
        if byte_count(s) == s.len() {
            assert forall|i: int| 0 <= i < s.len() implies (s[i] as u32) < 0x80 by {
                if i > 0 {
                    assert(s[i] == s.drop_first()[i - 1]);
                }
            }
        }
        if forall|i: int| 0 <= i < s.len() ==> (s[i] as u32) < 0x80 {
            assert forall|i: int| 0 <= i < s.drop_first().len() implies (s.drop_first()[i] as u32)
                < 0x80 by {
                assert(s.drop_first()[i] == s[i + 1]);
            }
        }
    }
}

/// A final terminator adds no line: a text ending in a line terminator has
/// as many lines as the same text without it, if that text does not itself
/// end in a terminator.
pub proof fn lemma_trailing_newline(s: Seq<char>)
    requires
        s.len() > 0,
        s.last() != '\n',
    ensures
        line_count(s.push('\n')) == line_count(s),
{
    assert(s.push('\n').drop_last() =~= s);
}

/// Whether `x` ends and `y` starts with a non-whitespace character, so
/// that joining them glues two words into one.
pub open spec fn glued(x: Seq<char>, y: Seq<char>) -> bool {
    x.len() > 0 && !is_space(x.last()) && y.len() > 0 && !is_space(y[0])
}

/// The words of a concatenation are those of its parts, less one where a
/// word runs across the joint.
pub proof fn lemma_word_count_concat(x: Seq<char>, y: Seq<char>)
    ensures
        word_count(x + y) == word_count(x) + word_count(y) - if glued(x, y) { 1int } else { 0int },
    decreases y.len(),
{
    if y.len() == 0 {
        assert(x + y =~= x);
    } else {
        let xy = x + y;
        let yp = y.drop_last();
        assert(xy.drop_last() =~= x + yp);
        lemma_word_count_concat(x, yp);
        assert(xy.last() == y.last());
        if y.len() >= 2 {
            assert(xy[xy.len() - 2] == y[y.len() - 2]);
            assert(yp[0] == y[0]);
        } else {
            assert(yp.len() == 0);
            assert(x + yp =~= x);
            if x.len() > 0 {
                assert(xy[xy.len() - 2] == x.last());
            }
        }
    }
}

/// A text made only of whitespace holds no word.
pub proof fn lemma_no_words_in_space(w: Seq<char>)
    requires
        forall|i: int| 0 <= i < w.len() ==> is_space(#[trigger] w[i]),
    ensures
        word_count(w) == 0,
    decreases w.len(),
{
    if w.len() > 0 {
        let wp = w.drop_last();
        assert forall|i: int| 0 <= i < wp.len() implies is_space(#[trigger] wp[i]) by {
            assert(wp[i] == w[i]);
        }
        lemma_no_words_in_space(wp);
        assert(is_space(w[w.len() - 1]));
    }
}

/// Stretching or shrinking a non-empty run of whitespace between two parts
/// of a text leaves the number of words unchanged.
pub proof fn lemma_space_run_length(a: Seq<char>, w1: Seq<char>, w2: Seq<char>, b: Seq<char>)
    requires
        w1.len() > 0,
        w2.len() > 0,
        forall|i: int| 0 <= i < w1.len() ==> is_space(#[trigger] w1[i]),
        forall|i: int| 0 <= i < w2.len() ==> is_space(#[trigger] w2[i]),
    ensures
        word_count(a + w1 + b) == word_count(a + w2 + b),
        word_count(a + w1 + b) == word_count(a) + word_count(b),
{
    lemma_no_words_in_space(w1);
    lemma_no_words_in_space(w2);
    lemma_word_count_concat(a, w1);
    lemma_word_count_concat(a, w2);
    lemma_word_count_concat(a + w1, b);
    lemma_word_count_concat(a + w2, b);
    assert((a + w1).last() == w1.last());
    assert((a + w2).last() == w2.last());
    assert(is_space(w1[w1.len() - 1]));
    assert(is_space(w2[w2.len() - 1]));
}

} // verus!
