//! The text form of an environment map: one sample per line, the red, green
//! and blue samples of a texel on three lines in a row, after three lines of
//! header. This module finds the lines; what a line says is for the caller to
//! read.

use vstd::prelude::*;

verus! {

/// The byte that ends a line.
pub const LINE_FEED: u8 = 10;

/// The number of lines that come before the first sample.
pub const HEADER_LINES: usize = 3;

/// The bytes of a text from `start` up to, not including, `end`.
#[derive(Clone, Copy, Debug, PartialEq, Eq, Structural)]
pub struct Span {
    pub start: usize,
    pub end: usize,
}

/// The three lines that hold the samples of one texel.
#[derive(Clone, Copy, Debug, PartialEq, Eq, Structural)]
pub struct TexelLines {
    pub red: Span,
    pub green: Span,
    pub blue: Span,
}

/// The places of the line feeds in `text`, in rising order. Each ends one
/// line; what follows the last line feed is no line.
pub open spec fn line_ends(text: Seq<u8>) -> Seq<int>
    decreases text.len(),
{
    if text.len() == 0 {
        seq![]
    } else if text.last() == LINE_FEED {
        line_ends(text.drop_last()).push(text.len() - 1)
    } else {
        line_ends(text.drop_last())
    }
}

/// Where line `line` of `text` begins: at the start of the text, or right
/// after the line feed of the line before.
pub open spec fn line_start(text: Seq<u8>, line: int) -> int {
    if line == 0 {
        0
    } else {
        line_ends(text)[line - 1] + 1
    }
}

/// The span of line `line` of `text`, without its line feed.
pub open spec fn line_span(text: Seq<u8>, line: int) -> Span {
    Span { start: line_start(text, line) as usize, end: line_ends(text)[line] as usize }
}

/// The number of whole texels in a text of `lines` lines: the header is set
/// aside, and a texel takes three lines.
pub open spec fn texel_count(lines: nat) -> nat {
    if lines < HEADER_LINES {
        0
    } else {
        ((lines - HEADER_LINES) / 3) as nat
    }
}

/// The lines of texel `texel` of `text`.
pub open spec fn texel_at(text: Seq<u8>, texel: int) -> TexelLines {
    TexelLines {
        red: line_span(text, HEADER_LINES + 3 * texel),
        green: line_span(text, HEADER_LINES + 3 * texel + 1),
        blue: line_span(text, HEADER_LINES + 3 * texel + 2),
    }
}

/// `line_ends` lists exactly the line feeds of the text, each once and in
/// rising order.
pub proof fn lemma_line_ends(text: Seq<u8>)
    ensures
        line_ends(text).len() <= text.len(),
        forall|j: int|
            0 <= j < line_ends(text).len() ==> 0 <= #[trigger] line_ends(text)[j] < text.len()
                && text[line_ends(text)[j]] == LINE_FEED,
        forall|j: int, k: int|
            0 <= j < k < line_ends(text).len() ==> #[trigger] line_ends(text)[j]
                < #[trigger] line_ends(text)[k],
        forall|p: int|
            0 <= p < text.len() && #[trigger] text[p] == LINE_FEED ==> line_ends(text).contains(p),
    decreases text.len(),
{
    if text.len() > 0 {
        let front = text.drop_last();
        lemma_line_ends(front);
        let ends = line_ends(text);
        let before = line_ends(front);
        if text.last() == LINE_FEED {
            assert(ends == before.push(text.len() - 1));
            assert forall|p: int|
                0 <= p < text.len() && #[trigger] text[p] == LINE_FEED implies ends.contains(
                p,
            ) by {
                if p < text.len() - 1 {
                    assert(front[p] == text[p]);
                    let j = choose|j: int| 0 <= j < before.len() && before[j] == p;
                    assert(ends[j] == p);
                } else {
                    assert(ends[before.len() as int] == p);
                }
            }
        } else {
            assert forall|p: int|
                0 <= p < text.len() && #[trigger] text[p] == LINE_FEED implies ends.contains(
                p,
            ) by {
                assert(front[p] == text[p]);
            }
        }
    }
}

/// Whether `span` is a whole line of `text`: it begins at the start of the
/// text or right after a line feed, it holds no line feed, and a line feed
/// follows it.
pub open spec fn is_line(text: Seq<u8>, span: Span) -> bool {
    &&& span.start <= span.end < text.len()
    &&& text[span.end as int] == LINE_FEED
    &&& span.start == 0 || text[span.start - 1] == LINE_FEED
    &&& forall|p: int| span.start <= p < span.end ==> text[p] != LINE_FEED
}

/// Every span that `line_span` gives is a whole line of the text.
pub proof fn lemma_line_span_is_line(text: Seq<u8>, line: int)
    requires
        0 <= line < line_ends(text).len(),
        text.len() <= usize::MAX,
    ensures
        is_line(text, line_span(text, line)),
{
    lemma_line_ends(text);
    let ends = line_ends(text);
    let span = line_span(text, line);
    assert(0 <= ends[line] < text.len());
    if line > 0 {
        assert(0 <= ends[line - 1] < ends[line]);
        assert(text[ends[line - 1]] == LINE_FEED);
    }
    assert forall|p: int| span.start <= p < span.end implies text[p] != LINE_FEED by {
        if text[p] == LINE_FEED {
            assert(ends.contains(p));
            let j = choose|j: int| 0 <= j < ends.len() && ends[j] == p;
            if j < line {
                if j < line - 1 {
                    assert(ends[j] < ends[line - 1]);
                }
            } else if j > line {
                assert(ends[line] < ends[j]);
            }
        }
    }
}

/// Finds the line feeds of `text`.
fn find_line_ends(text: &[u8]) -> (ends: Vec<usize>)
    ensures
        ends@.len() == line_ends(text@).len(),
        forall|j: int| 0 <= j < ends@.len() ==> #[trigger] ends@[j] as int == line_ends(text@)[j],
{
    let mut ends: Vec<usize> = Vec::new();
    let mut i: usize = 0;
    assert(text@.take(0) =~= Seq::<u8>::empty());
    while i < text.len()
        invariant
            0 <= i <= text@.len(),
            ends@.len() == line_ends(text@.take(i as int)).len(),
            forall|j: int|
                0 <= j < ends@.len() ==> #[trigger] ends@[j] as int == line_ends(
                    text@.take(i as int),
                )[j],
        decreases text@.len() - i,
    {
        assert(text@.take(i + 1).drop_last() =~= text@.take(i as int));
        assert(text@.take(i + 1).last() == text@[i as int]);
        if text[i] == LINE_FEED {
            ends.push(i);
        }
        i += 1;
    }
    assert(text@.take(i as int) =~= text@);
    ends
}

/// The lines of every whole texel of `text`, in the order of the text. The
/// three lines of the header are passed over, and so are the lines after the
/// last whole texel and whatever follows the last line feed. Every span lies
/// within the text.
pub fn texel_lines(text: &[u8]) -> (texels: Vec<TexelLines>)
    ensures
        texels@.len() == texel_count(line_ends(text@).len()),
        forall|k: int| 0 <= k < texels@.len() ==> #[trigger] texels@[k] == texel_at(text@, k),
        forall|k: int|
            0 <= k < texels@.len() ==> {
                let t = #[trigger] texels@[k];
                &&& t.red.start <= t.red.end < t.green.start
                &&& t.green.start <= t.green.end < t.blue.start
                &&& t.blue.start <= t.blue.end < text@.len()
            },
{
    let ends: Vec<usize> = find_line_ends(text);
    let mut texels: Vec<TexelLines> = Vec::new();
    proof {
        lemma_line_ends(text@);
    }
    if ends.len() < HEADER_LINES {
        return texels;
    }
    let count: usize = (ends.len() - HEADER_LINES) / 3;
    let mut k: usize = 0;
    assert(3 * count + 3 <= ends@.len());
    while k < count
        invariant
            0 <= k <= count,
            count == texel_count(line_ends(text@).len()),
            3 * count + 3 <= ends@.len() <= usize::MAX,
            ends@.len() >= HEADER_LINES,
            ends@.len() == line_ends(text@).len(),
            ends@.len() <= text@.len(),
            forall|j: int|
                0 <= j < ends@.len() ==> #[trigger] ends@[j] as int == line_ends(text@)[j],
            forall|j: int|
                0 <= j < line_ends(text@).len() ==> 0 <= #[trigger] line_ends(text@)[j]
                    < text@.len(),
            forall|i: int, j: int|
                0 <= i < j < line_ends(text@).len() ==> #[trigger] line_ends(text@)[i]
                    < #[trigger] line_ends(text@)[j],
            texels@.len() == k,
            forall|i: int| 0 <= i < k ==> #[trigger] texels@[i] == texel_at(text@, i),
            forall|i: int|
                0 <= i < k ==> {
                    let t = #[trigger] texels@[i];
                    &&& t.red.start <= t.red.end < t.green.start
                    &&& t.green.start <= t.green.end < t.blue.start
                    &&& t.blue.start <= t.blue.end < text@.len()
                },
        decreases count - k,
    {
        let first: usize = HEADER_LINES + 3 * k;
        proof {
            let e = line_ends(text@);
            assert(ends@[first - 1] as int == e[first - 1]);
            assert(ends@[first as int] as int == e[first as int]);
            assert(ends@[first + 1] as int == e[first + 1]);
            assert(ends@[first + 2] as int == e[first + 2]);
            assert(e[first + 2] < text@.len());
            assert(e[first - 1] < e[first as int]);
            assert(e[first as int] < e[first + 1]);
            assert(e[first + 1] < e[first + 2]);
        }
        let t = TexelLines {
            red: Span { start: ends[first - 1] + 1, end: ends[first] },
            green: Span { start: ends[first] + 1, end: ends[first + 1] },
            blue: Span { start: ends[first + 1] + 1, end: ends[first + 2] },
        };
        assert(t == texel_at(text@, k as int));
        texels.push(t);
        k += 1;
    }
    texels
}

} // verus!
