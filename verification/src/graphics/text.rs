use vstd::prelude::*;

verus! {

/// A plain box element of a document.
pub struct Div {}

impl Div {
    pub fn new() -> (r: Self)
        ensures
            r == (Div {}),
    {
        Self {}
    }
}

/// A glyph of a text and where it goes: its column and its line.
#[derive(Clone, Copy, PartialEq, Eq, Debug)]
pub struct GlyphPlacement {
    pub glyph: char,
    pub column: usize,
    pub line: usize,
}

/// Lays out a text from its start: the glyphs placed so far, each with its
/// column and line, and the column and line of the next character. A space
/// moves one column on, a newline starts the next line at column zero, and
/// any other character is placed and moves one column on.
pub open spec fn layout(text: Seq<char>) -> (Seq<(char, int, int)>, int, int)
    decreases text.len(),
{
    if text.len() == 0 {
        (Seq::empty(), 0, 0)
    } else {
        let (placed, column, line) = layout(text.drop_last());
        let c = text.last();
        if c == ' ' {
            (placed, column + 1, line)
        } else if c == '\n' {
            (placed, 0, line + 1)
        } else {
            (placed.push((c, column, line)), column + 1, line)
        }
    }
}

proof fn lemma_layout_bounds(text: Seq<char>)
    ensures
        0 <= layout(text).1 <= text.len(),
        0 <= layout(text).2 <= text.len(),
        layout(text).0.len() <= text.len(),
    decreases text.len(),
{
    if text.len() > 0 {
        lemma_layout_bounds(text.drop_last());
    }
}

/// Spaces and newlines are never placed as glyphs.
proof fn lemma_layout_skips_blanks(text: Seq<char>)
    ensures
        forall|k: int|
            0 <= k < layout(text).0.len() ==> (#[trigger] layout(text).0[k]).0 != ' '
                && layout(text).0[k].0 != '\n',
    decreases text.len(),
{
    if text.len() > 0 {
        let prev = layout(text.drop_last()).0;
        lemma_layout_skips_blanks(text.drop_last());
        let c = text.last();
        if c != ' ' && c != '\n' {
            let p = layout(text.drop_last());
            assert(layout(text).0 == prev.push((c, p.1, p.2)));
            assert forall|k: int| 0 <= k < layout(text).0.len() implies (#[trigger] layout(
                text,
            ).0[k]).0 != ' ' && layout(text).0[k].0 != '\n' by {
                if k < prev.len() {
                    assert(layout(text).0[k] == prev[k]);
                }
            }
        } else {
            assert(layout(text).0 == prev);
        }
    }
}

/// The number of characters of `s` that are placed as glyphs: those that are
/// neither a space nor a newline.
pub open spec fn glyph_count(s: Seq<char>) -> nat {
    s.filter(|c: char| c != ' ' && c != '\n').len()
}

/// The number of newlines in `s`.
pub open spec fn newline_count(s: Seq<char>) -> nat {
    s.filter(|c: char| c == '\n').len()
}

/// `s` is where the line holding position `p` of `text` starts: the start of
/// the text or just after a newline, with no newline from there up to `p`.
pub open spec fn line_start(text: Seq<char>, s: int, p: int) -> bool {
    &&& 0 <= s <= p <= text.len()
    &&& (s == 0 || text[s - 1] == '\n')
    &&& forall|q: int| s <= q < p ==> text[q] != '\n'
}

proof fn lemma_layout_counts(text: Seq<char>)
    ensures
        layout(text).0.len() == glyph_count(text),
        layout(text).2 == newline_count(text),
    decreases text.len(),
{
    broadcast use Seq::lemma_filter_push;
    if text.len() > 0 {
        lemma_layout_counts(text.drop_last());
        assert(text =~= text.drop_last().push(text.last()));
    } else {
        reveal(Seq::filter);
    }
}

proof fn lemma_layout_column(text: Seq<char>, s: int)
    requires
        line_start(text, s, text.len() as int),
    ensures
        layout(text).1 == text.len() - s,
    decreases text.len(),
{
    if text.len() > 0 && s < text.len() {
        let prefix = text.drop_last();
        assert(text[text.len() - 1] != '\n');
        assert(line_start(prefix, s, prefix.len() as int)) by {
            assert forall|q: int| s <= q < prefix.len() implies prefix[q] != '\n' by {
                assert(prefix[q] == text[q]);
            }
            if s > 0 {
                assert(prefix[s - 1] == text[s - 1]);
            }
        }
        lemma_layout_column(prefix, s);
    }
}

/// Where each glyph of a text goes. The glyphs placed are the characters
/// that are neither a space nor a newline, in the order of the text. The
/// glyph of the character at position `p` is the one after all the glyphs of
/// the characters before it; its column is the number of characters, spaces
/// included, from the start of its line (the start of the text, or just
/// after the last newline before it) up to it; its line is the number of
/// newlines before it. After the whole text, the line is the number of
/// newlines, and the column the number of characters since the last one.
pub proof fn lemma_layout_places_glyphs(text: Seq<char>, p: int, s: int)
    requires
        line_start(text, s, p),
    ensures
        layout(text).0.len() == glyph_count(text),
        layout(text).2 == newline_count(text),
        p == text.len() ==> layout(text).1 == p - s,
        p < text.len() && text[p] != ' ' && text[p] != '\n' ==> {
            &&& glyph_count(text.take(p)) < layout(text).0.len()
            &&& layout(text).0[glyph_count(text.take(p)) as int] == (
                text[p],
                p - s,
                newline_count(text.take(p)) as int,
            )
        },
    decreases text.len(),
{
    lemma_layout_counts(text);
    if p == text.len() {
        lemma_layout_column(text, s);
    } else if text[p] != ' ' && text[p] != '\n' {
        let prefix = text.drop_last();
        if p == text.len() - 1 {
            assert(text.take(p) =~= prefix);
            lemma_layout_counts(prefix);
            lemma_layout_column(prefix, s);
        } else {
            assert(line_start(prefix, s, p)) by {
                assert forall|q: int| s <= q < p implies prefix[q] != '\n' by {
                    assert(prefix[q] == text[q]);
                }
                if s > 0 {
                    assert(prefix[s - 1] == text[s - 1]);
                }
            }
            assert(prefix.take(p) =~= text.take(p));
            assert(prefix[p] == text[p]);
            lemma_layout_places_glyphs(prefix, p, s);
            lemma_layout_counts(prefix);
        }
    }
}

/// Places the glyphs of a text on a grid of columns and lines.
pub fn layout_glyphs(text: &Vec<char>) -> (r: Vec<GlyphPlacement>)
    ensures
        r.len() == layout(text@).0.len(),
        forall|k: int|
            0 <= k < r.len() ==> (#[trigger] r[k]).glyph == layout(text@).0[k].0 && r[k].column
                == layout(text@).0[k].1 && r[k].line == layout(text@).0[k].2,
        forall|k: int| 0 <= k < r.len() ==> (#[trigger] r[k]).glyph != ' ' && r[k].glyph != '\n',
{
    let mut v: Vec<GlyphPlacement> = Vec::new();
    let mut i: usize = 0;
    let mut j: usize = 0;
    let mut k: usize = 0;
    while k < text.len()
        invariant
            k <= text.len(),
            layout(text@.subrange(0, k as int)).1 == i,
            layout(text@.subrange(0, k as int)).2 == j,
            v.len() == layout(text@.subrange(0, k as int)).0.len(),
            forall|m: int|
                0 <= m < v.len() ==> (#[trigger] v[m]).glyph == layout(
                    text@.subrange(0, k as int),
                ).0[m].0 && v[m].column == layout(text@.subrange(0, k as int)).0[m].1
                    && v[m].line == layout(text@.subrange(0, k as int)).0[m].2,
        decreases text.len() - k,
    {
        let ghost prefix = text@.subrange(0, k as int);
        let ghost next = text@.subrange(0, k + 1);
        proof {
            assert(next.drop_last() =~= prefix);
            assert(next.last() == text@[k as int]);
            lemma_layout_bounds(prefix);
        }
        let ghost before = v@;
        let ch = text[k];
        if ch == ' ' {
            i = i + 1;
            assert(layout(next).0 == layout(prefix).0);
        } else if ch == '\n' {
            j = j + 1;
            i = 0;
            assert(layout(next).0 == layout(prefix).0);
        } else {
            let g = GlyphPlacement { glyph: ch, column: i, line: j };
            v.push(g);
            i = i + 1;
            proof {
                let p = layout(prefix).0;
                assert(layout(next).0 == p.push((ch, layout(prefix).1, layout(prefix).2)));
                assert(v@ == before.push(g));
                vstd::seq::axiom_seq_push_len(before, g);
                let q = layout(next).0;
                assert forall|m: int| 0 <= m < v.len() implies (#[trigger] v[m]).glyph == q[m].0
                    && v[m].column == q[m].1 && v[m].line == q[m].2 by {
                    if m < before.len() {
                        vstd::seq::axiom_seq_push_index_different(before, g, m);
                        assert(v@[m] == before[m]);
                        assert(q[m] == p[m]);
                    } else {
                        vstd::seq::axiom_seq_push_index_same(before, g, m);
                        assert(v@[m] == g);
                    }
                }
            }
        }
        k = k + 1;
    }
    assert(text@.subrange(0, text.len() as int) =~= text@);
    proof {
        lemma_layout_skips_blanks(text@);
    }
    v
}

/// The cell of a font sheet, `columns` cells wide, that holds the glyph of
/// `c`: the sheet starts at 'A', the character after '@'.
pub fn glyph_cell(c: char, columns: u32) -> (r: (u32, u32))
    requires
        c as u32 >= 65,
        columns > 0,
    ensures
        r.0 == (c as u32 - 65) % (columns as int),
        r.1 == (c as u32 - 65) / (columns as int),
{
    let i: u32 = c as u32;
    let x = (i - 64 - 1) % columns;
    let y = (i - 64 - 1) / columns;
    (x, y)
}

} // verus!
