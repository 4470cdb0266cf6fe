//! The line converter: a streaming state machine from markdown lines to
//! closed HTML fragments.
use vstd::prelude::*;
use vstd::string::*;
use crate::markup::{HEADING_MARKER, p_open, p_close, h1_open, h1_close, empty_paragraph};

verus! {

/// Whether a line opens a heading: its first character is the marker.
/// An empty line has no first character and is no heading.
pub open spec fn is_heading_line(line: Seq<char>) -> bool {
    line.len() > 0 && line[0] == HEADING_MARKER
}

/// The markup that one line makes from the tag state it starts in, before
/// empty paragraphs are dropped. Every tag is closed at the end of the line.
pub open spec fn line_markup(state: ConverterState, line: Seq<char>) -> Seq<char> {
    if is_heading_line(line) {
        (if state.paragraph_open { p_close() } else { Seq::empty() })
            + (if state.heading_open { h1_close() } else { Seq::empty() })
            + h1_open() + line.drop_first() + h1_close()
    } else {
        (if state.paragraph_open { Seq::empty() } else { p_open() })
            + line + p_close()
            + (if state.heading_open { h1_close() } else { Seq::empty() })
    }
}

/// The markup of a line as emitted: nothing for an empty paragraph.
pub open spec fn emitted(markup: Seq<char>) -> Option<Seq<char>> {
    if markup == empty_paragraph() { None } else { Some(markup) }
}

/// The fragment that a line makes from a state with no open tag: nothing for
/// an empty line, a heading of the rest of the line for a heading line, and a
/// paragraph of the whole line otherwise.
pub open spec fn fragment_of(line: Seq<char>) -> Option<Seq<char>> {
    if line.len() == 0 {
        None
    } else {
        Some(block_of(line))
    }
}

/// The closed block that a non-empty line becomes: a heading of what follows
/// the marker, or a paragraph of the whole line.
pub open spec fn block_of(line: Seq<char>) -> Seq<char> {
    if is_heading_line(line) {
        h1_open() + line.drop_first() + h1_close()
    } else {
        p_open() + line + p_close()
    }
}

/// What an optional string holds, as characters.
pub open spec fn opt_view(o: Option<String>) -> Option<Seq<char>> {
    match o {
        Some(s) => Some(s@),
        None => None,
    }
}

/// The fragments that a run over `lines` emits, in the order of the lines.
pub open spec fn converted(lines: Seq<Seq<char>>) -> Seq<Seq<char>>
    decreases lines.len(),
{
    if lines.len() == 0 {
        Seq::empty()
    } else {
        converted(lines.drop_last()) + fragments_of(lines.last())
    }
}

/// The fragment of one line as a sequence of zero or one fragment.
pub open spec fn fragments_of(line: Seq<char>) -> Seq<Seq<char>> {
    match fragment_of(line) {
        Some(f) => seq![f],
        None => Seq::empty(),
    }
}

/// The tags that are open while a line is converted.
pub struct ConverterState {
    pub paragraph_open: bool,
    pub heading_open: bool,
}

impl ConverterState {
    /// No tag is open: the state between two lines.
    pub open spec fn is_idle(&self) -> bool {
        !self.paragraph_open && !self.heading_open
    }

    /// The state at the start of a conversion.
    pub fn new() -> (s: Self)
        ensures
            s.is_idle(),
    {
        ConverterState { paragraph_open: false, heading_open: false }
    }

    /// Converts one line: closes what the state has open where the line
    /// needs it, opens the line's block, appends its content and closes it.
    /// Returns the fragment, or `None` where it is an empty paragraph.
    pub fn process_line(&mut self, line: &str) -> (r: Option<String>)
        ensures
            final(self).is_idle(),
            opt_view(r) == emitted(line_markup(*old(self), line@)),
    {
        let ghost start = *self;
        let mut out = String::new();
        if !line.is_empty() && line.get_char(0) == HEADING_MARKER {
            if self.paragraph_open {
                self.paragraph_open = false;
                push_p_close(&mut out);
            }
            if self.heading_open {
                self.heading_open = false;
                push_h1_close(&mut out);
            }
            self.heading_open = true;
            push_h1_open(&mut out);
            let content = line.substring_char(1, line.unicode_len());
            out.append(content);
        } else {
            if !self.paragraph_open {
                self.paragraph_open = true;
                push_p_open(&mut out);
            }
            out.append(line);
        }
        if self.paragraph_open {
            self.paragraph_open = false;
            push_p_close(&mut out);
        }
        if self.heading_open {
            self.heading_open = false;
            push_h1_close(&mut out);
        }
        assert(out@ =~= line_markup(start, line@));
        let empty = empty_paragraph_text();
        if out == empty {
            None
        } else {
            Some(out)
        }
    }
}

/// Converts a whole document, given as its lines, into HTML fragments: one
/// per line, in the order of the lines, with the empty lines left out.
pub fn convert(lines: &Vec<String>) -> (r: Vec<String>)
    ensures
        r.deep_view() == converted(lines.deep_view()),
{
    let mut state = ConverterState::new();
    let mut tokens: Vec<String> = Vec::new();
    let mut i: usize = 0;
    while i < lines.len()
        invariant
            i <= lines.len(),
            state.is_idle(),
            tokens.deep_view() == converted(lines.deep_view().take(i as int)),
        decreases lines.len() - i,
    {
        let fragment = state.process_line(lines[i].as_str());
        proof {
            lemma_idle_markup(lines.deep_view()[i as int]);
            assert(lines.deep_view().take(i + 1).drop_last() =~= lines.deep_view().take(i as int));
        }
        match fragment {
            Some(f) => {
                tokens.push(f);
            },
            None => {},
        }
        assert(tokens.deep_view() =~= converted(lines.deep_view().take(i + 1)));
        i = i + 1;
    }
    assert(lines.deep_view().take(i as int) =~= lines.deep_view());
    tokens
}

/// From a state with no open tag, a line emits exactly its fragment.
pub proof fn lemma_idle_markup(line: Seq<char>)
    ensures
        emitted(line_markup(ConverterState { paragraph_open: false, heading_open: false }, line))
            == fragment_of(line),
{
    let idle = ConverterState { paragraph_open: false, heading_open: false };
    let m = line_markup(idle, line);
    if is_heading_line(line) {
        assert(m =~= h1_open() + line.drop_first() + h1_close());
        assert(m.len() != empty_paragraph().len() || m[1] != empty_paragraph()[1]);
    } else {
        assert(m =~= p_open() + line + p_close());
        if line.len() == 0 {
            assert(m =~= empty_paragraph());
        } else {
            assert(m.len() != empty_paragraph().len());
        }
    }
}

/// Converting two documents one after the other gives the fragments of the
/// first followed by those of the second: no line's output depends on the
/// lines around it.
pub proof fn lemma_converted_append(a: Seq<Seq<char>>, b: Seq<Seq<char>>)
    ensures
        converted(a + b) == converted(a) + converted(b),
    decreases b.len(),
{
    if b.len() == 0 {
        assert(a + b =~= a);
        assert(converted(a) + converted(b) =~= converted(a));
    } else {
        assert((a + b).drop_last() =~= a + b.drop_last());
        lemma_converted_append(a, b.drop_last());
        assert(converted(a + b) =~= converted(a) + converted(b));
    }
}

/// The fragments come in the order of the lines, one for each non-empty line;
/// empty lines contribute none.
pub proof fn lemma_converted_in_order(lines: Seq<Seq<char>>)
    ensures
        converted(lines) == lines.filter(|l: Seq<char>| l.len() > 0).map_values(
            |l: Seq<char>| block_of(l),
        ),
    decreases lines.len(),
{
    let nonempty = |l: Seq<char>| l.len() > 0;
    let block = |l: Seq<char>| block_of(l);
    if lines.len() == 0 {
        reveal(Seq::filter);
        assert(lines.filter(nonempty) =~= Seq::empty());
        assert(converted(lines) =~= lines.filter(nonempty).map_values(block));
    } else {
        let x = lines.last();
        let f0 = lines.drop_last().filter(nonempty);
        lemma_converted_in_order(lines.drop_last());
        assert(lines =~= lines.drop_last().push(x));
        lines.drop_last().lemma_filter_push(x, nonempty);
        if x.len() > 0 {
            assert(lines.filter(nonempty) == f0.push(x));
            assert(f0.push(x).map_values(block) =~= f0.map_values(block).push(block(x)));
        } else {
            assert(lines.filter(nonempty) == f0);
        }
        assert(converted(lines) =~= lines.filter(nonempty).map_values(block));
    }
}

/// The lines of a document, with one line placed between two parts.
pub open spec fn with_line(before: Seq<Seq<char>>, line: Seq<char>, after: Seq<Seq<char>>) -> Seq<
    Seq<char>,
> {
    before + seq![line] + after
}

/// What one line contributes, wherever it stands, is its own fragments.
proof fn lemma_with_line(before: Seq<Seq<char>>, line: Seq<char>, after: Seq<Seq<char>>)
    ensures
        converted(with_line(before, line, after)) == converted(before) + fragments_of(line)
            + converted(after),
{
    lemma_converted_append(before + seq![line], after);
    lemma_converted_append(before, seq![line]);
    assert(seq![line].drop_last() =~= Seq::<Seq<char>>::empty());
    assert(converted(Seq::<Seq<char>>::empty()) =~= Seq::empty());
    assert(converted(seq![line]) == converted(seq![line].drop_last()) + fragments_of(line));
    assert(converted(seq![line]) =~= fragments_of(line));
}

/// An empty line produces no fragment.
pub proof fn lemma_empty_line_dropped(before: Seq<Seq<char>>, after: Seq<Seq<char>>)
    ensures
        converted(with_line(before, Seq::empty(), after)) == converted(before) + converted(after),
{
    lemma_with_line(before, Seq::empty(), after);
    assert(converted(before) + fragments_of(Seq::empty()) =~= converted(before));
}

/// A line made of the marker and a content produces exactly one fragment: a
/// heading of that content.
pub proof fn lemma_heading_line(
    before: Seq<Seq<char>>,
    content: Seq<char>,
    after: Seq<Seq<char>>,
)
    ensures
        converted(with_line(before, seq![HEADING_MARKER] + content, after)) == converted(before)
            + seq![h1_open() + content + h1_close()] + converted(after),
{
    let line = seq![HEADING_MARKER] + content;
    lemma_with_line(before, line, after);
    assert(line.drop_first() =~= content);
}

/// A non-empty line that does not start with the marker produces exactly one
/// fragment: a paragraph of the whole line.
pub proof fn lemma_paragraph_line(before: Seq<Seq<char>>, line: Seq<char>, after: Seq<Seq<char>>)
    requires
        line.len() > 0,
        line[0] != HEADING_MARKER,
    ensures
        converted(with_line(before, line, after)) == converted(before) + seq![
            p_open() + line + p_close(),
        ] + converted(after),
{
    lemma_with_line(before, line, after);
}

/// The fragments of the line at index `i` are those of the line alone: its
/// classification depends on its own characters, not on its neighbours.
pub proof fn lemma_line_independent(lines: Seq<Seq<char>>, i: int)
    requires
        0 <= i < lines.len(),
    ensures
        converted(lines) == converted(lines.take(i)) + fragments_of(lines[i]) + converted(
            lines.skip(i + 1),
        ),
{
    assert(lines =~= with_line(lines.take(i), lines[i], lines.skip(i + 1)));
    lemma_with_line(lines.take(i), lines[i], lines.skip(i + 1));
}

/// Reordering the lines of a document reorders its fragments and changes none
/// of them: the two outputs hold the same fragments, as many times each.
pub proof fn lemma_reorder_lines(a: Seq<Seq<char>>, b: Seq<Seq<char>>)
    requires
        a.to_multiset() == b.to_multiset(),
    ensures
        converted(a).to_multiset() == converted(b).to_multiset(),
    decreases a.len(),
{
    broadcast use vstd::seq_lib::to_multiset_len, vstd::seq_lib::to_multiset_contains;

    if a.len() == 0 {
        assert(a.to_multiset().len() == 0);
        assert(b.len() == 0);
        assert(converted(b) =~= converted(a));
    } else {
        let x = a.last();
        let a0 = a.drop_last();
        assert(a =~= a0.push(x));
        vstd::seq_lib::to_multiset_build(a0, x);
        assert(a.to_multiset().count(x) > 0);
        assert(b.contains(x));
        let j = choose|j: int| 0 <= j < b.len() && b[j] == x;
        let b0 = b.remove(j);
        vstd::seq_lib::to_multiset_remove(b, j);
        assert(a0.to_multiset() =~= b0.to_multiset());
        lemma_reorder_lines(a0, b0);
        lemma_line_independent(b, j);
        assert(b0 =~= b.take(j) + b.skip(j + 1));
        lemma_converted_append(b.take(j), b.skip(j + 1));
        let ct = converted(b.take(j));
        let cs = converted(b.skip(j + 1));
        let fx = fragments_of(x);
        vstd::seq_lib::lemma_multiset_commutative(ct + fx, cs);
        vstd::seq_lib::lemma_multiset_commutative(ct, fx);
        vstd::seq_lib::lemma_multiset_commutative(ct, cs);
        vstd::seq_lib::lemma_multiset_commutative(converted(a0), fx);
        assert(converted(a).to_multiset() =~= converted(b).to_multiset());
    }
}

fn push_p_open(s: &mut String)
    ensures
        final(s)@ == old(s)@ + p_open(),
{
    proof {
        reveal_strlit("<p>");
    }
    assert("<p>"@ =~= p_open());
    s.append("<p>");
}

fn push_p_close(s: &mut String)
    ensures
        final(s)@ == old(s)@ + p_close(),
{
    proof {
        reveal_strlit("</p>\n");
    }
    assert("</p>\n"@ =~= p_close());
    s.append("</p>\n");
}

fn push_h1_open(s: &mut String)
    ensures
        final(s)@ == old(s)@ + h1_open(),
{
    proof {
        reveal_strlit("<h1>");
    }
    assert("<h1>"@ =~= h1_open());
    s.append("<h1>");
}

fn push_h1_close(s: &mut String)
    ensures
        final(s)@ == old(s)@ + h1_close(),
{
    proof {
        reveal_strlit("</h1>\n");
    }
    assert("</h1>\n"@ =~= h1_close());
    s.append("</h1>\n");
}

fn empty_paragraph_text() -> (r: String)
    ensures
        r@ == empty_paragraph(),
{
    proof {
        reveal_strlit("<p></p>\n");
    }
    assert("<p></p>\n"@ =~= empty_paragraph());
    "<p></p>\n".to_owned()
}

} // verus!
