//! Lines of text for the screen, with the tones in which they are shown.
use crate::message::{Draft, Part, Piece};
use vstd::prelude::*;

verus! {

/// How a text is shown.
#[derive(Copy, Clone, Debug, PartialEq, Eq, Structural)]
pub enum Tone {
    /// As the terminal shows text.
    Plain,
    /// Bold.
    Strong,
    /// Cyan.
    Accent,
    /// Cyan, bold.
    Title,
    /// Yellow.
    Pointer,
    /// Yellow, bold.
    Heading,
    /// Green.
    Good,
    /// Green, bold.
    Default,
    /// Dark gray.
    Faint,
    /// Dark gray, dim.
    Dim,
    /// Red.
    Bad,
    /// Black on cyan.
    Chosen,
    /// Black on cyan, bold.
    Marked,
    /// Black on cyan, dim.
    MarkedDim,
}

/// A text in a tone.
#[derive(Debug)]
pub struct Span {
    pub tone: Tone,
    pub draft: Draft,
}

/// A text in a tone, mathematically.
pub struct Run {
    pub tone: Tone,
    pub parts: Seq<Part>,
}

impl View for Span {
    type V = Run;

    open spec fn view(&self) -> Run {
        Run { tone: self.tone, parts: self.draft@ }
    }
}

/// A line.
#[derive(Debug)]
pub struct Line {
    pub spans: Vec<Span>,
}

impl View for Line {
    type V = Seq<Run>;

    open spec fn view(&self) -> Seq<Run> {
        Seq::new(self.spans@.len(), |i: int| self.spans@[i]@)
    }
}

/// A text in a tone.
pub open spec fn run(tone: Tone, parts: Seq<Part>) -> Run {
    Run { tone, parts }
}

/// A line of one text.
pub open spec fn line(tone: Tone, parts: Seq<Part>) -> Seq<Run> {
    seq![run(tone, parts)]
}

/// A line without text.
pub open spec fn blank() -> Seq<Run> {
    line(Tone::Plain, Seq::empty())
}

impl Line {
    /// A line without texts.
    pub fn new() -> (r: Line)
        ensures
            r@ == Seq::<Run>::empty(),
    {
        let r = Line { spans: Vec::new() };
        assert(r@ =~= Seq::<Run>::empty());
        r
    }

    /// Puts a text at the end.
    pub fn put(&mut self, tone: Tone, draft: Draft)
        ensures
            final(self)@ == old(self)@.push(run(tone, draft@)),
    {
        let ghost before = self@;
        let span = Span { tone, draft };
        let ghost said = span@;
        self.spans.push(span);
        assert(self@ =~= before.push(said));
    }

    /// Puts a text of one piece at the end.
    pub fn piece(&mut self, tone: Tone, p: Piece)
        ensures
            final(self)@ == old(self)@.push(run(tone, seq![p@])),
    {
        self.put(tone, one(p));
    }
}

/// A text of one piece.
pub fn one(p: Piece) -> (r: Draft)
    ensures
        r@ == seq![p@],
{
    let ghost said = p@;
    let mut d = Draft::new();
    d.put(p);
    assert(d@ =~= seq![said]);
    d
}

/// Lines.
#[derive(Debug)]
pub struct Page {
    pub lines: Vec<Line>,
}

impl View for Page {
    type V = Seq<Seq<Run>>;

    open spec fn view(&self) -> Seq<Seq<Run>> {
        Seq::new(self.lines@.len(), |i: int| self.lines@[i]@)
    }
}

impl Page {
    /// No lines.
    pub fn new() -> (r: Page)
        ensures
            r@ == Seq::<Seq<Run>>::empty(),
    {
        let r = Page { lines: Vec::new() };
        assert(r@ =~= Seq::<Seq<Run>>::empty());
        r
    }

    /// Puts a line at the end.
    pub fn push(&mut self, l: Line)
        ensures
            final(self)@ == old(self)@.push(l@),
    {
        let ghost before = self@;
        let ghost said = l@;
        self.lines.push(l);
        assert(self@ =~= before.push(said));
    }

    /// Puts a line of one text at the end.
    pub fn put(&mut self, tone: Tone, draft: Draft)
        ensures
            final(self)@ == old(self)@.push(line(tone, draft@)),
    {
        let ghost said = draft@;
        let mut l = Line::new();
        l.put(tone, draft);
        assert(l@ =~= line(tone, said));
        self.push(l);
    }

    /// Puts a line of one piece at the end.
    pub fn piece(&mut self, tone: Tone, p: Piece)
        ensures
            final(self)@ == old(self)@.push(line(tone, seq![p@])),
    {
        self.put(tone, one(p));
    }

    /// Puts a line without text at the end.
    pub fn blank(&mut self)
        ensures
            final(self)@ == old(self)@.push(blank()),
    {
        self.put(Tone::Plain, Draft::new());
    }
}

} // verus!
