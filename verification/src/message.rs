//! Texts for the screen: given words, and messages that are looked up by a key
//! in the language of the user.
use vstd::prelude::*;

verus! {

/// What is put into a message: a text as it is, or a message without any words
/// of its own, by its key.
#[derive(Debug)]
pub enum Word {
    Text(String),
    Key(&'static str),
}

/// A message by its key, with the words that are put into it, by their names.
#[derive(Debug)]
pub struct Message {
    pub key: &'static str,
    pub args: Vec<(&'static str, Word)>,
}

/// A part of a text for the screen.
#[derive(Debug)]
pub enum Piece {
    Text(String),
    Message(Message),
    /// A text with a message behind it.
    Headed(String, Message),
}

/// What is put into a message, mathematically.
pub enum Said {
    Text(Seq<char>),
    Key(Seq<char>),
}

/// A message, mathematically.
pub struct Note {
    pub key: Seq<char>,
    pub args: Seq<(Seq<char>, Said)>,
}

/// A part of a text for the screen, mathematically.
pub enum Part {
    Text(Seq<char>),
    Note(Note),
    Headed(Seq<char>, Note),
}

impl View for Word {
    type V = Said;

    open spec fn view(&self) -> Said {
        match self {
            Word::Text(s) => Said::Text(s@),
            Word::Key(k) => Said::Key(k@),
        }
    }
}

impl View for Message {
    type V = Note;

    open spec fn view(&self) -> Note {
        Note {
            key: self.key@,
            args: Seq::new(self.args@.len(), |i: int| (self.args@[i].0@, self.args@[i].1@)),
        }
    }
}

impl View for Piece {
    type V = Part;

    open spec fn view(&self) -> Part {
        match self {
            Piece::Text(s) => Part::Text(s@),
            Piece::Message(m) => Part::Note(m@),
            Piece::Headed(s, m) => Part::Headed(s@, m@),
        }
    }
}

impl Word {
    /// The same again.
    pub fn copy(&self) -> (r: Word)
        ensures
            r@ == self@,
    {
        match self {
            Word::Text(s) => Word::Text(s.clone()),
            Word::Key(k) => Word::Key(*k),
        }
    }
}

impl Message {
    /// The same again.
    pub fn copy(&self) -> (r: Message)
        ensures
            r@ == self@,
    {
        let mut args: Vec<(&'static str, Word)> = Vec::new();
        for i in 0..self.args.len()
            invariant
                args@.len() == i,
                forall|j: int|
                    0 <= j < i ==> (#[trigger] args@[j]).0@ == self.args@[j].0@ && args@[j].1@
                        == self.args@[j].1@,
        {
            args.push((self.args[i].0, self.args[i].1.copy()));
        }
        let r = Message { key: self.key, args };
        assert(r@.args =~= self@.args);
        r
    }
}

impl Piece {
    /// The same again.
    pub fn copy(&self) -> (r: Piece)
        ensures
            r@ == self@,
    {
        match self {
            Piece::Text(s) => Piece::Text(s.clone()),
            Piece::Message(m) => Piece::Message(m.copy()),
            Piece::Headed(s, m) => Piece::Headed(s.clone(), m.copy()),
        }
    }
}

/// Parts of a text for the screen.
pub open spec fn parts(v: Seq<Piece>) -> Seq<Part> {
    Seq::new(v.len(), |i: int| v[i]@)
}

/// A text as a part.
pub open spec fn text(s: Seq<char>) -> Part {
    Part::Text(s)
}

/// A message without words of its own.
pub open spec fn note(key: Seq<char>) -> Part {
    Part::Note(Note { key, args: Seq::empty() })
}

/// A text with a message without words of its own behind it.
pub open spec fn headed(head: Seq<char>, key: Seq<char>) -> Part {
    Part::Headed(head, Note { key, args: Seq::empty() })
}

/// A message with one text in it.
pub open spec fn note1(key: Seq<char>, name: Seq<char>, value: Seq<char>) -> Part {
    Part::Note(Note { key, args: seq![(name, Said::Text(value))] })
}

/// A message with another message in it.
pub open spec fn note_in(key: Seq<char>, name: Seq<char>, inner: Seq<char>) -> Part {
    Part::Note(Note { key, args: seq![(name, Said::Key(inner))] })
}

/// A message with two texts in it.
pub open spec fn note2(
    key: Seq<char>,
    name1: Seq<char>,
    value1: Seq<char>,
    name2: Seq<char>,
    value2: Seq<char>,
) -> Part {
    Part::Note(
        Note { key, args: seq![(name1, Said::Text(value1)), (name2, Said::Text(value2))] },
    )
}

/// A message with three texts in it.
pub open spec fn note3(
    key: Seq<char>,
    name1: Seq<char>,
    value1: Seq<char>,
    name2: Seq<char>,
    value2: Seq<char>,
    name3: Seq<char>,
    value3: Seq<char>,
) -> Part {
    Part::Note(
        Note {
            key,
            args: seq![
                (name1, Said::Text(value1)),
                (name2, Said::Text(value2)),
                (name3, Said::Text(value3)),
            ],
        },
    )
}

/// A message with four texts in it.
pub open spec fn note4(
    key: Seq<char>,
    name1: Seq<char>,
    value1: Seq<char>,
    name2: Seq<char>,
    value2: Seq<char>,
    name3: Seq<char>,
    value3: Seq<char>,
    name4: Seq<char>,
    value4: Seq<char>,
) -> Part {
    Part::Note(
        Note {
            key,
            args: seq![
                (name1, Said::Text(value1)),
                (name2, Said::Text(value2)),
                (name3, Said::Text(value3)),
                (name4, Said::Text(value4)),
            ],
        },
    )
}

/// A text as a piece.
pub fn piece(s: &str) -> (r: Piece)
    ensures
        r@ == text(s@),
{
    Piece::Text(s.to_string())
}

/// A message without words of its own.
pub fn message(key: &'static str) -> (r: Piece)
    ensures
        r@ == note(key@),
{
    let m = Message { key, args: Vec::new() };
    assert(m@.args =~= Seq::<(Seq<char>, Said)>::empty());
    Piece::Message(m)
}

/// A text with a message without words of its own behind it.
pub fn headed_message(head: String, key: &'static str) -> (r: Piece)
    ensures
        r@ == headed(head@, key@),
{
    let m = Message { key, args: Vec::new() };
    assert(m@.args =~= Seq::<(Seq<char>, Said)>::empty());
    Piece::Headed(head, m)
}

/// A message with one text in it.
pub fn message1(key: &'static str, name: &'static str, value: String) -> (r: Piece)
    ensures
        r@ == note1(key@, name@, value@),
{
    let m = Message { key, args: vec![(name, Word::Text(value))] };
    assert(m@.args =~= seq![(name@, Said::Text(value@))]);
    Piece::Message(m)
}

/// A message with another message in it.
pub fn message_in(key: &'static str, name: &'static str, inner: &'static str) -> (r: Piece)
    ensures
        r@ == note_in(key@, name@, inner@),
{
    let m = Message { key, args: vec![(name, Word::Key(inner))] };
    assert(m@.args =~= seq![(name@, Said::Key(inner@))]);
    Piece::Message(m)
}

/// A message with two texts in it.
pub fn message2(
    key: &'static str,
    name1: &'static str,
    value1: String,
    name2: &'static str,
    value2: String,
) -> (r: Piece)
    ensures
        r@ == note2(key@, name1@, value1@, name2@, value2@),
{
    let m = Message { key, args: vec![(name1, Word::Text(value1)), (name2, Word::Text(value2))] };
    assert(m@.args =~= seq![(name1@, Said::Text(value1@)), (name2@, Said::Text(value2@))]);
    Piece::Message(m)
}

/// A message with three texts in it.
pub fn message3(
    key: &'static str,
    name1: &'static str,
    value1: String,
    name2: &'static str,
    value2: String,
    name3: &'static str,
    value3: String,
) -> (r: Piece)
    ensures
        r@ == note3(key@, name1@, value1@, name2@, value2@, name3@, value3@),
{
    let m = Message {
        key,
        args: vec![
            (name1, Word::Text(value1)),
            (name2, Word::Text(value2)),
            (name3, Word::Text(value3)),
        ],
    };
    assert(m@.args =~= seq![
        (name1@, Said::Text(value1@)),
        (name2@, Said::Text(value2@)),
        (name3@, Said::Text(value3@)),
    ]);
    Piece::Message(m)
}

/// A message with four texts in it.
pub fn message4(
    key: &'static str,
    name1: &'static str,
    value1: String,
    name2: &'static str,
    value2: String,
    name3: &'static str,
    value3: String,
    name4: &'static str,
    value4: String,
) -> (r: Piece)
    ensures
        r@ == note4(key@, name1@, value1@, name2@, value2@, name3@, value3@, name4@, value4@),
{
    let m = Message {
        key,
        args: vec![
            (name1, Word::Text(value1)),
            (name2, Word::Text(value2)),
            (name3, Word::Text(value3)),
            (name4, Word::Text(value4)),
        ],
    };
    assert(m@.args =~= seq![
        (name1@, Said::Text(value1@)),
        (name2@, Said::Text(value2@)),
        (name3@, Said::Text(value3@)),
        (name4@, Said::Text(value4@)),
    ]);
    Piece::Message(m)
}

/// A text for the screen that is being put together.
#[derive(Debug)]
pub struct Draft {
    pub pieces: Vec<Piece>,
}

impl View for Draft {
    type V = Seq<Part>;

    open spec fn view(&self) -> Seq<Part> {
        parts(self.pieces@)
    }
}

impl Draft {
    /// An empty text.
    pub fn new() -> (r: Draft)
        ensures
            r@ == Seq::<Part>::empty(),
    {
        let r = Draft { pieces: Vec::new() };
        assert(r@ =~= Seq::<Part>::empty());
        r
    }

    /// Puts a piece at the end.
    pub fn put(&mut self, p: Piece)
        ensures
            final(self)@ == old(self)@.push(p@),
    {
        let ghost before = self.pieces@;
        let ghost said = p@;
        self.pieces.push(p);
        assert(self@ =~= parts(before).push(said));
    }

    /// Puts a text at the end.
    pub fn text(&mut self, s: &str)
        ensures
            final(self)@ == old(self)@.push(text(s@)),
    {
        self.put(piece(s));
    }

    /// Puts a message without words of its own at the end.
    pub fn note(&mut self, key: &'static str)
        ensures
            final(self)@ == old(self)@.push(note(key@)),
    {
        self.put(message(key));
    }
}

/// A message, chosen by whether something is on.
pub open spec fn on_off(on: bool, yes: Seq<char>, no: Seq<char>) -> Option<Part> {
    Some(
        note(
            if on {
                yes
            } else {
                no
            },
        ),
    )
}

/// A message, chosen by whether something is on.
pub fn on_off_message(on: bool, yes: &'static str, no: &'static str) -> (r: Option<Piece>)
    ensures
        crate::menu::maybe_part(r) == on_off(on, yes@, no@),
{
    if on {
        Some(message(yes))
    } else {
        Some(message(no))
    }
}

} // verus!
