//! Coloured text: what the screens are made of.

use crate::config::PoolMode;
use vstd::prelude::*;

verus! {

/// The colours of the screen.
#[derive(Clone, Copy, Debug, PartialEq, Eq, Structural)]
pub enum Ink {
    Plain,
    Green,
    Yellow,
    Cyan,
    Muted,
    Amber,
    Pink,
    Border,
    Purple,
    White,
    Quiet,
    Red,
    /// The bars of other CHIRP members.
    Soft,
    /// The trail of past templates.
    Trail,
    Black,
}

/// How a piece of text is drawn.
#[derive(Clone, Copy, Debug, PartialEq, Eq, Structural)]
pub struct Look {
    pub ink: Ink,
    pub bold: bool,
    /// The background.
    pub on: Ink,
}

/// A piece of text.
#[derive(Debug)]
pub struct Piece {
    pub text: String,
    pub look: Look,
}

/// A piece of text by what it shows.
pub struct PieceV {
    pub text: Seq<char>,
    pub look: Look,
}

impl View for Piece {
    type V = PieceV;

    open spec fn view(&self) -> PieceV {
        PieceV { text: self.text@, look: self.look }
    }
}

/// Text in a colour.
pub open spec fn ink(text: Seq<char>, ink: Ink) -> PieceV {
    PieceV { text, look: Look { ink, bold: false, on: Ink::Plain } }
}

/// Bold text in a colour.
pub open spec fn bold(text: Seq<char>, ink: Ink) -> PieceV {
    PieceV { text, look: Look { ink, bold: true, on: Ink::Plain } }
}

/// Muted text.
pub open spec fn dim(text: Seq<char>) -> PieceV {
    ink(text, Ink::Muted)
}

/// Text as it is.
pub open spec fn raw(text: Seq<char>) -> PieceV {
    ink(text, Ink::Plain)
}

/// Text on a background.
pub open spec fn badge(text: Seq<char>, look: Look) -> PieceV {
    PieceV { text, look }
}

/// A line of text.
#[derive(Debug)]
pub struct Row {
    pub pieces: Vec<Piece>,
}

impl View for Row {
    type V = Seq<PieceV>;

    open spec fn view(&self) -> Seq<PieceV> {
        Seq::new(self.pieces@.len(), |i: int| self.pieces@[i]@)
    }
}

/// The lines of a list.
pub open spec fn rows(v: Seq<Row>) -> Seq<Seq<PieceV>> {
    Seq::new(v.len(), |i: int| v[i]@)
}

impl Row {
    /// An empty line.
    pub fn new() -> (r: Row)
        ensures
            r@ == Seq::<PieceV>::empty(),
    {
        let r = Row { pieces: Vec::new() };
        assert(r@ =~= Seq::<PieceV>::empty());
        r
    }

    /// Adds text.
    pub fn add_look(&mut self, text: &str, look: Look)
        ensures
            final(self)@ == old(self)@.push(badge(text@, look)),
    {
        let ghost before = self@;
        self.pieces.push(Piece { text: text.to_owned(), look });
        assert(self@ =~= before.push(badge(text@, look)));
    }

    /// Adds text in a colour.
    pub fn add_ink(&mut self, text: &str, c: Ink)
        ensures
            final(self)@ == old(self)@.push(ink(text@, c)),
    {
        self.add_look(text, Look { ink: c, bold: false, on: Ink::Plain });
    }

    /// Adds bold text in a colour.
    pub fn add_bold(&mut self, text: &str, c: Ink)
        ensures
            final(self)@ == old(self)@.push(bold(text@, c)),
    {
        self.add_look(text, Look { ink: c, bold: true, on: Ink::Plain });
    }

    /// Adds muted text.
    pub fn add_dim(&mut self, text: &str)
        ensures
            final(self)@ == old(self)@.push(dim(text@)),
    {
        self.add_ink(text, Ink::Muted);
    }

    /// Adds text as it is.
    pub fn add_raw(&mut self, text: &str)
        ensures
            final(self)@ == old(self)@.push(raw(text@)),
    {
        self.add_ink(text, Ink::Plain);
    }

    /// Adds the pieces of another line.
    pub fn extend(&mut self, other: Row)
        ensures
            final(self)@ == old(self)@ + other@,
    {
        let ghost before = self@;
        let mut more = other.pieces;
        self.pieces.append(&mut more);
        assert(self@ =~= before + other@);
    }
}

/// Adds a line to a list.
pub fn add_row(v: &mut Vec<Row>, r: Row)
    ensures
        rows(final(v)@) == rows(old(v)@).push(r@),
{
    let ghost before = rows(v@);
    v.push(r);
    assert(rows(v@) =~= before.push(r@));
}

/// An empty list of lines.
pub fn no_rows() -> (v: Vec<Row>)
    ensures
        rows(v@) == Seq::<Seq<PieceV>>::empty(),
{
    let v: Vec<Row> = Vec::new();
    assert(rows(v@) =~= Seq::<Seq<PieceV>>::empty());
    v
}

/// A framed part of the screen: its title, the title's colour, and its lines.
#[derive(Debug)]
pub struct Card {
    pub title: String,
    pub accent: Ink,
    pub lines: Vec<Row>,
}

/// A framed part of the screen by what it shows.
pub struct CardV {
    pub title: Seq<char>,
    pub accent: Ink,
    pub lines: Seq<Seq<PieceV>>,
}

impl View for Card {
    type V = CardV;

    open spec fn view(&self) -> CardV {
        CardV { title: self.title@, accent: self.accent, lines: rows(self.lines@) }
    }
}

/// A tile: a label, a value and a footnote.
#[derive(Debug)]
pub struct Tile {
    pub title: String,
    pub value: Row,
    pub sub: String,
    pub accent: Ink,
}

/// A tile by what it shows.
pub struct TileV {
    pub title: Seq<char>,
    pub value: Seq<PieceV>,
    pub sub: Seq<char>,
    pub accent: Ink,
}

impl View for Tile {
    type V = TileV;

    open spec fn view(&self) -> TileV {
        TileV { title: self.title@, value: self.value@, sub: self.sub@, accent: self.accent }
    }
}

/// The tiles of a list.
pub open spec fn tiles(v: Seq<Tile>) -> Seq<TileV> {
    Seq::new(v.len(), |i: int| v[i]@)
}

impl TileV {
    /// The colour of a tile's label: quiet accents are muted.
    pub open spec fn label_ink(self) -> Ink {
        if self.accent == Ink::Border || self.accent == Ink::Muted { Ink::Muted } else { self.accent }
    }
}

impl Tile {
    /// The colour of the tile's label.
    pub fn label_ink(&self) -> (r: Ink)
        ensures
            r == self@.label_ink(),
    {
        if self.accent == Ink::Border || self.accent == Ink::Muted { Ink::Muted } else { self.accent }
    }
}

/// A mode's colour.
pub open spec fn mode_ink(m: PoolMode) -> Ink {
    match m {
        PoolMode::Lotto => Ink::Yellow,
        PoolMode::Chirp => Ink::Purple,
        PoolMode::Carousel => Ink::White,
        PoolMode::Custom => Ink::Cyan,
    }
}

impl PoolMode {
    /// The mode's colour.
    pub fn accent(self) -> (r: Ink)
        ensures
            r == mode_ink(self),
    {
        match self {
            PoolMode::Lotto => Ink::Yellow,
            PoolMode::Chirp => Ink::Purple,
            PoolMode::Carousel => Ink::White,
            PoolMode::Custom => Ink::Cyan,
        }
    }
}

/// A bar of `width` cells, of which `n` are filled.
pub open spec fn bar_cells(n: nat, width: nat) -> Seq<char> {
    Seq::new(width, |i: int| if i < n { '▰' } else { '▱' })
}

/// Draws a bar of `width` cells, of which `n` are filled.
pub fn bar(n: usize, width: usize) -> (r: String)
    ensures
        r@ == bar_cells(n as nat, width as nat),
{
    let mut r = String::new();
    let mut i: usize = 0;
    assert(r@ =~= bar_cells(n as nat, 0));
    while i < width
        invariant
            i <= width,
            r@ == bar_cells(n as nat, width as nat).take(i as int),
        decreases width - i,
    {
        let c = if i < n { '▰' } else { '▱' };
        r.push(c);
        assert(bar_cells(n as nat, width as nat).take(i + 1) =~= bar_cells(n as nat, width as nat).take(
            i as int,
        ).push(c));
        i = i + 1;
    }
    assert(bar_cells(n as nat, width as nat).take(i as int) =~= bar_cells(n as nat, width as nat));
    r
}

/// Law: a bar has as many cells as it is wide, and its first `n` are filled.
pub proof fn law_bars_are_filled_from_the_left(n: nat, width: nat, i: int)
    requires
        0 <= i < width,
    ensures
        bar_cells(n, width).len() == width,
        bar_cells(n, width)[i] == '▰' <==> i < n,
        bar_cells(n, width)[i] == '▱' <==> i >= n,
{
}

/// Law: each mode has a colour of its own.
pub proof fn law_modes_differ_in_colour(a: PoolMode, b: PoolMode)
    ensures
        mode_ink(a) == mode_ink(b) <==> a == b,
{
}

} // verus!
