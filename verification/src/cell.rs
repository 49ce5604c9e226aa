//! The value types that describe what one position of the grid shows.

use vstd::prelude::*;

verus! {

/// A colour as three 8-bit channels.
#[derive(Clone, Copy, Debug, PartialEq, Eq, Structural)]
pub struct Color {
    pub r: u8,
    pub g: u8,
    pub b: u8,
}

impl Color {
    /// The channel at position `i` of `s`, or 0 where `s` is too short.
    pub open spec fn channel(s: Seq<u8>, i: int) -> u8 {
        if 0 <= i < s.len() {
            s[i]
        } else {
            0
        }
    }

    /// The colour that a sequence of channel values stands for: red, green and
    /// blue are its first three entries, and a missing entry counts as 0.
    pub open spec fn of_channels(s: Seq<u8>) -> Color {
        Color { r: Self::channel(s, 0), g: Self::channel(s, 1), b: Self::channel(s, 2) }
    }

    /// Reads a colour from a list of channel values. Entries after the third
    /// are ignored, missing ones are taken as 0.
    pub fn from_vec(v: &Vec<u8>) -> (c: Color)
        ensures
            c == Self::of_channels(v@),
    {
        let r: u8 = if v.len() > 0 { v[0] } else { 0 };
        let g: u8 = if v.len() > 1 { v[1] } else { 0 };
        let b: u8 = if v.len() > 2 { v[2] } else { 0 };
        Color { r, g, b }
    }

    pub fn new(r: u8, g: u8, b: u8) -> (c: Color)
        ensures
            c == (Color { r, g, b }),
    {
        Color { r, g, b }
    }
}

/// One rendering modifier of a cell.
#[derive(Clone, Copy, Debug, PartialEq, Eq, Hash, Structural)]
pub enum Attribute {
    Reset,
    Bold,
    Dim,
    Italic,
    Underlined,
    Reverse,
    Hidden,
    CrossedOut,
}

/// A set of rendering modifiers. Each modifier is either in the set or not:
/// the order in which they were added and how often does not matter.
#[derive(Clone, Copy, Debug, PartialEq, Eq, Structural)]
pub struct AttributeSet {
    pub reset: bool,
    pub bold: bool,
    pub dim: bool,
    pub italic: bool,
    pub underlined: bool,
    pub reverse: bool,
    pub hidden: bool,
    pub crossed_out: bool,
}

impl AttributeSet {
    /// Whether `a` is in the set.
    pub open spec fn has(self, a: Attribute) -> bool {
        match a {
            Attribute::Reset => self.reset,
            Attribute::Bold => self.bold,
            Attribute::Dim => self.dim,
            Attribute::Italic => self.italic,
            Attribute::Underlined => self.underlined,
            Attribute::Reverse => self.reverse,
            Attribute::Hidden => self.hidden,
            Attribute::CrossedOut => self.crossed_out,
        }
    }

    /// The set with no modifier in it.
    pub open spec fn spec_none() -> AttributeSet {
        AttributeSet {
            reset: false,
            bold: false,
            dim: false,
            italic: false,
            underlined: false,
            reverse: false,
            hidden: false,
            crossed_out: false,
        }
    }

    /// The set with no modifier in it.
    pub fn none() -> (s: AttributeSet)
        ensures
            s == Self::spec_none(),
            s@ == Set::<Attribute>::empty(),
    {
        let s = AttributeSet {
            reset: false,
            bold: false,
            dim: false,
            italic: false,
            underlined: false,
            reverse: false,
            hidden: false,
            crossed_out: false,
        };
        assert(s@ =~= Set::<Attribute>::empty());
        s
    }

    pub fn contains(&self, a: Attribute) -> (r: bool)
        ensures
            r == self@.contains(a),
    {
        match a {
            Attribute::Reset => self.reset,
            Attribute::Bold => self.bold,
            Attribute::Dim => self.dim,
            Attribute::Italic => self.italic,
            Attribute::Underlined => self.underlined,
            Attribute::Reverse => self.reverse,
            Attribute::Hidden => self.hidden,
            Attribute::CrossedOut => self.crossed_out,
        }
    }

    /// The set with `a` added.
    pub fn with(self, a: Attribute) -> (s: AttributeSet)
        ensures
            s@ == self@.insert(a),
    {
        let mut s = self;
        match a {
            Attribute::Reset => { s.reset = true; },
            Attribute::Bold => { s.bold = true; },
            Attribute::Dim => { s.dim = true; },
            Attribute::Italic => { s.italic = true; },
            Attribute::Underlined => { s.underlined = true; },
            Attribute::Reverse => { s.reverse = true; },
            Attribute::Hidden => { s.hidden = true; },
            Attribute::CrossedOut => { s.crossed_out = true; },
        }
        assert(s@ =~= self@.insert(a));
        s
    }

    /// The set of the modifiers that occur in `s`.
    pub open spec fn of(s: Seq<Attribute>) -> AttributeSet {
        AttributeSet {
            reset: s.contains(Attribute::Reset),
            bold: s.contains(Attribute::Bold),
            dim: s.contains(Attribute::Dim),
            italic: s.contains(Attribute::Italic),
            underlined: s.contains(Attribute::Underlined),
            reverse: s.contains(Attribute::Reverse),
            hidden: s.contains(Attribute::Hidden),
            crossed_out: s.contains(Attribute::CrossedOut),
        }
    }

    /// The set of the modifiers that occur in `v`.
    pub fn from_vec(v: &Vec<Attribute>) -> (s: AttributeSet)
        ensures
            s == Self::of(v@),
            s@ == v@.to_set(),
    {
        let mut s = AttributeSet::none();
        let mut i: usize = 0;
        while i < v.len()
            invariant
                i <= v.len(),
                s@ == v@.take(i as int).to_set(),
            decreases v.len() - i,
        {
            s = s.with(v[i]);
            proof {
                let before = v@.take(i as int);
                let after = v@.take(i + 1);
                assert forall|a: Attribute| #[trigger]
                    after.to_set().contains(a) == before.to_set().insert(v@[i as int]).contains(
                        a,
                    ) by {
                    if after.contains(a) {
                        let j = choose|j: int| 0 <= j < after.len() && after[j] == a;
                        if j < i {
                            assert(before[j] == a);
                        }
                    }
                    if before.contains(a) {
                        let j = choose|j: int| 0 <= j < before.len() && before[j] == a;
                        assert(after[j] == a);
                    }
                    if a == v@[i as int] {
                        assert(after[i as int] == a);
                    }
                }
                assert(after.to_set() =~= before.to_set().insert(v@[i as int]));
            }
            i += 1;
        }
        proof {
            assert(v@.take(i as int) =~= v@);
            assert(Self::of(v@)@ =~= v@.to_set());
            Self::lemma_equal_by_members(s, Self::of(v@));
        }
        s
    }

    /// Two sets with the same members are the same value.
    pub proof fn lemma_equal_by_members(a: AttributeSet, b: AttributeSet)
        ensures
            a@ == b@ <==> a == b,
    {
        if a@ == b@ {
            assert(a@.contains(Attribute::Reset) == b@.contains(Attribute::Reset));
            assert(a@.contains(Attribute::Bold) == b@.contains(Attribute::Bold));
            assert(a@.contains(Attribute::Dim) == b@.contains(Attribute::Dim));
            assert(a@.contains(Attribute::Italic) == b@.contains(Attribute::Italic));
            assert(a@.contains(Attribute::Underlined) == b@.contains(Attribute::Underlined));
            assert(a@.contains(Attribute::Reverse) == b@.contains(Attribute::Reverse));
            assert(a@.contains(Attribute::Hidden) == b@.contains(Attribute::Hidden));
            assert(a@.contains(Attribute::CrossedOut) == b@.contains(Attribute::CrossedOut));
        }
    }
}

impl View for AttributeSet {
    type V = Set<Attribute>;

    open spec fn view(&self) -> Set<Attribute> {
        Set::new(|a: Attribute| self.has(a))
    }
}

/// What one position of the grid shows: a character, its two colours and its
/// modifiers. Two cells are equal when all four agree.
#[derive(Clone, Copy, Debug, PartialEq, Eq, Structural)]
pub struct Cell {
    pub ch: char,
    pub fg: Color,
    pub bg: Color,
    pub atr: AttributeSet,
}

impl Cell {
    /// The cell that buffers start out with and are cleared to: a space in
    /// black on black with no modifier.
    pub open spec fn blank() -> Cell {
        Cell {
            ch: ' ',
            fg: Color { r: 0, g: 0, b: 0 },
            bg: Color { r: 0, g: 0, b: 0 },
            atr: AttributeSet::spec_none(),
        }
    }

    pub fn new(ch: char, fg: Color, bg: Color, atr: AttributeSet) -> (c: Cell)
        ensures
            c == (Cell { ch, fg, bg, atr }),
    {
        Cell { ch, fg, bg, atr }
    }

    pub fn empty() -> (c: Cell)
        ensures
            c == Cell::blank(),
    {
        let atr = AttributeSet::none();
        Cell { ch: ' ', fg: Color::new(0, 0, 0), bg: Color::new(0, 0, 0), atr }
    }
}

} // verus!
