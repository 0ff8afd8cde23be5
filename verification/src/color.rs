//! The ten colours of the board. A colour groups cells; it says nothing of how
//! a cell is painted.

use vstd::prelude::*;
use vstd::string::StrSliceExecFns;

verus! {

/// How many colours there are.
pub const COLOR_COUNT: usize = 10;

/// The colour of a cell, fixed when the grid is made.
#[derive(Clone, Copy, Debug, PartialEq, Eq, Hash, Structural)]
pub enum Color {
    Pink,
    Blue,
    LightBlue,
    Yellow,
    Purple,
    LightGreen,
    DarkGreen,
    Salmon,
    Teal,
    Orange,
}

impl Color {
    /// The place of the colour among the ten, from 0.
    pub open spec fn ordinal(self) -> int {
        match self {
            Color::Pink => 0,
            Color::Blue => 1,
            Color::LightBlue => 2,
            Color::Yellow => 3,
            Color::Purple => 4,
            Color::LightGreen => 5,
            Color::DarkGreen => 6,
            Color::Salmon => 7,
            Color::Teal => 8,
            Color::Orange => 9,
        }
    }

    /// The colour at a place; outside `0..10` it is the last one.
    pub open spec fn at(ordinal: int) -> Color {
        if ordinal == 0 {
            Color::Pink
        } else if ordinal == 1 {
            Color::Blue
        } else if ordinal == 2 {
            Color::LightBlue
        } else if ordinal == 3 {
            Color::Yellow
        } else if ordinal == 4 {
            Color::Purple
        } else if ordinal == 5 {
            Color::LightGreen
        } else if ordinal == 6 {
            Color::DarkGreen
        } else if ordinal == 7 {
            Color::Salmon
        } else if ordinal == 8 {
            Color::Teal
        } else {
            Color::Orange
        }
    }

    /// The name under which the colour is written in a grid definition.
    pub open spec fn label(self) -> Seq<char> {
        match self {
            Color::Pink => "Pink"@,
            Color::Blue => "Blue"@,
            Color::LightBlue => "LightBlue"@,
            Color::Yellow => "Yellow"@,
            Color::Purple => "Purple"@,
            Color::LightGreen => "LightGreen"@,
            Color::DarkGreen => "DarkGreen"@,
            Color::Salmon => "Salmon"@,
            Color::Teal => "Teal"@,
            Color::Orange => "Orange"@,
        }
    }

    /// The colour that a name stands for, if it is one of the ten names.
    /// Names are matched letter for letter, capitals included.
    pub open spec fn named(text: Seq<char>) -> Option<Color> {
        if text == Color::Pink.label() {
            Some(Color::Pink)
        } else if text == Color::Blue.label() {
            Some(Color::Blue)
        } else if text == Color::LightBlue.label() {
            Some(Color::LightBlue)
        } else if text == Color::Yellow.label() {
            Some(Color::Yellow)
        } else if text == Color::Purple.label() {
            Some(Color::Purple)
        } else if text == Color::LightGreen.label() {
            Some(Color::LightGreen)
        } else if text == Color::DarkGreen.label() {
            Some(Color::DarkGreen)
        } else if text == Color::Salmon.label() {
            Some(Color::Salmon)
        } else if text == Color::Teal.label() {
            Some(Color::Teal)
        } else if text == Color::Orange.label() {
            Some(Color::Orange)
        } else {
            None
        }
    }

    /// The place of the colour among the ten, from 0.
    pub fn index(&self) -> (i: usize)
        ensures
            i == self.ordinal(),
            i < COLOR_COUNT,
    {
        match self {
            Color::Pink => 0,
            Color::Blue => 1,
            Color::LightBlue => 2,
            Color::Yellow => 3,
            Color::Purple => 4,
            Color::LightGreen => 5,
            Color::DarkGreen => 6,
            Color::Salmon => 7,
            Color::Teal => 8,
            Color::Orange => 9,
        }
    }

    /// The name under which the colour is written in a grid definition.
    pub fn name(&self) -> (s: &'static str)
        ensures
            s@ == self.label(),
    {
        match self {
            Color::Pink => "Pink",
            Color::Blue => "Blue",
            Color::LightBlue => "LightBlue",
            Color::Yellow => "Yellow",
            Color::Purple => "Purple",
            Color::LightGreen => "LightGreen",
            Color::DarkGreen => "DarkGreen",
            Color::Salmon => "Salmon",
            Color::Teal => "Teal",
            Color::Orange => "Orange",
        }
    }

    /// Reads a colour name. Anything but one of the ten names gives `None`.
    pub fn from_name(name: &str) -> (c: Option<Color>)
        ensures
            c == Color::named(name@),
    {
        if same_text(name, Color::Pink.name()) {
            Some(Color::Pink)
        } else if same_text(name, Color::Blue.name()) {
            Some(Color::Blue)
        } else if same_text(name, Color::LightBlue.name()) {
            Some(Color::LightBlue)
        } else if same_text(name, Color::Yellow.name()) {
            Some(Color::Yellow)
        } else if same_text(name, Color::Purple.name()) {
            Some(Color::Purple)
        } else if same_text(name, Color::LightGreen.name()) {
            Some(Color::LightGreen)
        } else if same_text(name, Color::DarkGreen.name()) {
            Some(Color::DarkGreen)
        } else if same_text(name, Color::Salmon.name()) {
            Some(Color::Salmon)
        } else if same_text(name, Color::Teal.name()) {
            Some(Color::Teal)
        } else if same_text(name, Color::Orange.name()) {
            Some(Color::Orange)
        } else {
            None
        }
    }
}

/// Whether two texts hold the same characters.
fn same_text(a: &str, b: &str) -> (same: bool)
    ensures
        same == (a@ == b@),
{
    let n: usize = b.unicode_len();
    if a.unicode_len() != n {
        return false;
    }
    let mut i: usize = 0;
    while i < n
        invariant
            i <= n,
            n == a@.len(),
            n == b@.len(),
            forall|k: int| 0 <= k < i ==> a@[k] == b@[k],
        decreases n - i,
    {
        if a.get_char(i) != b.get_char(i) {
            return false;
        }
        i += 1;
    }
    assert(a@ =~= b@);
    true
}

/// Every colour has its place, and every place in `0..10` its colour.
pub proof fn lemma_ordinal_at(c: Color, i: int)
    ensures
        0 <= c.ordinal() < COLOR_COUNT,
        Color::at(c.ordinal()) == c,
        0 <= i < COLOR_COUNT ==> Color::at(i).ordinal() == i,
{
}

/// No two colours share a name: reading a colour's name gives the colour
/// back, and a name that reads as a colour is that colour's name.
pub proof fn lemma_names_tell_colors_apart(c: Color, text: Seq<char>)
    ensures
        Color::named(c.label()) == Some(c),
        Color::named(text) == Some(c) ==> text == c.label(),
{
    reveal_strlit("Pink");
    reveal_strlit("Blue");
    reveal_strlit("LightBlue");
    reveal_strlit("Yellow");
    reveal_strlit("Purple");
    reveal_strlit("LightGreen");
    reveal_strlit("DarkGreen");
    reveal_strlit("Salmon");
    reveal_strlit("Teal");
    reveal_strlit("Orange");
    // Names of one length differ in their first letter.
    assert(Color::Pink.label().len() == 4 && Color::Pink.label()[0] == 'P');
    assert(Color::Blue.label().len() == 4 && Color::Blue.label()[0] == 'B');
    assert(Color::Teal.label().len() == 4 && Color::Teal.label()[0] == 'T');
    assert(Color::Yellow.label().len() == 6 && Color::Yellow.label()[0] == 'Y');
    assert(Color::Purple.label().len() == 6 && Color::Purple.label()[0] == 'P');
    assert(Color::Salmon.label().len() == 6 && Color::Salmon.label()[0] == 'S');
    assert(Color::Orange.label().len() == 6 && Color::Orange.label()[0] == 'O');
    assert(Color::LightBlue.label().len() == 9 && Color::LightBlue.label()[0] == 'L');
    assert(Color::DarkGreen.label().len() == 9 && Color::DarkGreen.label()[0] == 'D');
    assert(Color::LightGreen.label().len() == 10);
}

} // verus!
