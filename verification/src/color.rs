use vstd::prelude::*;

verus! {

/// The colour a player picked, as the server understands it.
#[derive(Clone, Copy, Debug, PartialEq, Eq, Structural)]
pub enum Color {
    Red,
    Green,
    Yellow,
    Blue,
    Magenta,
    Cyan,
    Unknown,
}

/// The colour that a colour name stands for; every other name is `Unknown`.
pub open spec fn color_of_name(name: Seq<char>) -> Color {
    if name == "red"@ {
        Color::Red
    } else if name == "green"@ {
        Color::Green
    } else if name == "yellow"@ {
        Color::Yellow
    } else if name == "blue"@ {
        Color::Blue
    } else if name == "magenta"@ {
        Color::Magenta
    } else if name == "cyan"@ {
        Color::Cyan
    } else {
        Color::Unknown
    }
}

/// The name a colour is written as; `Unknown` is written as white.
pub open spec fn name_of_color(c: Color) -> Seq<char> {
    match c {
        Color::Red => "red"@,
        Color::Green => "green"@,
        Color::Yellow => "yellow"@,
        Color::Blue => "blue"@,
        Color::Magenta => "magenta"@,
        Color::Cyan => "cyan"@,
        Color::Unknown => "white"@,
    }
}

impl Color {
    /// Reads a colour name.
    pub fn from(data: &str) -> (c: Color)
        ensures
            c == color_of_name(data@),
    {
        let name = data.to_owned();
        if name == "red".to_owned() {
            Color::Red
        } else if name == "green".to_owned() {
            Color::Green
        } else if name == "yellow".to_owned() {
            Color::Yellow
        } else if name == "blue".to_owned() {
            Color::Blue
        } else if name == "magenta".to_owned() {
            Color::Magenta
        } else if name == "cyan".to_owned() {
            Color::Cyan
        } else {
            Color::Unknown
        }
    }

    /// The colour's name.
    pub fn to_string(&self) -> (s: String)
        ensures
            s@ == name_of_color(*self),
    {
        match self {
            Color::Red => "red".to_owned(),
            Color::Green => "green".to_owned(),
            Color::Yellow => "yellow".to_owned(),
            Color::Blue => "blue".to_owned(),
            Color::Magenta => "magenta".to_owned(),
            Color::Cyan => "cyan".to_owned(),
            Color::Unknown => "white".to_owned(),
        }
    }
}

/// Writing a colour's name and reading it back gives the same colour, `Unknown` included.
pub proof fn lemma_color_name_roundtrip(c: Color)
    ensures
        color_of_name(name_of_color(c)) == c,
{
    reveal_strlit("red");
    reveal_strlit("green");
    reveal_strlit("yellow");
    reveal_strlit("blue");
    reveal_strlit("magenta");
    reveal_strlit("cyan");
    reveal_strlit("white");
    // The names start with pairwise different letters.
    assert("red"@[0] == 'r' && "green"@[0] == 'g' && "yellow"@[0] == 'y' && "blue"@[0] == 'b'
        && "magenta"@[0] == 'm' && "cyan"@[0] == 'c' && "white"@[0] == 'w');
}

} // verus!
