//! The suffix of the installer script names, and the names themselves.
//!
//! Every kind gets four installer scripts, one per command category. Their
//! names end in a short suffix that is drawn once per process, so that two
//! plugins that register for the same kind do not collide. The suffix is the
//! lower-case hexadecimal form of a few random bytes; drawing the bytes is
//! left to the caller.

use vstd::prelude::*;
use vstd::string::*;

use crate::hooks::Acmd;
use crate::names::{hash40, hash40_of};

verus! {

/// How many random bytes go into the suffix.
pub const SUFFIX_BYTES: usize = 4;

/// The hexadecimal digit of a value below sixteen.
pub open spec fn hex_digit_of(nibble: int) -> char {
    if nibble == 0 {
        '0'
    } else if nibble == 1 {
        '1'
    } else if nibble == 2 {
        '2'
    } else if nibble == 3 {
        '3'
    } else if nibble == 4 {
        '4'
    } else if nibble == 5 {
        '5'
    } else if nibble == 6 {
        '6'
    } else if nibble == 7 {
        '7'
    } else if nibble == 8 {
        '8'
    } else if nibble == 9 {
        '9'
    } else if nibble == 10 {
        'a'
    } else if nibble == 11 {
        'b'
    } else if nibble == 12 {
        'c'
    } else if nibble == 13 {
        'd'
    } else if nibble == 14 {
        'e'
    } else {
        'f'
    }
}

/// The hexadecimal form of a byte sequence: two digits per byte, the high
/// half first.
pub open spec fn hex_of(bytes: Seq<u8>) -> Seq<char> {
    Seq::new(
        2 * bytes.len(),
        |i: int|
            if i % 2 == 0 {
                hex_digit_of(bytes[i / 2] as int / 16)
            } else {
                hex_digit_of(bytes[i / 2] as int % 16)
            },
    )
}

/// The name of the installer script of `category` for the suffix `suffix`.
pub open spec fn installer_name_of(category: Acmd, suffix: Seq<char>) -> Seq<char> {
    category.prefix_of() + "_acmd_installer"@ + suffix
}

/// The hexadecimal digit of a value below sixteen, as a string.
fn hex_digit(nibble: u8) -> (digit: &'static str)
    requires
        nibble < 16,
    ensures
        digit@ == seq![hex_digit_of(nibble as int)],
{
    proof {
        reveal_strlit("0");
        reveal_strlit("1");
        reveal_strlit("2");
        reveal_strlit("3");
        reveal_strlit("4");
        reveal_strlit("5");
        reveal_strlit("6");
        reveal_strlit("7");
        reveal_strlit("8");
        reveal_strlit("9");
        reveal_strlit("a");
        reveal_strlit("b");
        reveal_strlit("c");
        reveal_strlit("d");
        reveal_strlit("e");
        reveal_strlit("f");
    }
    let digit = match nibble {
        0 => "0",
        1 => "1",
        2 => "2",
        3 => "3",
        4 => "4",
        5 => "5",
        6 => "6",
        7 => "7",
        8 => "8",
        9 => "9",
        10 => "a",
        11 => "b",
        12 => "c",
        13 => "d",
        14 => "e",
        _ => "f",
    };
    assert(digit@ =~= seq![hex_digit_of(nibble as int)]);
    digit
}

/// The hexadecimal form of `bytes`.
pub fn hex(bytes: &[u8]) -> (text: String)
    ensures
        text@ == hex_of(bytes@),
{
    let mut text = String::new();
    let mut i: usize = 0;
    while i < bytes.len()
        invariant
            i <= bytes.len(),
            text@.len() == 2 * i,
            forall|k: int| 0 <= k < 2 * i ==> text@[k] == #[trigger] hex_of(bytes@)[k],
        decreases bytes.len() - i,
    {
        let byte = bytes[i];
        text.append(hex_digit(byte / 16));
        text.append(hex_digit(byte % 16));
        i += 1;
    }
    assert(text@ =~= hex_of(bytes@));
    text
}

/// The name of the installer script of `category` for the suffix `suffix`.
pub fn installer_name(category: Acmd, suffix: &str) -> (name: String)
    ensures
        name@ == installer_name_of(category, suffix@),
{
    let mut name = String::from_str(category.prefix());
    name.append("_acmd_installer");
    name.append(suffix);
    name
}

/// The hash that the host knows the installer script of `category` by.
pub fn installer_hash(category: Acmd, suffix: &str) -> (hash: u64)
    ensures
        hash == hash40_of(installer_name_of(category, suffix@)),
{
    let name = installer_name(category, suffix);
    hash40(name.as_str())
}

/// The suffix of this process, drawn at most once.
pub struct ScriptSuffix {
    text: Option<String>,
}

impl View for ScriptSuffix {
    type V = Option<Seq<char>>;

    closed spec fn view(&self) -> Option<Seq<char>> {
        match self.text {
            Some(text) => Some(text@),
            None => None,
        }
    }
}

impl ScriptSuffix {
    /// A suffix that is still to be drawn.
    pub fn new() -> (suffix: Self)
        ensures
            suffix@ is None,
    {
        ScriptSuffix { text: None }
    }

    /// Whether the suffix was drawn.
    pub fn is_set(&self) -> (set: bool)
        ensures
            set == (self@ is Some),
    {
        self.text.is_some()
    }

    /// Draws the suffix from `random` unless it was drawn before.
    pub fn ensure(&mut self, random: &[u8; 4])
        ensures
            final(self)@ == match old(self)@ {
                Some(text) => Some(text),
                None => Some(hex_of(random@)),
            },
    {
        if self.text.is_none() {
            self.text = Some(hex(random.as_slice()));
        }
    }

    /// The suffix, if it was drawn.
    pub fn get(&self) -> (text: Option<&String>)
        ensures
            match text {
                Some(t) => self@ == Some(t@),
                None => self@ is None,
            },
    {
        self.text.as_ref()
    }
}

} // verus!
