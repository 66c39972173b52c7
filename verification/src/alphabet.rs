//! The four character classes and their fixed alphabets.

use vstd::prelude::*;
use vstd::std_specs::iter::IteratorSpec;

verus! {

/// A class of characters that a password may draw from.
#[derive(Clone, Copy, Debug, PartialEq, Eq, Structural)]
pub enum CharacterClass {
    Lowercase,
    Uppercase,
    Digit,
    Special,
}

impl CharacterClass {
    /// The ordered alphabet of the class.
    pub open spec fn alphabet(self) -> Seq<char> {
        match self {
            CharacterClass::Lowercase => "abcdefghijklmnopqrstuvwxyz"@,
            CharacterClass::Uppercase => "ABCDEFGHIJKLMNOPQRSTUVWXYZ"@,
            CharacterClass::Digit => "0123456789"@,
            CharacterClass::Special => "!\"#$%&'()*+,-./:;<=>?@[\\]^_`{|}~"@,
        }
    }

    /// Whether `c` belongs to the class, told by its code point.
    pub open spec fn holds(self, c: char) -> bool {
        match self {
            CharacterClass::Lowercase => 'a' <= c <= 'z',
            CharacterClass::Uppercase => 'A' <= c <= 'Z',
            CharacterClass::Digit => '0' <= c <= '9',
            CharacterClass::Special => {
                ||| '!' <= c <= '/'
                ||| ':' <= c <= '@'
                ||| '[' <= c <= '`'
                ||| '{' <= c <= '~'
            },
        }
    }

    /// The alphabet as a string slice.
    pub fn text(self) -> (text: &'static str)
        ensures
            text@ == self.alphabet(),
    {
        match self {
            CharacterClass::Lowercase => "abcdefghijklmnopqrstuvwxyz",
            CharacterClass::Uppercase => "ABCDEFGHIJKLMNOPQRSTUVWXYZ",
            CharacterClass::Digit => "0123456789",
            CharacterClass::Special => "!\"#$%&'()*+,-./:;<=>?@[\\]^_`{|}~",
        }
    }

    /// The alphabet as a vector of characters, in order.
    pub fn chars(self) -> (chars: Vec<char>)
        ensures
            chars@ == self.alphabet(),
    {
        str_chars(self.text())
    }

    /// Whether `c` belongs to the class.
    pub fn contains(self, c: char) -> (found: bool)
        ensures
            found == self.alphabet().contains(c),
    {
        proof {
            lemma_alphabet_membership(self, c);
        }
        match self {
            CharacterClass::Lowercase => 'a' <= c && c <= 'z',
            CharacterClass::Uppercase => 'A' <= c && c <= 'Z',
            CharacterClass::Digit => '0' <= c && c <= '9',
            CharacterClass::Special => ('!' <= c && c <= '/') || (':' <= c && c <= '@') || ('['
                <= c && c <= '`') || ('{' <= c && c <= '~'),
        }
    }
}

/// The characters of a string slice, in order.
pub fn str_chars(text: &str) -> (chars: Vec<char>)
    ensures
        chars@ == text@,
{
    broadcast use vstd::string::group_string_axioms;

    let mut rest = text.chars();
    let mut chars: Vec<char> = Vec::new();
    loop
        invariant
            chars@ + rest.remaining() == text@,
            rest.decrease() is Some,
        ensures
            chars@ == text@,
        decreases rest.decrease()->0,
    {
        let ghost before = rest.remaining();
        match rest.next() {
            Some(c) => {
                chars.push(c);
                assert(chars@ + rest.remaining() =~= text@);
            },
            None => {
                assert(chars@ + before =~= chars@);
                break ;
            },
        }
    }
    chars
}

/// The sizes of the four alphabets.
pub proof fn lemma_alphabet_len(class: CharacterClass)
    ensures
        class.alphabet().len() == match class {
            CharacterClass::Lowercase => 26nat,
            CharacterClass::Uppercase => 26nat,
            CharacterClass::Digit => 10nat,
            CharacterClass::Special => 32nat,
        },
{
    reveal_strlit("abcdefghijklmnopqrstuvwxyz");
    reveal_strlit("ABCDEFGHIJKLMNOPQRSTUVWXYZ");
    reveal_strlit("0123456789");
    reveal_strlit("!\"#$%&'()*+,-./:;<=>?@[\\]^_`{|}~");
}

/// A character occurs in an alphabet exactly when its code point lies in the
/// ranges of that class.
pub proof fn lemma_alphabet_membership(class: CharacterClass, c: char)
    ensures
        class.alphabet().contains(c) <==> class.holds(c),
{
    reveal_strlit("abcdefghijklmnopqrstuvwxyz");
    reveal_strlit("ABCDEFGHIJKLMNOPQRSTUVWXYZ");
    reveal_strlit("0123456789");
    reveal_strlit("!\"#$%&'()*+,-./:;<=>?@[\\]^_`{|}~");
    let a = class.alphabet();
    if class.holds(c) {
        let i: int = match class {
            CharacterClass::Lowercase => c as int - 'a' as int,
            CharacterClass::Uppercase => c as int - 'A' as int,
            CharacterClass::Digit => c as int - '0' as int,
            CharacterClass::Special => if c <= '/' {
                c as int - '!' as int
            } else if c <= '@' {
                c as int - ':' as int + 15
            } else if c <= '`' {
                c as int - '[' as int + 22
            } else {
                c as int - '{' as int + 28
            },
        };
        assert(0 <= i < a.len());
        assert(a[i] == c);
    }
    if a.contains(c) {
        let i = choose|i: int| 0 <= i < a.len() && a[i] == c;
        assert(class.holds(a[i]));
    }
}

/// No alphabet holds a character twice: each lists its characters by
/// rising code point.
pub proof fn lemma_alphabet_rises(class: CharacterClass)
    ensures
        forall|i: int, j: int|
            0 <= i < j < class.alphabet().len() ==> class.alphabet()[i] < class.alphabet()[j],
        class.alphabet().no_duplicates(),
{
    reveal_strlit("abcdefghijklmnopqrstuvwxyz");
    reveal_strlit("ABCDEFGHIJKLMNOPQRSTUVWXYZ");
    reveal_strlit("0123456789");
    reveal_strlit("!\"#$%&'()*+,-./:;<=>?@[\\]^_`{|}~");
    let a = class.alphabet();
    assert forall|i: int| 0 <= i < a.len() - 1 implies #[trigger] a[i] < a[i + 1] by {}
    assert forall|i: int, j: int| 0 <= i < j < a.len() implies a[i] < a[j] by {
        lemma_rising_steps(a, i, j);
    }
}

/// In a sequence whose every character is below the next, every character
/// is below all that follow.
proof fn lemma_rising_steps(a: Seq<char>, i: int, j: int)
    requires
        0 <= i < j < a.len(),
        forall|k: int| 0 <= k < a.len() - 1 ==> #[trigger] a[k] < a[k + 1],
    ensures
        a[i] < a[j],
    decreases j - i,
{
    if i + 1 < j {
        lemma_rising_steps(a, i, j - 1);
        assert(a[j - 1] < a[j - 1 + 1]);
    }
}

/// No character belongs to two classes.
pub proof fn lemma_alphabets_disjoint(first: CharacterClass, second: CharacterClass, c: char)
    requires
        first != second,
        first.alphabet().contains(c),
    ensures
        !second.alphabet().contains(c),
{
    lemma_alphabet_membership(first, c);
    lemma_alphabet_membership(second, c);
}

} // verus!
