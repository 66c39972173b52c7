//! Which character classes a password may use, and the pool they form.

use crate::alphabet::{
    lemma_alphabet_len, lemma_alphabet_rises, lemma_alphabets_disjoint, CharacterClass,
};
use vstd::seq_lib::lemma_no_dup_in_concat;
use vstd::prelude::*;

verus! {

/// The character classes that are enabled for a password.
#[derive(Clone, Copy, Debug, PartialEq, Eq, Structural)]
pub struct Selection {
    pub lowercase: bool,
    pub uppercase: bool,
    pub digits: bool,
    pub special: bool,
}

/// The largest pool there is: all four alphabets together.
pub const MAX_POOL_SIZE: usize = 94;

impl Selection {
    /// Whether `class` is enabled.
    pub open spec fn enabled(self, class: CharacterClass) -> bool {
        match class {
            CharacterClass::Lowercase => self.lowercase,
            CharacterClass::Uppercase => self.uppercase,
            CharacterClass::Digit => self.digits,
            CharacterClass::Special => self.special,
        }
    }

    /// What `class` contributes: its alphabet if it is enabled, nothing otherwise.
    pub open spec fn part(self, class: CharacterClass) -> Seq<char> {
        if self.enabled(class) {
            class.alphabet()
        } else {
            Seq::empty()
        }
    }

    /// What `class` contributes to the list of enabled classes.
    pub open spec fn class_part(self, class: CharacterClass) -> Seq<CharacterClass> {
        if self.enabled(class) {
            seq![class]
        } else {
            Seq::empty()
        }
    }

    /// The enabled classes, in the fixed order lowercase, uppercase, digit, special.
    pub open spec fn classes(self) -> Seq<CharacterClass> {
        self.class_part(CharacterClass::Lowercase) + self.class_part(CharacterClass::Uppercase)
            + self.class_part(CharacterClass::Digit) + self.class_part(CharacterClass::Special)
    }

    /// The number of enabled classes.
    pub open spec fn count(self) -> nat {
        self.classes().len()
    }

    /// The least length a password for this selection can have.
    pub open spec fn least_length(self) -> nat {
        if self.count() < 1 {
            1
        } else {
            self.count()
        }
    }

    /// The alphabets of the enabled classes, one after the other in the fixed order.
    pub open spec fn pool(self) -> Seq<char> {
        self.part(CharacterClass::Lowercase) + self.part(CharacterClass::Uppercase) + self.part(
            CharacterClass::Digit,
        ) + self.part(CharacterClass::Special)
    }

    /// A selection from four answers, in the fixed order of the classes.
    pub fn new(lowercase: bool, uppercase: bool, digits: bool, special: bool) -> (selection: Self)
        ensures
            selection == (Selection { lowercase, uppercase, digits, special }),
    {
        Selection { lowercase, uppercase, digits, special }
    }

    /// Whether `class` is enabled.
    pub fn is_enabled(&self, class: CharacterClass) -> (enabled: bool)
        ensures
            enabled == self.enabled(class),
    {
        match class {
            CharacterClass::Lowercase => self.lowercase,
            CharacterClass::Uppercase => self.uppercase,
            CharacterClass::Digit => self.digits,
            CharacterClass::Special => self.special,
        }
    }

    /// The enabled classes, in the fixed order.
    pub fn enabled_classes(&self) -> (classes: Vec<CharacterClass>)
        ensures
            classes@ == self.classes(),
    {
        let mut classes: Vec<CharacterClass> = Vec::new();
        if self.lowercase {
            classes.push(CharacterClass::Lowercase);
        }
        if self.uppercase {
            classes.push(CharacterClass::Uppercase);
        }
        if self.digits {
            classes.push(CharacterClass::Digit);
        }
        if self.special {
            classes.push(CharacterClass::Special);
        }
        assert(classes@ =~= self.classes());
        classes
    }

    /// The number of enabled classes.
    pub fn selected_count(&self) -> (count: usize)
        ensures
            count == self.count(),
            count <= 4,
    {
        let mut count: usize = 0;
        if self.lowercase {
            count = count + 1;
        }
        if self.uppercase {
            count = count + 1;
        }
        if self.digits {
            count = count + 1;
        }
        if self.special {
            count = count + 1;
        }
        count
    }

    /// The least length that may be asked for: one, or the number of enabled
    /// classes where that is more.
    pub fn min_length(&self) -> (least: usize)
        ensures
            least == self.least_length(),
            1 <= least <= 4,
    {
        let count: usize = self.selected_count();
        if count < 1 {
            1
        } else {
            count
        }
    }

    /// The pool of characters to draw from.
    pub fn character_pool(&self) -> (pool: Vec<char>)
        ensures
            pool@ == self.pool(),
    {
        let mut pool: Vec<char> = Vec::new();
        if self.lowercase {
            let mut part = CharacterClass::Lowercase.chars();
            pool.append(&mut part);
        }
        if self.uppercase {
            let mut part = CharacterClass::Uppercase.chars();
            pool.append(&mut part);
        }
        if self.digits {
            let mut part = CharacterClass::Digit.chars();
            pool.append(&mut part);
        }
        if self.special {
            let mut part = CharacterClass::Special.chars();
            pool.append(&mut part);
        }
        assert(pool@ =~= self.pool());
        pool
    }
}

/// The pool is empty exactly when no class is enabled, and never holds more
/// than `MAX_POOL_SIZE` characters nor fewer than there are enabled classes.
pub proof fn lemma_pool_size(selection: Selection)
    ensures
        selection.pool().len() == 0 <==> selection.count() == 0,
        selection.count() <= selection.pool().len() <= MAX_POOL_SIZE,
        selection.pool().len() == selection.part(CharacterClass::Lowercase).len() + selection.part(
            CharacterClass::Uppercase,
        ).len() + selection.part(CharacterClass::Digit).len() + selection.part(
            CharacterClass::Special,
        ).len(),
{
    lemma_alphabet_len(CharacterClass::Lowercase);
    lemma_alphabet_len(CharacterClass::Uppercase);
    lemma_alphabet_len(CharacterClass::Digit);
    lemma_alphabet_len(CharacterClass::Special);
}

/// A character is in the pool exactly when it is in the alphabet of an
/// enabled class.
pub proof fn lemma_pool_membership(selection: Selection, c: char)
    ensures
        selection.pool().contains(c) <==> exists|class: CharacterClass|
            selection.enabled(class) && #[trigger] class.alphabet().contains(c),
{
    let a = selection.part(CharacterClass::Lowercase);
    let b = selection.part(CharacterClass::Uppercase);
    let d = selection.part(CharacterClass::Digit);
    let e = selection.part(CharacterClass::Special);
    let pool = selection.pool();
    if pool.contains(c) {
        let i = choose|i: int| 0 <= i < pool.len() && pool[i] == c;
        if i < a.len() {
            assert(a[i] == c);
            assert(CharacterClass::Lowercase.alphabet().contains(c));
        } else if i < a.len() + b.len() {
            assert(b[i - a.len()] == c);
            assert(CharacterClass::Uppercase.alphabet().contains(c));
        } else if i < a.len() + b.len() + d.len() {
            assert(d[i - a.len() - b.len()] == c);
            assert(CharacterClass::Digit.alphabet().contains(c));
        } else {
            assert(e[i - a.len() - b.len() - d.len()] == c);
            assert(CharacterClass::Special.alphabet().contains(c));
        }
    }
    if exists|class: CharacterClass|
        selection.enabled(class) && #[trigger] class.alphabet().contains(c) {
        let class = choose|class: CharacterClass|
            selection.enabled(class) && #[trigger] class.alphabet().contains(c);
        let part = class.alphabet();
        let j = choose|j: int| 0 <= j < part.len() && part[j] == c;
        let k = match class {
            CharacterClass::Lowercase => j,
            CharacterClass::Uppercase => a.len() as int + j,
            CharacterClass::Digit => (a.len() + b.len()) as int + j,
            CharacterClass::Special => (a.len() + b.len() + d.len()) as int + j,
        };
        assert(0 <= k < pool.len());
        assert(pool[k] == c);
    }
}

/// What two different classes contribute has no character in common.
pub proof fn lemma_parts_disjoint(
    selection: Selection,
    first: CharacterClass,
    second: CharacterClass,
    i: int,
    j: int,
)
    requires
        first != second,
        0 <= i < selection.part(first).len(),
        0 <= j < selection.part(second).len(),
    ensures
        selection.part(first)[i] != selection.part(second)[j],
{
    let c = selection.part(first)[i];
    assert(first.alphabet().contains(c));
    lemma_alphabets_disjoint(first, second, c);
    if selection.part(second)[j] == c {
        assert(second.alphabet().contains(c));
    }
}

/// The pool holds no character twice.
pub proof fn lemma_pool_no_duplicates(selection: Selection)
    ensures
        selection.pool().no_duplicates(),
{
    let a = selection.part(CharacterClass::Lowercase);
    let b = selection.part(CharacterClass::Uppercase);
    let d = selection.part(CharacterClass::Digit);
    let e = selection.part(CharacterClass::Special);
    lemma_alphabet_rises(CharacterClass::Lowercase);
    lemma_alphabet_rises(CharacterClass::Uppercase);
    lemma_alphabet_rises(CharacterClass::Digit);
    lemma_alphabet_rises(CharacterClass::Special);
    assert forall|i: int, j: int| 0 <= i < a.len() && 0 <= j < b.len() implies a[i] != b[j] by {
        lemma_parts_disjoint(selection, CharacterClass::Lowercase, CharacterClass::Uppercase, i, j);
    }
    lemma_no_dup_in_concat(a, b);
    assert forall|i: int, j: int| 0 <= i < (a + b).len() && 0 <= j < d.len() implies (a + b)[i]
        != d[j] by {
        if i < a.len() {
            lemma_parts_disjoint(selection, CharacterClass::Lowercase, CharacterClass::Digit, i, j);
        } else {
            lemma_parts_disjoint(
                selection,
                CharacterClass::Uppercase,
                CharacterClass::Digit,
                i - a.len(),
                j,
            );
        }
    }
    lemma_no_dup_in_concat(a + b, d);
    assert forall|i: int, j: int| 0 <= i < (a + b + d).len() && 0 <= j < e.len() implies (a + b
        + d)[i] != e[j] by {
        if i < a.len() {
            lemma_parts_disjoint(
                selection,
                CharacterClass::Lowercase,
                CharacterClass::Special,
                i,
                j,
            );
        } else if i < a.len() + b.len() {
            lemma_parts_disjoint(
                selection,
                CharacterClass::Uppercase,
                CharacterClass::Special,
                i - a.len(),
                j,
            );
        } else {
            lemma_parts_disjoint(
                selection,
                CharacterClass::Digit,
                CharacterClass::Special,
                i - a.len() - b.len(),
                j,
            );
        }
    }
    lemma_no_dup_in_concat(a + b + d, e);
}

/// The classes listed for a selection are the enabled ones, each once.
pub proof fn lemma_classes_enabled(selection: Selection)
    ensures
        selection.classes().no_duplicates(),
        forall|class: CharacterClass|
            selection.enabled(class) <==> #[trigger] selection.classes().contains(class),
{
    let classes = selection.classes();
    assert forall|class: CharacterClass| selection.enabled(class) implies classes.contains(
        class,
    ) by {
        let a = selection.class_part(CharacterClass::Lowercase).len();
        let b = selection.class_part(CharacterClass::Uppercase).len();
        let d = selection.class_part(CharacterClass::Digit).len();
        let k: int = match class {
            CharacterClass::Lowercase => 0,
            CharacterClass::Uppercase => a as int,
            CharacterClass::Digit => (a + b) as int,
            CharacterClass::Special => (a + b + d) as int,
        };
        assert(0 <= k < classes.len());
        assert(classes[k] == class);
    }
    assert forall|class: CharacterClass| classes.contains(class) implies selection.enabled(
        class,
    ) by {
        let i = choose|i: int| 0 <= i < classes.len() && classes[i] == class;
        assert(selection.enabled(classes[i]));
    }
}

} // verus!
