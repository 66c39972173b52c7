//! Building a password: draw from the pool, guarantee every enabled class a
//! character, shuffle, render.

use crate::alphabet::{lemma_alphabet_len, lemma_alphabets_disjoint, CharacterClass};
use crate::random::{choose_distinct, choose_one, drawn_without_repetition, picks_at, shuffle};
use crate::selection::{lemma_classes_enabled, lemma_pool_membership, lemma_pool_size, Selection};
use rand::rngs::ThreadRng;
use vstd::prelude::*;

verus! {

/// Why no password can be built for a request.
#[derive(Clone, Copy, Debug, PartialEq, Eq, Structural)]
pub enum GenerateError {
    /// No character class is enabled.
    NoClassSelected,
    /// The length leaves no room for one character of each enabled class.
    LengthBelowMinimum,
    /// The length is more than the pool has positions to draw from without
    /// repetition.
    LengthExceedsPool,
}

impl GenerateError {
    /// The text shown for the error.
    pub open spec fn text(self) -> Seq<char> {
        match self {
            GenerateError::NoClassSelected => "You must select at least one character type!"@,
            GenerateError::LengthBelowMinimum =>
                "Password length must cover every selected character type."@,
            GenerateError::LengthExceedsPool =>
                "Password length must not exceed the number of available characters."@,
        }
    }

    /// The text shown for the error.
    pub fn message(&self) -> (message: &'static str)
        ensures
            message@ == self.text(),
    {
        match self {
            GenerateError::NoClassSelected => "You must select at least one character type!",
            GenerateError::LengthBelowMinimum =>
                "Password length must cover every selected character type.",
            GenerateError::LengthExceedsPool =>
                "Password length must not exceed the number of available characters.",
        }
    }
}

/// `required` holds one character for each enabled class, in the fixed order
/// of the classes, each from the alphabet of its class.
pub open spec fn is_required_for(selection: Selection, required: Seq<char>) -> bool {
    &&& required.len() == selection.count()
    &&& forall|i: int|
        0 <= i < required.len() ==> #[trigger] selection.classes()[i].alphabet().contains(
            required[i],
        )
}

/// `password` has the length asked for, holds only characters of the pool,
/// and holds a character of every enabled class.
pub open spec fn is_password_for(selection: Selection, length: nat, password: Seq<char>) -> bool {
    &&& password.len() == length
    &&& forall|i: int| 0 <= i < password.len() ==> selection.pool().contains(#[trigger] password[i])
    &&& forall|class: CharacterClass| #[trigger]
        selection.enabled(class) ==> exists|i: int|
            0 <= i < password.len() && class.alphabet().contains(#[trigger] password[i])
}

/// `password` is a rearrangement of what the builder puts together from two
/// draws: `base`, `length` characters from pairwise different positions of
/// the pool, and `required`, one character for each enabled class, which
/// takes the place of the first characters of `base`.
pub open spec fn is_built_from(
    selection: Selection,
    length: nat,
    base: Seq<char>,
    required: Seq<char>,
    password: Seq<char>,
) -> bool {
    &&& base.len() == length
    &&& drawn_without_repetition(base, selection.pool())
    &&& is_required_for(selection, required)
    &&& required.len() <= length
    &&& password.to_multiset() == (required + base.subrange(
        required.len() as int,
        length as int,
    )).to_multiset()
}

/// The reason for which a request is refused, if it is: an empty selection
/// comes first, then a length under the number of enabled classes, then a
/// length over the size of the pool.
pub open spec fn refusal(selection: Selection, length: nat) -> Option<GenerateError> {
    if selection.count() == 0 {
        Some(GenerateError::NoClassSelected)
    } else if length < selection.count() {
        Some(GenerateError::LengthBelowMinimum)
    } else if length > selection.pool().len() {
        Some(GenerateError::LengthExceedsPool)
    } else {
        None
    }
}

/// Decides whether a password of `length` characters can be built for
/// `selection`.
pub fn check_request(selection: &Selection, length: usize) -> (outcome: Result<(), GenerateError>)
    ensures
        outcome == match refusal(*selection, length as nat) {
            Some(error) => Err::<(), GenerateError>(error),
            None => Ok::<(), GenerateError>(()),
        },
{
    let count: usize = selection.selected_count();
    if count == 0 {
        return Err(GenerateError::NoClassSelected);
    }
    if length < count {
        return Err(GenerateError::LengthBelowMinimum);
    }
    let pool = selection.character_pool();
    if length > pool.len() {
        return Err(GenerateError::LengthExceedsPool);
    }
    Ok(())
}

/// Draws one character from the alphabet of each enabled class, in the fixed
/// order of the classes.
pub fn draw_required(rng: &mut ThreadRng, selection: &Selection) -> (required: Vec<char>)
    ensures
        is_required_for(*selection, required@),
{
    let classes = selection.enabled_classes();
    let mut required: Vec<char> = Vec::new();
    let mut i: usize = 0;
    while i < classes.len()
        invariant
            classes@ == selection.classes(),
            i <= classes.len(),
            required.len() == i,
            forall|k: int|
                0 <= k < i ==> #[trigger] selection.classes()[k].alphabet().contains(required@[k]),
        decreases classes.len() - i,
    {
        let alphabet = classes[i].chars();
        proof {
            lemma_alphabet_len(classes[i as int]);
        }
        let picked = choose_one(rng, &alphabet);
        required.push(picked.unwrap());
        i = i + 1;
    }
    required
}

/// Puts `required` over the first positions of `password` and leaves the
/// rest as it is.
pub fn overwrite_front(password: &mut Vec<char>, required: &Vec<char>)
    requires
        required@.len() <= old(password)@.len(),
    ensures
        final(password)@ == required@ + old(password)@.subrange(
            required@.len() as int,
            old(password)@.len() as int,
        ),
{
    let mut i: usize = 0;
    while i < required.len()
        invariant
            i <= required.len(),
            required@.len() <= password@.len(),
            password@.len() == old(password)@.len(),
            forall|k: int| 0 <= k < i ==> password@[k] == required@[k],
            forall|k: int| i <= k < password@.len() ==> password@[k] == old(password)@[k],
        decreases required.len() - i,
    {
        password.set(i, required[i]);
        i = i + 1;
    }
    assert(password@ =~= required@ + old(password)@.subrange(
        required@.len() as int,
        old(password)@.len() as int,
    ));
}

/// The characters of `password` as a string.
pub fn render(password: &Vec<char>) -> (text: String)
    ensures
        text@ == password@,
{
    let mut text = String::new();
    let mut i: usize = 0;
    while i < password.len()
        invariant
            i <= password.len(),
            text@ == password@.subrange(0, i as int),
        decreases password.len() - i,
    {
        push_char(&mut text, password[i]);
        assert(text@ =~= password@.subrange(0, i + 1));
        i = i + 1;
    }
    assert(password@.subrange(0, password@.len() as int) =~= password@);
    text
}

/// `String::push`: appends one character to the string.
#[verifier::external_body]
pub(crate) fn push_char(text: &mut String, c: char)
    ensures
        final(text)@ == old(text)@.push(c),
{
    text.push(c)
}

/// A password for `selection` with exactly `length` characters, drawn with
/// the generator of the current thread.
///
/// The generator is seeded by the operating system; where the system gives
/// no seed, the call panics.
///
/// The request is refused where `refusal` says so. Otherwise `length`
/// characters are drawn from pairwise different positions of the pool, the
/// first of them are replaced by one character drawn from the alphabet of
/// each enabled class, and the whole is shuffled. So the password has the
/// length asked for, holds a character of every enabled class, and holds no
/// character of a class that is not enabled.
pub fn generate_password(selection: &Selection, length: usize) -> (outcome: Result<
    String,
    GenerateError,
>)
    ensures
        match outcome {
            Ok(password) => {
                &&& refusal(*selection, length as nat) is None
                &&& exists|base: Seq<char>, required: Seq<char>| #[trigger]
                    is_built_from(*selection, length as nat, base, required, password@)
                &&& is_password_for(*selection, length as nat, password@)
                &&& forall|class: CharacterClass, i: int|
                    !selection.enabled(class) && 0 <= i < password@.len()
                        ==> !#[trigger] class.alphabet().contains(password@[i])
            },
            Err(error) => refusal(*selection, length as nat) == Some(error),
        },
{
    match check_request(selection, length) {
        Err(error) => Err(error),
        Ok(()) => {
            let mut rng = rand::thread_rng();
            let pool = selection.character_pool();
            proof {
                lemma_pool_size(*selection);
            }
            let mut password = choose_distinct(&mut rng, &pool, length);
            let required = draw_required(&mut rng, selection);
            let ghost base = password@;
            overwrite_front(&mut password, &required);
            shuffle(&mut rng, &mut password);
            proof {
                assert(is_built_from(*selection, length as nat, base, required@, password@));
                lemma_built_is_password(*selection, length as nat, base, required@, password@);
                lemma_no_character_of_disabled_class(*selection, length as nat, password@);
            }
            Ok(render(&password))
        },
    }
}

/// What is drawn from positions of `items` is in `items`.
pub proof fn lemma_drawn_from_pool(picked: Seq<char>, items: Seq<char>)
    requires
        drawn_without_repetition(picked, items),
    ensures
        forall|i: int| 0 <= i < picked.len() ==> items.contains(#[trigger] picked[i]),
{
    let at = choose|at: Seq<int>| #[trigger] picks_at(picked, items, at);
    assert forall|i: int| 0 <= i < picked.len() implies items.contains(#[trigger] picked[i]) by {
        assert(0 <= at[i] < items.len());
        assert(items[at[i]] == picked[i]);
    }
}

/// What is drawn without repetition from items that are all different holds
/// no character twice.
pub proof fn lemma_draw_has_no_duplicates(picked: Seq<char>, items: Seq<char>)
    requires
        drawn_without_repetition(picked, items),
        items.no_duplicates(),
    ensures
        picked.no_duplicates(),
{
    let at = choose|at: Seq<int>| #[trigger] picks_at(picked, items, at);
    assert forall|i: int, j: int| 0 <= i < picked.len() && 0 <= j < picked.len() && i != j implies
        picked[i] != picked[j] by {
        assert(at[i] != at[j]);
        assert(picked[i] == items[at[i]]);
        assert(picked[j] == items[at[j]]);
    }
}

/// Characters of the pool with the required characters put over the first
/// positions make a password: the length stays, every character is of the
/// pool, and every enabled class has its character in front.
pub proof fn lemma_overwritten_is_password(
    selection: Selection,
    base: Seq<char>,
    required: Seq<char>,
)
    requires
        is_required_for(selection, required),
        required.len() <= base.len(),
        forall|i: int| 0 <= i < base.len() ==> selection.pool().contains(#[trigger] base[i]),
    ensures
        is_password_for(
            selection,
            base.len(),
            required + base.subrange(required.len() as int, base.len() as int),
        ),
{
    let password = required + base.subrange(required.len() as int, base.len() as int);
    let classes = selection.classes();
    lemma_classes_enabled(selection);
    assert forall|i: int| 0 <= i < password.len() implies selection.pool().contains(
        #[trigger] password[i],
    ) by {
        if i < required.len() {
            assert(classes[i].alphabet().contains(required[i]));
            assert(classes.contains(classes[i]));
            assert(selection.enabled(classes[i]));
            lemma_pool_membership(selection, required[i]);
        } else {
            assert(password[i] == base[i]);
        }
    }
    assert forall|class: CharacterClass| #[trigger] selection.enabled(class) implies exists|i: int|
        0 <= i < password.len() && class.alphabet().contains(#[trigger] password[i]) by {
        assert(classes.contains(class));
        let k = choose|k: int| 0 <= k < classes.len() && classes[k] == class;
        assert(classes[k].alphabet().contains(required[k]));
        assert(password[k] == required[k]);
    }
}

/// Whatever the two draws and the shuffle give, the outcome is a password for
/// the request: it has the length asked for, holds only characters of the
/// pool, and holds a character of every enabled class.
pub proof fn lemma_built_is_password(
    selection: Selection,
    length: nat,
    base: Seq<char>,
    required: Seq<char>,
    password: Seq<char>,
)
    requires
        is_built_from(selection, length, base, required, password),
    ensures
        is_password_for(selection, length, password),
{
    lemma_drawn_from_pool(base, selection.pool());
    lemma_overwritten_is_password(selection, base, required);
    lemma_rearranged_is_password(
        selection,
        length,
        required + base.subrange(required.len() as int, length as int),
        password,
    );
}

/// A rearrangement of a password is a password for the same request.
pub proof fn lemma_rearranged_is_password(
    selection: Selection,
    length: nat,
    before: Seq<char>,
    after: Seq<char>,
)
    requires
        is_password_for(selection, length, before),
        before.to_multiset() == after.to_multiset(),
    ensures
        is_password_for(selection, length, after),
{
    broadcast use vstd::seq_lib::group_to_multiset_ensures;

    assert(after.len() == after.to_multiset().len());
    assert(before.len() == before.to_multiset().len());
    assert forall|i: int| 0 <= i < after.len() implies selection.pool().contains(
        #[trigger] after[i],
    ) by {
        let c = after[i];
        assert(after.contains(c));
        assert(after.to_multiset().count(c) > 0);
        assert(before.contains(c));
    }
    assert forall|class: CharacterClass| #[trigger] selection.enabled(class) implies exists|i: int|
        0 <= i < after.len() && class.alphabet().contains(#[trigger] after[i]) by {
        let k = choose|k: int|
            0 <= k < before.len() && class.alphabet().contains(#[trigger] before[k]);
        let c = before[k];
        assert(before.contains(c));
        assert(before.to_multiset().count(c) > 0);
        assert(after.contains(c));
        let j = choose|j: int| 0 <= j < after.len() && after[j] == c;
        assert(class.alphabet().contains(after[j]));
    }
}

/// A password holds no character of a class that is not enabled.
pub proof fn lemma_no_character_of_disabled_class(
    selection: Selection,
    length: nat,
    password: Seq<char>,
)
    requires
        is_password_for(selection, length, password),
    ensures
        forall|class: CharacterClass, i: int|
            !selection.enabled(class) && 0 <= i < password.len()
                ==> !#[trigger] class.alphabet().contains(password[i]),
{
    assert forall|class: CharacterClass, i: int|
        !selection.enabled(class) && 0 <= i < password.len()
        implies !#[trigger] class.alphabet().contains(password[i]) by {
        let c = password[i];
        assert(selection.pool().contains(c));
        lemma_pool_membership(selection, c);
        let owner = choose|owner: CharacterClass|
            selection.enabled(owner) && #[trigger] owner.alphabet().contains(c);
        if class.alphabet().contains(c) {
            lemma_alphabets_disjoint(owner, class, c);
        }
    }
}

} // verus!
