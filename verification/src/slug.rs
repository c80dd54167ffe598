//! The public handle of a user: the snake-case form of the display name.

use vstd::prelude::*;

verus! {

/// The snake-case form of a text, as `inflector` computes it: the words of
/// the text in ASCII lowercase, joined by `_`.
pub uninterp spec fn snake_case_of(s: Seq<char>) -> Seq<char>;

/// `inflector::cases::snakecase::to_snake_case` returns the snake-case form
/// of its argument; the result depends on the characters of the argument
/// alone.
pub assume_specification[ inflector::cases::snakecase::to_snake_case ](
    non_snake_case_string: &str,
) -> (r: String)
    ensures
        r@ == snake_case_of(non_snake_case_string@),
;

/// A name has a fixed slug when deriving the slug again from the slug
/// itself changes nothing.
pub open spec fn has_slug(name: Seq<char>) -> bool {
    snake_case_of(snake_case_of(name)) == snake_case_of(name)
}

/// The slug of a name, where it is a fixed one.
pub open spec fn slug_of(name: Seq<char>) -> Option<Seq<char>> {
    if has_slug(name) {
        Some(snake_case_of(name))
    } else {
        None
    }
}

/// Derives the slug of a display name: its snake-case form.
pub fn derive_slug(name: &str) -> (slug: String)
    ensures
        slug@ == snake_case_of(name@),
{
    inflector::cases::snakecase::to_snake_case(name)
}

} // verus!
