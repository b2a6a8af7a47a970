//! Display colors for contacts that arrive without one.
use random_color::RandomColor;
use vstd::prelude::*;

verus! {

/// Whether `c` is a digit or one of the letters `a` to `f`.
pub open spec fn is_hex_digit(c: char) -> bool {
    ('0' as u32 <= c as u32 <= '9' as u32) || ('a' as u32 <= c as u32 <= 'f' as u32)
}

/// Whether `s` is a color in the form `#rrggbb`: a hash sign and six
/// lower-case hexadecimal digits.
pub open spec fn is_hex_color(s: Seq<char>) -> bool {
    &&& s.len() == 7
    &&& s[0] == '#'
    &&& forall|i: int| 1 <= i < 7 ==> is_hex_digit(#[trigger] s[i])
}

/// Draws a random attractive color.
///
/// Trusted: the body calls `random_color::RandomColor::new` and then
/// `RandomColor::to_hex` on the generator it made. `to_hex` formats the three
/// bytes of the color it drew as `#{:02x}{:02x}{:02x}`, so whatever is drawn
/// the text is a hash sign followed by six lower-case hexadecimal digits.
/// Which color comes out is left open. The generator is seeded from the
/// operating system's source of randomness.
#[verifier::external_body]
pub(crate) fn random_hex_color() -> (color: String)
    ensures
        is_hex_color(color@),
{
    RandomColor::new().to_hex()
}

} // verus!
