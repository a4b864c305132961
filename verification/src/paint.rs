//! Decoration of finished text: none, or ANSI colour applied by `yansi`.

use vstd::prelude::*;
use vstd::string::*;

verus! {

/// The colours the report uses.
#[derive(Clone, Copy, Debug)]
pub enum Tint {
    Red,
    Green,
    Blue,
}

/// How the pieces of a report are decorated.
#[derive(Clone, Copy, Debug)]
pub enum Decor {
    /// Every piece stays as it is.
    Plain,
    /// Every piece is handed to `yansi`, which colours it while its global
    /// switch is on.
    Ansi,
}

/// The digit that selects `tint` as a foreground colour.
pub open spec fn ansi_code(tint: Tint) -> char {
    match tint {
        Tint::Red => '1',
        Tint::Green => '2',
        Tint::Blue => '4',
    }
}

/// `text` between the escape sequence that sets the foreground colour and the
/// one that resets all styling.
pub open spec fn ansi_wrapped(tint: Tint, text: Seq<char>) -> Seq<char> {
    seq!['\u{1b}', '[', '3', ansi_code(tint), 'm'] + text + seq!['\u{1b}', '[', '0', 'm']
}

/// `out` is `text` painted in `tint`: the text itself, or the text wrapped in
/// the colour's escape sequences.
pub open spec fn is_painted(tint: Tint, text: Seq<char>, out: Seq<char>) -> bool {
    out == text || out == ansi_wrapped(tint, text)
}

/// `yansi::Color::paint`, displayed: the painted text is written out through
/// its `Display` impl. While yansi's global switch is on, that is the text
/// between `ESC[3<n>m` and `ESC[0m`; while it is off, the text alone. Which
/// of the two comes back is not known here.
#[verifier::external_body]
fn paint(tint: Tint, text: &str) -> (r: String)
    ensures
        is_painted(tint, text@, r@),
{
    let color = match tint {
        Tint::Red => yansi::Color::Red,
        Tint::Green => yansi::Color::Green,
        Tint::Blue => yansi::Color::Blue,
    };
    color.paint(text).to_string()
}

/// Decorates `text`: unchanged under `Decor::Plain`, painted in `tint`
/// under `Decor::Ansi`.
pub fn decorate(decor: Decor, tint: Tint, text: &str) -> (r: String)
    ensures
        is_painted(tint, text@, r@),
        decor == Decor::Plain ==> r@ == text@,
{
    match decor {
        Decor::Plain => String::from_str(text),
        Decor::Ansi => paint(tint, text),
    }
}

} // verus!
