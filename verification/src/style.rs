//! How a name looks in the listing: directories are highlighted, everything
//! else is printed as it is. The highlighting is done by `colored`, which
//! decides from the environment whether colours are in use at all.

use vstd::prelude::*;

verus! {

/// The escape sequence that switches the foreground to bright cyan.
pub open spec fn bright_cyan_code() -> Seq<char> {
    seq!['\u{1b}', '[', '9', '6', 'm']
}

/// The escape sequence that ends all styling.
pub open spec fn reset_code() -> Seq<char> {
    seq!['\u{1b}', '[', '0', 'm']
}

/// A name between the bright cyan sequence and the reset sequence.
pub open spec fn highlighted(name: Seq<char>) -> Seq<char> {
    bright_cyan_code() + name + reset_code()
}

/// Whether the reset sequence occurs in the name itself.
pub open spec fn holds_reset(name: Seq<char>) -> bool {
    exists|at: int|
        0 <= at && at + 4 <= name.len() && #[trigger] name.subrange(at, at + 4) == reset_code()
}

/// What the label of an entry may be. A file's label is its name. A
/// directory's label is its name where colours are off, and the highlighted
/// name where they are on. Of a directory whose name holds the reset
/// sequence nothing is said.
pub open spec fn is_label(name: Seq<char>, is_dir: bool, label: Seq<char>) -> bool {
    if is_dir {
        label == name || label == highlighted(name) || holds_reset(name)
    } else {
        label == name
    }
}

/// `colored::Colorize::normal` on the name, written out by the `Display` of
/// the `ColoredString` it returns.
///
/// Trusted: a string without colour or style is written as it is, whether
/// colours are in use or not.
#[verifier::external_body]
fn plain(name: &str) -> (label: String)
    ensures
        label@ == name@,
{
    colored::Colorize::normal(name).to_string()
}

/// `colored::Colorize::bright_cyan` on the name, written out by the `Display`
/// of the `ColoredString` it returns.
///
/// Trusted: where colours are not in use the name is written as it is; where
/// they are, it is written between `ESC[96m` and `ESC[0m`, and only a name
/// that holds `ESC[0m` itself is changed in between. Which of the two happens
/// depends on the environment, so the contract allows both.
#[verifier::external_body]
fn bright_cyan(name: &str) -> (label: String)
    ensures
        label@ == name@ || label@ == highlighted(name@) || holds_reset(name@),
{
    colored::Colorize::bright_cyan(name).to_string()
}

/// The label under which an entry is listed: the name, highlighted where the
/// entry is a directory.
pub fn format_name(is_dir: bool, name: &str) -> (label: String)
    ensures
        is_label(name@, is_dir, label@),
{
    if is_dir {
        bright_cyan(name)
    } else {
        plain(name)
    }
}

} // verus!
