//! The keys that stop a running scan.

use vstd::prelude::*;

verus! {

/// A key press, as far as the listener tells keys apart.
#[derive(Clone, Copy, PartialEq, Eq, Structural, Debug)]
pub enum Key {
    Char(char),
    Esc,
    Other,
}

/// Whether the key press stops the scan: `q` or `Q`, Ctrl+C, or Escape.
pub fn is_abort_key(key: Key, control: bool) -> (r: bool)
    ensures
        r == (key == Key::Char('q') || key == Key::Char('Q') || (key == Key::Char('c') && control)
            || key == Key::Esc),
{
    match key {
        Key::Char('q') | Key::Char('Q') => true,
        Key::Char('c') => control,
        Key::Esc => true,
        _ => false,
    }
}

} // verus!
