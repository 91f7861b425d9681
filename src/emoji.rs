use vstd::prelude::*;

verus! {

/// An emoji with the plain text that stands in for it where the terminal
/// cannot show emoji.
#[derive(Clone, Copy, Debug, Eq, Hash, PartialEq)]
pub struct Emoji<'a>(pub &'a str, pub &'a str);

impl<'a> Emoji<'a> {
    pub fn new(emoji: &'a str, fallback: &'a str) -> (r: Self)
        ensures
            r.0 == emoji,
            r.1 == fallback,
    {
        Emoji(emoji, fallback)
    }

    /// The emoji where `enabled` (the terminal shows emoji), else the fallback.
    pub fn string(self, enabled: bool) -> (r: &'a str)
        ensures
            r == (if enabled {
                self.0
            } else {
                self.1
            }),
    {
        if enabled {
            self.0
        } else {
            self.1
        }
    }
}

} // verus!
