//! The dialogue box: whether it is shown, and what it says.

use vstd::prelude::*;

verus! {

/// The state of the dialogue box, polled once per frame by whoever draws it.
pub struct Dialogue {
    pub visible: bool,
    pub contents: String,
}

impl Dialogue {
    /// The dialogue box at start-up: hidden, with its opening line.
    pub fn init() -> (dialogue: Self)
        ensures
            !dialogue.visible,
            dialogue.contents@ == "What you've been referring to"@,
    {
        Self { visible: false, contents: "What you've been referring to".to_string() }
    }

    /// Shows the box; the text stays.
    pub fn show(&mut self)
        ensures
            final(self).visible,
            final(self).contents == old(self).contents,
    {
        self.visible = true;
    }

    /// Takes the box off the screen; the text stays.
    pub fn dismiss(&mut self)
        ensures
            !final(self).visible,
            final(self).contents == old(self).contents,
    {
        self.visible = false;
    }

    /// Replaces the text; the box stays shown or hidden as it was.
    pub fn set_text(&mut self, contents: String)
        ensures
            final(self).contents == contents,
            final(self).visible == old(self).visible,
    {
        self.contents = contents;
    }
}

} // verus!
