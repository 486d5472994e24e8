//! The screens that the server shows to its clients.

use vstd::prelude::*;

verus! {

/// A screen.
#[derive(Debug, Clone, Copy, PartialEq, Eq, Structural)]
pub enum ScreenType {
    /// The screen that greets a new player.
    Welcome,
}

impl ScreenType {
    /// The directory that holds the screens, below the working directory.
    pub open spec fn directory() -> Seq<char> {
        "screens"@
    }

    /// The name of the file that holds this screen.
    pub open spec fn file(&self) -> Seq<char> {
        match self {
            ScreenType::Welcome => "00_welcome.ans"@,
        }
    }

    /// Returns the directory that holds the screens.
    pub fn directory_name() -> (r: &'static str)
        ensures
            r@ == ScreenType::directory(),
    {
        "screens"
    }

    /// Returns the name of the file that holds this screen.
    pub fn file_name(&self) -> (r: &'static str)
        ensures
            r@ == self.file(),
    {
        match self {
            ScreenType::Welcome => "00_welcome.ans",
        }
    }
}

} // verus!
