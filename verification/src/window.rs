use vstd::prelude::*;

use crate::changed::{Changed, ChangedFlag};
use crate::peano::{S, Z};
use crate::traits::{Construct, With};
use crate::usage::Usage;

verus! {

/// Tag component for a window that redraws unconditionally
#[derive(Debug, Default, Copy, Clone, PartialEq, Eq, PartialOrd, Ord, Hash)]
pub struct RedrawUnconditionally;

/// Usage tag: the size of a window
pub enum WindowSize {
    Tag,
}

/// Usage tag: the title of a window
pub enum WindowTitle {
    Tag,
}

pub type WindowTitleComponent = Usage<WindowTitle, Changed<&'static str>>;

/// The title of a window, flagged as changed so that it gets applied
pub struct WindowTitleBundle {
    pub title: WindowTitleComponent,
}

impl WindowTitleBundle {
    pub fn new(title: &'static str) -> (res: Self)
        ensures
            res.title.data.value() == title,
            res.title.data.made_flag(),
    {
        let title = <WindowTitleComponent as Construct<&'static str, S<Z>>>::construct(title);
        let title = <WindowTitleComponent as With<ChangedFlag, S<Z>>>::with(title, ChangedFlag(true));
        WindowTitleBundle { title }
    }
}

} // verus!
