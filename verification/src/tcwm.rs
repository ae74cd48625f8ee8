//! The window manager as its caller holds it: the tree of one terminal.

use vstd::prelude::*;
use crate::container::{ContainerView, WindowContainer};
use crate::ident::{Id, is_random};

verus! {

/// Why a window manager could not be made.
#[derive(Debug, PartialEq, Eq, Structural)]
pub enum CursesError {
    /// The terminal was set up before: it has its window manager already.
    CursesAlreadyInitialized,
}

/// The window manager of a terminal: the root of its tree.
pub struct Tcwm {
    pub root: WindowContainer,
}

impl Tcwm {
    /// Makes the window manager of a terminal of the given size, unless the
    /// terminal was set up before, which `initialized` says. The new tree is
    /// one container with one pane, both as large as the screen.
    pub fn new(initialized: bool, width: i32, height: i32) -> (r: Result<Tcwm, CursesError>)
        requires
            !initialized ==> 0 <= width && 0 <= height,
        ensures
            initialized ==> r == Err::<Tcwm, CursesError>(CursesError::CursesAlreadyInitialized),
            !initialized ==> r is Ok && r->Ok_0.root@.wf() && exists|id: Id, pane: Id|
                is_random(id) && is_random(pane) && r->Ok_0.root@ == #[trigger] ContainerView::initial(
                    id,
                    pane,
                    width as int,
                    height as int,
                ),
    {
        if initialized {
            return Err(CursesError::CursesAlreadyInitialized);
        }
        Ok(Tcwm { root: WindowContainer::new(width, height) })
    }
}

impl std::ops::Deref for Tcwm {
    type Target = WindowContainer;

    fn deref(&self) -> (c: &WindowContainer)
        ensures
            *c == self.root,
    {
        &self.root
    }
}

impl std::ops::DerefMut for Tcwm {
    fn deref_mut(&mut self) -> (c: &mut WindowContainer)
        ensures
            *c == old(self).root,
            final(self).root == *final(c),
    {
        &mut self.root
    }
}

} // verus!
