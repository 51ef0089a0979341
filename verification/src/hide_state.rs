//! The visibility state machine of a screen: hidden or visible, with a
//! separate bit for whether the element is fully removed from layout, so a
//! fade animation can finish before the element disappears:
//!
//! Visible(display_none: false) -> Hidden(false) -> Hidden(true)
//!   -> Visible(true) -> Visible(false) -> ...
//!
//! The `initial` bit marks a state that was never toggled, so the first
//! render plays no animation.
use vstd::prelude::*;
use vstd::string::*;

verus! {

#[derive(Clone, Copy, PartialEq, Eq, Structural)]
pub struct HideStateInner {
    pub display_none: bool,
    pub initial: bool,
}

#[derive(Clone, Copy, PartialEq, Eq, Structural)]
pub enum HideState {
    Hidden(HideStateInner),
    Visible(HideStateInner),
}

impl HideState {
    pub open spec fn inner(self) -> HideStateInner {
        match self {
            HideState::Hidden(inner) => inner,
            HideState::Visible(inner) => inner,
        }
    }

    pub open spec fn spec_is_hidden(self) -> bool {
        self is Hidden
    }

    /// The state's display name: a never-toggled state reads "Initial".
    pub open spec fn spec_state_name(self) -> Seq<char> {
        if self.inner().initial {
            "Initial"@
        } else if self is Hidden {
            "Hidden"@
        } else {
            "Visible"@
        }
    }

    pub fn new_hidden() -> (r: Self)
        ensures
            r == HideState::Hidden((HideStateInner { display_none: true, initial: true })),
    {
        Self::Hidden(HideStateInner { display_none: true, initial: true })
    }

    pub fn new_visible() -> (r: Self)
        ensures
            r == HideState::Visible((HideStateInner { display_none: false, initial: true })),
    {
        Self::Visible(HideStateInner { display_none: false, initial: true })
    }

    /// The inline style removing the element from layout, exactly when the
    /// display-none bit is set.
    pub fn display_none(&self) -> (r: Option<String>)
        ensures
            r is Some <==> self.inner().display_none,
            r matches Some(s) ==> s@ == "display: none;"@,
    {
        match self {
            HideState::Hidden(inner) | HideState::Visible(inner) => {
                if inner.display_none {
                    Some("display: none;".to_owned())
                } else {
                    None
                }
            },
        }
    }

    pub fn is_hidden(&self) -> (r: bool)
        ensures
            r == self.spec_is_hidden(),
    {
        matches!(self, Self::Hidden(_))
    }

    /// Swap hidden and visible; the display-none bit carries over, and the
    /// state is no longer initial.
    pub fn toggle(&mut self)
        ensures
            final(self).spec_is_hidden() == !old(self).spec_is_hidden(),
            final(self).inner().display_none == old(self).inner().display_none,
            final(self).inner().initial == false,
    {
        match self {
            HideState::Hidden(inner) => {
                *self = Self::Visible(
                    HideStateInner { display_none: inner.display_none, initial: false },
                );
            },
            HideState::Visible(inner) => {
                *self = Self::Hidden(
                    HideStateInner { display_none: inner.display_none, initial: false },
                );
            },
        }
    }

    /// Flip only the display-none bit.
    pub fn toggle_display_none(&mut self)
        ensures
            final(self).spec_is_hidden() == old(self).spec_is_hidden(),
            final(self).inner().display_none == !old(self).inner().display_none,
            final(self).inner().initial == old(self).inner().initial,
    {
        match self {
            HideState::Hidden(inner) => {
                inner.display_none = !inner.display_none;
            },
            HideState::Visible(inner) => {
                inner.display_none = !inner.display_none;
            },
        }
    }

    pub fn as_string(&self) -> (r: String)
        ensures
            r@ == self.spec_state_name(),
    {
        match self {
            HideState::Hidden(HideStateInner { display_none: _, initial: true })
            | HideState::Visible(HideStateInner { display_none: _, initial: true }) => {
                "Initial".to_owned()
            },
            HideState::Hidden(_inner) => "Hidden".to_owned(),
            HideState::Visible(_inner) => "Visible".to_owned(),
        }
    }
}

} // verus!
