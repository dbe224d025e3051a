//! What the home page asks of a pane.

use crate::action::Action;
use crate::layout::Constraint;
use crate::state::State;
use core::convert::Infallible;
use vstd::prelude::*;

verus! {

/// A screen region that takes the focus, receives actions and declares the
/// height it would like.
///
/// The home page decides which pane is focused and tells the panes through
/// `focus` and `unfocus`; a pane does not take the focus by itself.
///
/// Each method comes with a relation between what it was given and what it
/// left behind. The home page proves nothing from these relations; it states
/// through them which calls it made, on which panes, in which order and with
/// which arguments. A pane that says nothing more of itself leaves them at
/// `true`.
pub trait Pane: Sized {
    /// Why a call on the pane failed.
    type Error;

    /// What one call of `init` may do.
    open spec fn init_step(pre: Self, state: State, post: Self, result: Result<(), Self::Error>) -> bool {
        true
    }

    /// What one call of `focus` may do.
    open spec fn focus_step(pre: Self, post: Self, result: Result<(), Self::Error>) -> bool {
        true
    }

    /// What one call of `unfocus` may do.
    open spec fn unfocus_step(pre: Self, post: Self, result: Result<(), Self::Error>) -> bool {
        true
    }

    /// What one call of `update` may do.
    open spec fn update_step(
        pre: Self,
        action: Action,
        state_pre: State,
        post: Self,
        state_post: State,
        result: Result<Option<Action>, Self::Error>,
    ) -> bool {
        true
    }

    /// What `height_constraint` may answer.
    open spec fn height_choice(pane: Self, height: Constraint) -> bool {
        true
    }

    /// Prepares the pane for a session.
    fn init(&mut self, state: &State) -> (result: Result<(), Self::Error>)
        ensures
            Self::init_step(*old(self), *state, *final(self), result),
    ;

    /// Tells the pane that it has the focus.
    fn focus(&mut self) -> (result: Result<(), Self::Error>)
        ensures
            Self::focus_step(*old(self), *final(self), result),
    ;

    /// Tells the pane that it has lost the focus.
    fn unfocus(&mut self) -> (result: Result<(), Self::Error>)
        ensures
            Self::unfocus_step(*old(self), *final(self), result),
    ;

    /// Hands the pane an action. The pane may change the shared state, and
    /// may answer with an action to dispatch next.
    fn update(&mut self, action: Action, state: &mut State) -> (result: Result<
        Option<Action>,
        Self::Error,
    >)
        ensures
            Self::update_step(*old(self), action, *old(state), *final(self), *final(state), result),
    ;

    /// The height the pane would like within its column.
    fn height_constraint(&self) -> (height: Constraint)
        ensures
            Self::height_choice(*self, height),
    ;
}

/// A pane with nothing of its own to show: it remembers whether it has the
/// focus, asks for a fixed height, and lets every action pass.
pub struct Blank {
    /// Whether the pane was last told that it has the focus.
    pub focused: bool,
    /// The height the pane asks for.
    pub height: Constraint,
}

impl Blank {
    /// A blank pane with no preference of its own for its height: it asks
    /// for an equal share of what its column has to give.
    pub fn new(focused: bool) -> (pane: Blank)
        ensures
            pane.focused == focused,
            pane.height == Constraint::Fill(1),
    {
        Blank { focused, height: Constraint::Fill(1) }
    }
}

impl Pane for Blank {
    type Error = Infallible;

    open spec fn init_step(pre: Self, state: State, post: Self, result: Result<(), Infallible>) -> bool {
        post == pre && result is Ok
    }

    open spec fn focus_step(pre: Self, post: Self, result: Result<(), Infallible>) -> bool {
        post.focused && post.height == pre.height && result is Ok
    }

    open spec fn unfocus_step(pre: Self, post: Self, result: Result<(), Infallible>) -> bool {
        !post.focused && post.height == pre.height && result is Ok
    }

    open spec fn update_step(
        pre: Self,
        action: Action,
        state_pre: State,
        post: Self,
        state_post: State,
        result: Result<Option<Action>, Infallible>,
    ) -> bool {
        post == pre && state_post == state_pre && result == Ok::<Option<Action>, Infallible>(None)
    }

    open spec fn height_choice(pane: Self, height: Constraint) -> bool {
        height == pane.height
    }

    fn init(&mut self, state: &State) -> (result: Result<(), Infallible>) {
        Ok(())
    }

    fn focus(&mut self) -> (result: Result<(), Infallible>) {
        self.focused = true;
        Ok(())
    }

    fn unfocus(&mut self) -> (result: Result<(), Infallible>) {
        self.focused = false;
        Ok(())
    }

    fn update(&mut self, action: Action, state: &mut State) -> (result: Result<
        Option<Action>,
        Infallible,
    >) {
        Ok(None)
    }

    fn height_constraint(&self) -> (height: Constraint) {
        self.height
    }
}

} // verus!
