//! The home page: five panes, the focus among them, and the fullscreen
//! override.

use crate::action::{Action, EventResponse};
use crate::focus::{next_index, prev_index, toggle, toggled, wrap_next, wrap_prev};
use crate::key::{action_for_key, key_response, KeyEvent};
use crate::layout::{
    column_heights, follows, fullscreen_placements, grid_placements, inside, place_fullscreen,
    place_grid, split_columns, split_frame, stack, Columns, Constraint, Direction, FrameLayout,
    Rect,
};
use crate::pane::{Blank, Pane};
use crate::state::State;
use core::convert::Infallible;
use vstd::prelude::*;

verus! {

/// The number of panes of the home page.
pub const PANE_COUNT: usize = 5;

/// The home page. Its panes are, in this order, the list of endpoints, the
/// tag filter, the address bar, the request detail and the response detail.
pub struct Home<P: Pane> {
    panes: Vec<P>,
    focused_pane_index: usize,
    fullscreen_pane_index: Option<usize>,
    state: State,
}

impl<P: Pane> Home<P> {
    /// The panes, in their fixed order.
    pub closed spec fn panes_view(&self) -> Seq<P> {
        self.panes@
    }

    /// The index of the focused pane.
    pub closed spec fn focused(&self) -> usize {
        self.focused_pane_index
    }

    /// The index of the pane that has the whole content area, if one has.
    pub closed spec fn fullscreen(&self) -> Option<usize> {
        self.fullscreen_pane_index
    }

    /// The shared state.
    pub closed spec fn state_view(&self) -> State {
        self.state
    }

    /// Whether the page has its five panes, the focus on one of them, and the
    /// content area either shared or given to one of them. Every page that
    /// `new` makes is so, and every method keeps it so.
    pub open spec fn well_formed(&self) -> bool {
        &&& self.panes_view().len() == PANE_COUNT
        &&& self.focused() < PANE_COUNT
        &&& match self.fullscreen() {
            Some(index) => index < PANE_COUNT,
            None => true,
        }
    }

    /// The home page of a fresh session: the first pane focused, no pane
    /// fullscreen, the first operation of the document active and no tag
    /// filter.
    pub fn new(
        openapi_path: String,
        openapi_spec: oas3::Spec,
        apis: P,
        tags: P,
        address: P,
        request: P,
        response: P,
    ) -> (home: Self)
        ensures
            home.well_formed(),
            home.panes_view() == seq![apis, tags, address, request, response],
            home.focused() == 0,
            home.fullscreen() is None,
            home.state_view().openapi_path == openapi_path,
            home.state_view().openapi_spec == openapi_spec,
            home.state_view().active_operation_index == 0,
            home.state_view().active_tag_name is None,
    {
        let mut panes: Vec<P> = Vec::new();
        panes.push(apis);
        panes.push(tags);
        panes.push(address);
        panes.push(request);
        panes.push(response);
        Home {
            panes,
            focused_pane_index: 0,
            fullscreen_pane_index: None,
            state: State::new(openapi_path, openapi_spec),
        }
    }

    /// The index of the focused pane.
    pub fn focused_pane_index(&self) -> (index: usize)
        ensures
            index == self.focused(),
    {
        self.focused_pane_index
    }

    /// The index of the pane that has the whole content area, if one has.
    pub fn fullscreen_pane_index(&self) -> (index: Option<usize>)
        ensures
            index == self.fullscreen(),
    {
        self.fullscreen_pane_index
    }

    /// The shared state.
    pub fn state(&self) -> (state: &State)
        ensures
            *state == self.state_view(),
    {
        &self.state
    }

    /// The panes, in their fixed order.
    pub fn panes(&self) -> (panes: &Vec<P>)
        ensures
            panes@ == self.panes_view(),
    {
        &self.panes
    }

    /// Whether `post` differs from `pre` in no pane but those at `first` and
    /// `second`.
    pub open spec fn same_panes_but(pre: Self, post: Self, first: int, second: int) -> bool {
        &&& post.panes_view().len() == pre.panes_view().len()
        &&& forall|k: int|
            0 <= k < pre.panes_view().len() && k != first && k != second
                ==> #[trigger] post.panes_view()[k] == pre.panes_view()[k]
    }

    /// What a move of the focus to the pane at `target` leaves behind. If it
    /// succeeds, the pane that had the focus has been told so by one call of
    /// `unfocus`, then the pane at `target` by one call of `focus`, and the
    /// focus is at `target`. If `unfocus` fails, the focus stays where it was
    /// and `focus` is not called; if `focus` fails, the focus is at `target`
    /// all the same. No other pane is called, and the shared state and the
    /// fullscreen override stay as they were.
    pub open spec fn refocused(
        pre: Self,
        post: Self,
        target: int,
        result: Result<Option<Action>, P::Error>,
    ) -> bool {
        let source = pre.focused() as int;
        &&& Self::same_panes_but(pre, post, source, target)
        &&& post.state_view() == pre.state_view()
        &&& post.fullscreen() == pre.fullscreen()
        &&& match result {
            Ok(follow_up) => {
                &&& follow_up is None
                &&& post.focused() == target
                &&& P::unfocus_step(pre.panes_view()[source], post.panes_view()[source], Ok(()))
                &&& P::focus_step(pre.panes_view()[target], post.panes_view()[target], Ok(()))
            },
            Err(error) => {
                ||| {
                    &&& post.focused() == source
                    &&& P::unfocus_step(
                        pre.panes_view()[source],
                        post.panes_view()[source],
                        Err(error),
                    )
                    &&& post.panes_view()[target] == pre.panes_view()[target]
                }
                ||| {
                    &&& post.focused() == target
                    &&& P::unfocus_step(pre.panes_view()[source], post.panes_view()[source], Ok(()))
                    &&& P::focus_step(
                        pre.panes_view()[target],
                        post.panes_view()[target],
                        Err(error),
                    )
                }
            },
        }
    }

    /// What handing `action` to the focused pane leaves behind: one call of
    /// `update` on that pane, with the action and the shared state, whose
    /// answer is the result. No other pane is called, and the focus and the
    /// fullscreen override stay as they were.
    pub open spec fn forwarded(
        pre: Self,
        post: Self,
        action: Action,
        result: Result<Option<Action>, P::Error>,
    ) -> bool {
        let focused = pre.focused() as int;
        &&& Self::same_panes_but(pre, post, focused, focused)
        &&& post.focused() == pre.focused()
        &&& post.fullscreen() == pre.fullscreen()
        &&& P::update_step(
            pre.panes_view()[focused],
            action,
            pre.state_view(),
            post.panes_view()[focused],
            post.state_view(),
            result,
        )
    }

    /// Whether the first `count` panes were handed `Action::Update` one after
    /// another, from the first on, each with the shared state as the pane
    /// before it left it, and each succeeded: `start` is the shared state
    /// before the first of these calls and `end` the one after the last.
    pub open spec fn updated_through(
        before: Seq<P>,
        after: Seq<P>,
        start: State,
        end: State,
        count: int,
    ) -> bool
        decreases count,
    {
        if count <= 0 {
            end == start
        } else {
            exists|between: State, answer: Option<Action>|
                {
                    &&& Self::updated_through(before, after, start, between, count - 1)
                    &&& #[trigger] P::update_step(
                        before[count - 1],
                        Action::Update,
                        between,
                        after[count - 1],
                        end,
                        Ok(answer),
                    )
                }
        }
    }

    /// What handing `Action::Update` to every pane leaves behind. If it
    /// succeeds, every pane has been handed the action once, in the order of
    /// the panes, and what the panes answered is dropped. If a pane fails,
    /// the panes before it have been handed the action and the panes after
    /// it have not been called. The focus and the fullscreen override stay
    /// as they were.
    pub open spec fn broadcast(pre: Self, post: Self, result: Result<Option<Action>, P::Error>) -> bool {
        &&& post.panes_view().len() == pre.panes_view().len()
        &&& post.focused() == pre.focused()
        &&& post.fullscreen() == pre.fullscreen()
        &&& match result {
            Ok(follow_up) => {
                &&& follow_up is None
                &&& Self::updated_through(
                    pre.panes_view(),
                    post.panes_view(),
                    pre.state_view(),
                    post.state_view(),
                    PANE_COUNT as int,
                )
            },
            Err(error) => exists|failed: int, between: State|
                {
                    &&& 0 <= failed < PANE_COUNT
                    &&& Self::updated_through(
                        pre.panes_view(),
                        post.panes_view(),
                        pre.state_view(),
                        between,
                        failed,
                    )
                    &&& #[trigger] P::update_step(
                        pre.panes_view()[failed],
                        Action::Update,
                        between,
                        post.panes_view()[failed],
                        post.state_view(),
                        Err(error),
                    )
                    &&& forall|k: int|
                        failed < k < PANE_COUNT ==> #[trigger] post.panes_view()[k]
                            == pre.panes_view()[k]
                },
        }
    }

    /// What `init` leaves behind. If it succeeds, every pane has been
    /// prepared by one call of `init` with the shared state. If a pane fails,
    /// the panes before it have been prepared and the panes after it have not
    /// been called. The shared state, the focus and the fullscreen override
    /// stay as they were.
    pub open spec fn initialized(pre: Self, post: Self, result: Result<(), P::Error>) -> bool {
        &&& post.panes_view().len() == pre.panes_view().len()
        &&& post.focused() == pre.focused()
        &&& post.fullscreen() == pre.fullscreen()
        &&& post.state_view() == pre.state_view()
        &&& match result {
            Ok(_) => forall|k: int|
                0 <= k < PANE_COUNT ==> P::init_step(
                    #[trigger] pre.panes_view()[k],
                    pre.state_view(),
                    post.panes_view()[k],
                    Ok(()),
                ),
            Err(error) => exists|failed: int|
                {
                    &&& 0 <= failed < PANE_COUNT
                    &&& forall|k: int|
                        0 <= k < failed ==> P::init_step(
                            #[trigger] pre.panes_view()[k],
                            pre.state_view(),
                            post.panes_view()[k],
                            Ok(()),
                        )
                    &&& #[trigger] P::init_step(
                        pre.panes_view()[failed],
                        pre.state_view(),
                        post.panes_view()[failed],
                        Err(error),
                    )
                    &&& forall|k: int|
                        failed < k < PANE_COUNT ==> #[trigger] post.panes_view()[k]
                            == pre.panes_view()[k]
                },
        }
    }

    /// Prepares the panes for a session, from the first on, and stops at the
    /// first that fails.
    pub fn init(&mut self) -> (result: Result<(), P::Error>)
        requires
            old(self).well_formed(),
        ensures
            final(self).well_formed(),
            Self::initialized(*old(self), *final(self), result),
    {
        let mut i: usize = 0;
        while i < PANE_COUNT
            invariant
                i <= PANE_COUNT,
                self.well_formed(),
                old(self).panes_view().len() == PANE_COUNT,
                self.focused() == old(self).focused(),
                self.fullscreen() == old(self).fullscreen(),
                self.state_view() == old(self).state_view(),
                forall|k: int|
                    0 <= k < i ==> P::init_step(
                        #[trigger] old(self).panes_view()[k],
                        old(self).state_view(),
                        self.panes_view()[k],
                        Ok(()),
                    ),
                forall|k: int|
                    i <= k < PANE_COUNT ==> #[trigger] self.panes_view()[k] == old(
                        self,
                    ).panes_view()[k],
            decreases PANE_COUNT - i,
        {
            let ghost before = *self;
            let prepared = self.panes[i].init(&self.state);
            assert(before.panes_view()[i as int] == old(self).panes_view()[i as int]);
            assert(forall|k: int|
                0 <= k < PANE_COUNT && k != i ==> #[trigger] self.panes_view()[k]
                    == before.panes_view()[k]);
            match prepared {
                Ok(()) => {},
                Err(error) => {
                    assert(P::init_step(
                        old(self).panes_view()[i as int],
                        old(self).state_view(),
                        self.panes_view()[i as int],
                        Err(error),
                    ));
                    return Err(error);
                },
            }
            proof {
                lemma_plain_success(prepared);
            }
            i += 1;
        }
        Ok(())
    }

    /// Hands `Action::Update` to every pane, from the first on, and stops at
    /// the first that fails.
    fn update_all(&mut self) -> (result: Result<Option<Action>, P::Error>)
        requires
            old(self).well_formed(),
        ensures
            final(self).well_formed(),
            Self::broadcast(*old(self), *final(self), result),
    {
        let mut i: usize = 0;
        while i < PANE_COUNT
            invariant
                i <= PANE_COUNT,
                self.well_formed(),
                old(self).panes_view().len() == PANE_COUNT,
                self.focused() == old(self).focused(),
                self.fullscreen() == old(self).fullscreen(),
                Self::updated_through(
                    old(self).panes_view(),
                    self.panes_view(),
                    old(self).state_view(),
                    self.state_view(),
                    i as int,
                ),
                forall|k: int|
                    i <= k < PANE_COUNT ==> #[trigger] self.panes_view()[k] == old(
                        self,
                    ).panes_view()[k],
            decreases PANE_COUNT - i,
        {
            let ghost before = *self;
            let answer = self.panes[i].update(Action::Update, &mut self.state);
            proof {
                Self::lemma_updated_through_frame(
                    old(self).panes_view(),
                    before.panes_view(),
                    self.panes_view(),
                    old(self).state_view(),
                    before.state_view(),
                    i as int,
                );
            }
            assert(before.panes_view()[i as int] == old(self).panes_view()[i as int]);
            assert(forall|k: int|
                0 <= k < PANE_COUNT && k != i ==> #[trigger] self.panes_view()[k]
                    == before.panes_view()[k]);
            match answer {
                Ok(follow_up) => {
                    assert(P::update_step(
                        old(self).panes_view()[i + 1 - 1],
                        Action::Update,
                        before.state_view(),
                        self.panes_view()[i + 1 - 1],
                        self.state_view(),
                        Ok(follow_up),
                    ));
                },
                Err(error) => {
                    assert(P::update_step(
                        old(self).panes_view()[i as int],
                        Action::Update,
                        before.state_view(),
                        self.panes_view()[i as int],
                        self.state_view(),
                        Err(error),
                    ));
                    return Err(error);
                },
            }
            i += 1;
        }
        Ok(None)
    }

    /// Whether the first `count` panes were updated depends on the first
    /// `count` panes alone.
    proof fn lemma_updated_through_frame(
        before: Seq<P>,
        after: Seq<P>,
        later: Seq<P>,
        start: State,
        end: State,
        count: int,
    )
        requires
            Self::updated_through(before, after, start, end, count),
            forall|k: int| 0 <= k < count ==> #[trigger] later[k] == after[k],
        ensures
            Self::updated_through(before, later, start, end, count),
        decreases count,
    {
        if count > 0 {
            let (between, answer) = choose|between: State, answer: Option<Action>|
                {
                    &&& Self::updated_through(before, after, start, between, count - 1)
                    &&& #[trigger] P::update_step(
                        before[count - 1],
                        Action::Update,
                        between,
                        after[count - 1],
                        end,
                        Ok(answer),
                    )
                };
            Self::lemma_updated_through_frame(before, after, later, start, between, count - 1);
            assert(later[count - 1] == after[count - 1]);
        }
    }

    /// What one call of `update` with `action` leaves behind.
    ///
    /// `Tick` changes nothing. The fullscreen toggle gives the content area
    /// to the focused pane, or takes it back from whichever pane had it, and
    /// changes nothing else. `FocusNext` and `FocusPrev` move the focus to
    /// the next and the previous pane of the cycle as [`Self::refocused`] says,
    /// `Update` goes to every pane as [`Self::broadcast`] says, and every
    /// other action goes to the focused pane as [`Self::forwarded`] says.
    pub open spec fn updated(
        pre: Self,
        action: Action,
        post: Self,
        result: Result<Option<Action>, P::Error>,
    ) -> bool {
        match action {
            Action::Tick => post == pre && result == Ok::<Option<Action>, P::Error>(None),
            Action::ToggleFullScreen => {
                &&& result == Ok::<Option<Action>, P::Error>(None)
                &&& post.fullscreen() == toggled(pre.fullscreen(), pre.focused())
                &&& post.focused() == pre.focused()
                &&& post.panes_view() == pre.panes_view()
                &&& post.state_view() == pre.state_view()
            },
            Action::FocusNext => Self::refocused(
                pre,
                post,
                next_index(pre.focused() as int, PANE_COUNT as int),
                result,
            ),
            Action::FocusPrev => Self::refocused(
                pre,
                post,
                prev_index(pre.focused() as int, PANE_COUNT as int),
                result,
            ),
            Action::Update => Self::broadcast(pre, post, result),
            _ => Self::forwarded(pre, post, action, result),
        }
    }

    /// Carries out an action.
    ///
    /// The home page itself carries out `Tick`, `FocusNext`, `FocusPrev`,
    /// `Update` and `ToggleFullScreen`; every other action goes to the
    /// focused pane, and what the pane answers is the result. A failure of a
    /// pane ends the call at once and is the result.
    pub fn update(&mut self, action: Action) -> (result: Result<Option<Action>, P::Error>)
        requires
            old(self).well_formed(),
        ensures
            final(self).well_formed(),
            Self::updated(*old(self), action, *final(self), result),
            action is Tick || action is ToggleFullScreen ==> result is Ok,
    {
        match action {
            Action::Tick => Ok(None),
            Action::FocusNext => {
                let target = wrap_next(self.focused_pane_index, PANE_COUNT);
                self.move_focus(target)
            },
            Action::FocusPrev => {
                let target = wrap_prev(self.focused_pane_index, PANE_COUNT);
                self.move_focus(target)
            },
            Action::Update => self.update_all(),
            Action::ToggleFullScreen => {
                self.fullscreen_pane_index = toggle(self.fullscreen_pane_index, self.focused_pane_index);
                Ok(None)
            },
            _ => {
                let focused = self.focused_pane_index;
                self.panes[focused].update(action, &mut self.state)
            },
        }
    }

    /// Moves the focus to the pane at `target`.
    fn move_focus(&mut self, target: usize) -> (result: Result<Option<Action>, P::Error>)
        requires
            old(self).well_formed(),
            target < PANE_COUNT,
            target != old(self).focused(),
        ensures
            final(self).well_formed(),
            Self::refocused(*old(self), *final(self), target as int, result),
    {
        let source = self.focused_pane_index;
        let unfocused = self.panes[source].unfocus();
        assert(P::unfocus_step(
            old(self).panes_view()[source as int],
            self.panes_view()[source as int],
            unfocused,
        ));
        assert(Self::same_panes_but(*old(self), *self, source as int, source as int));
        match unfocused {
            Ok(()) => {},
            Err(error) => {
                return Err(error);
            },
        }
        proof {
            lemma_plain_success(unfocused);
        }
        self.focused_pane_index = target;
        let ghost between = *self;
        let focused = self.panes[target].focus();
        assert(P::focus_step(between.panes_view()[target as int], self.panes_view()[target as int], focused));
        assert(self.panes_view()[source as int] == between.panes_view()[source as int]);
        match focused {
            Ok(()) => {},
            Err(error) => {
                return Err(error);
            },
        }
        proof {
            lemma_plain_success(focused);
        }
        Ok(None)
    }

    /// The heights that the panes ask for, in the order of the panes.
    pub fn heights(&self) -> (heights: Vec<Constraint>)
        requires
            self.well_formed(),
        ensures
            heights@.len() == PANE_COUNT,
            forall|k: int|
                0 <= k < PANE_COUNT ==> P::height_choice(
                    self.panes_view()[k],
                    #[trigger] heights@[k],
                ),
    {
        let mut heights: Vec<Constraint> = Vec::new();
        let mut i: usize = 0;
        while i < PANE_COUNT
            invariant
                i <= PANE_COUNT,
                self.well_formed(),
                heights@.len() == i,
                forall|k: int|
                    0 <= k < i ==> P::height_choice(self.panes_view()[k], #[trigger] heights@[k]),
            decreases PANE_COUNT - i,
        {
            heights.push(self.panes[i].height_constraint());
            i += 1;
        }
        heights
    }

    /// The partition of a frame.
    ///
    /// The frame is cut into the content area and, below it, the status
    /// line. If a pane is fullscreen, it alone is placed, on the whole
    /// content area. Otherwise the content area is cut into a left and a
    /// right column; the first two panes lie in the left column and the
    /// other three in the right one, each below the one before it, and each
    /// column is cut by the heights that its panes ask for. How many rows
    /// and columns each part gets is the solver's choice.
    pub fn layout(&self, area: Rect) -> (layout: FrameLayout)
        requires
            self.well_formed(),
        ensures
            inside(Direction::Vertical, area, layout.content),
            inside(Direction::Vertical, area, layout.status),
            follows(Direction::Vertical, layout.content, layout.status),
            match self.fullscreen() {
                Some(pane) => {
                    &&& layout.columns is None
                    &&& layout.panes@ == fullscreen_placements(pane, layout.content)
                },
                None => {
                    &&& layout.columns matches Some(columns)
                    &&& inside(Direction::Horizontal, layout.content, columns.left)
                    &&& inside(Direction::Horizontal, layout.content, columns.right)
                    &&& follows(Direction::Horizontal, columns.left, columns.right)
                    &&& columns.left_heights@.len() == 2
                    &&& columns.right_heights@.len() == 3
                    &&& forall|k: int|
                        0 <= k < 2 ==> P::height_choice(
                            self.panes_view()[k],
                            #[trigger] columns.left_heights@[k],
                        )
                    &&& forall|k: int|
                        0 <= k < 3 ==> P::height_choice(
                            self.panes_view()[k + 2],
                            #[trigger] columns.right_heights@[k],
                        )
                    &&& layout.panes@.len() == PANE_COUNT
                    &&& forall|k: int|
                        0 <= k < PANE_COUNT ==> {
                            &&& (#[trigger] layout.panes@[k]).pane == k
                            &&& inside(
                                Direction::Vertical,
                                if k < 2 {
                                    columns.left
                                } else {
                                    columns.right
                                },
                                layout.panes@[k].area,
                            )
                        }
                    &&& follows(Direction::Vertical, layout.panes@[0].area, layout.panes@[1].area)
                    &&& follows(Direction::Vertical, layout.panes@[2].area, layout.panes@[3].area)
                    &&& follows(Direction::Vertical, layout.panes@[3].area, layout.panes@[4].area)
                },
            },
    {
        let (content, status) = split_frame(area);
        match self.fullscreen_pane_index {
            Some(pane) => FrameLayout {
                content,
                status,
                columns: None,
                panes: place_fullscreen(pane, content),
            },
            None => {
                let (left, right) = split_columns(content);
                let (left_heights, right_heights) = column_heights(self.heights());
                let left_parts = stack(&left_heights, left);
                let right_parts = stack(&right_heights, right);
                let panes = place_grid(&left_parts, &right_parts);
                assert(panes@ == grid_placements(left_parts@, right_parts@));
                FrameLayout {
                    content,
                    status,
                    columns: Some(Columns { left, right, left_heights, right_heights }),
                    panes,
                }
            },
        }
    }

    /// What a key stands for: the action bound to it, marked as using the
    /// key up, or nothing for a key without a binding. The home page stays as
    /// it is.
    pub fn handle_key_events(&mut self, key: KeyEvent) -> (result: Result<
        Option<EventResponse<Action>>,
        P::Error,
    >)
        ensures
            result == Ok::<Option<EventResponse<Action>>, P::Error>(key_response(key.code)),
            *final(self) == *old(self),
    {
        match action_for_key(key.code) {
            Some(action) => Ok(Some(EventResponse::Stop(action))),
            None => Ok(None),
        }
    }

    /// A move to the next pane followed by a move to the previous one ends
    /// on the pane where it began. Each of the two calls tells one pane that
    /// it lost the focus and one pane that it gained it, and the other three
    /// panes, the shared state and the fullscreen override are as they were.
    pub proof fn lemma_next_then_prev(
        start: Self,
        between: Self,
        end: Self,
        first: Result<Option<Action>, P::Error>,
        second: Result<Option<Action>, P::Error>,
    )
        requires
            start.well_formed(),
            Self::updated(start, Action::FocusNext, between, first),
            first is Ok,
            Self::updated(between, Action::FocusPrev, end, second),
            second is Ok,
        ensures
            between.focused() == next_index(start.focused() as int, PANE_COUNT as int),
            end.focused() == start.focused(),
            Self::told_both(start, between, start.focused() as int, between.focused() as int),
            Self::told_both(between, end, between.focused() as int, start.focused() as int),
            Self::same_panes_but(start, end, start.focused() as int, between.focused() as int),
            end.state_view() == start.state_view(),
            end.fullscreen() == start.fullscreen(),
    {
        crate::focus::lemma_next_prev_inverse(start.focused() as int, PANE_COUNT as int);
    }

    /// A move to the previous pane followed by a move to the next one ends
    /// on the pane where it began. Each of the two calls tells one pane that
    /// it lost the focus and one pane that it gained it, and the other three
    /// panes, the shared state and the fullscreen override are as they were.
    pub proof fn lemma_prev_then_next(
        start: Self,
        between: Self,
        end: Self,
        first: Result<Option<Action>, P::Error>,
        second: Result<Option<Action>, P::Error>,
    )
        requires
            start.well_formed(),
            Self::updated(start, Action::FocusPrev, between, first),
            first is Ok,
            Self::updated(between, Action::FocusNext, end, second),
            second is Ok,
        ensures
            between.focused() == prev_index(start.focused() as int, PANE_COUNT as int),
            end.focused() == start.focused(),
            Self::told_both(start, between, start.focused() as int, between.focused() as int),
            Self::told_both(between, end, between.focused() as int, start.focused() as int),
            Self::same_panes_but(start, end, start.focused() as int, between.focused() as int),
            end.state_view() == start.state_view(),
            end.fullscreen() == start.fullscreen(),
    {
        crate::focus::lemma_next_prev_inverse(start.focused() as int, PANE_COUNT as int);
    }

    /// Whether, from `pre` to `post`, the pane at `source` went through one
    /// successful call of `unfocus` and the pane at `target` through one
    /// successful call of `focus`.
    pub open spec fn told_both(pre: Self, post: Self, source: int, target: int) -> bool {
        &&& P::unfocus_step(pre.panes_view()[source], post.panes_view()[source], Ok(()))
        &&& P::focus_step(pre.panes_view()[target], post.panes_view()[target], Ok(()))
    }

    /// Whether, over the moves from each page of `pages` to the one after
    /// it, the pane at `pane` went through one successful call of `unfocus`,
    /// in the move at `lost`, and one successful call of `focus`, in the move
    /// at `gained`, and was as it was after every other move.
    pub open spec fn told_once(pages: Seq<Self>, pane: int, lost: int, gained: int) -> bool {
        &&& 0 <= lost < PANE_COUNT
        &&& 0 <= gained < PANE_COUNT
        &&& lost != gained
        &&& P::unfocus_step(
            pages[lost].panes_view()[pane],
            pages[lost + 1].panes_view()[pane],
            Ok(()),
        )
        &&& P::focus_step(
            pages[gained].panes_view()[pane],
            pages[gained + 1].panes_view()[pane],
            Ok(()),
        )
        &&& forall|t: int|
            0 <= t < PANE_COUNT && t != lost && t != gained ==> (#[trigger] pages[t + 1]).panes_view()[pane]
                == pages[t].panes_view()[pane]
    }

    /// Whether, over the moves from each page of `pages` to the one after
    /// it, the pane at `pane` was told once that it lost the focus and once
    /// that it gained it, and was as it was after every other move.
    pub open spec fn told_in_turn(pages: Seq<Self>, pane: int) -> bool {
        exists|lost: int, gained: int| #[trigger] Self::told_once(pages, pane, lost, gained)
    }

    /// As many moves to the next pane as there are panes bring the focus
    /// back to the pane where it began. Over these moves every pane is told
    /// once that it lost the focus and once that it gained it, so `unfocus`
    /// and `focus` are each called as many times as there are panes.
    pub proof fn lemma_focus_cycle(pages: Seq<Self>, results: Seq<Result<Option<Action>, P::Error>>)
        requires
            pages.len() == PANE_COUNT + 1,
            results.len() == PANE_COUNT,
            pages[0].well_formed(),
            forall|t: int|
                0 <= t < PANE_COUNT ==> Self::updated(
                    #[trigger] pages[t],
                    Action::FocusNext,
                    pages[t + 1],
                    results[t],
                ) && results[t] is Ok,
        ensures
            pages[PANE_COUNT as int].focused() == pages[0].focused(),
            forall|t: int|
                0 <= t <= PANE_COUNT ==> (#[trigger] pages[t]).focused() == crate::focus::advance(
                    pages[0].focused() as int,
                    PANE_COUNT as int,
                    t as nat,
                ),
            forall|pane: int| 0 <= pane < PANE_COUNT ==> #[trigger] Self::told_in_turn(pages, pane),
    {
        let start = pages[0].focused() as int;
        Self::lemma_move_on_pane(pages[0], pages[1], results[0], 0);
        Self::lemma_move_on_pane(pages[1], pages[2], results[1], 0);
        Self::lemma_move_on_pane(pages[2], pages[3], results[2], 0);
        Self::lemma_move_on_pane(pages[3], pages[4], results[3], 0);
        Self::lemma_move_on_pane(pages[4], pages[5], results[4], 0);
        assert forall|t: int| 0 <= t <= PANE_COUNT implies (#[trigger] pages[t]).focused()
            == crate::focus::advance(start, PANE_COUNT as int, t as nat) by {
            crate::focus::lemma_advance(start, PANE_COUNT as int, t as nat);
        }
        assert forall|pane: int| 0 <= pane < PANE_COUNT implies #[trigger] Self::told_in_turn(
            pages,
            pane,
        ) by {
            Self::lemma_move_on_pane(pages[0], pages[1], results[0], pane);
            Self::lemma_move_on_pane(pages[1], pages[2], results[1], pane);
            Self::lemma_move_on_pane(pages[2], pages[3], results[2], pane);
            Self::lemma_move_on_pane(pages[3], pages[4], results[3], pane);
            Self::lemma_move_on_pane(pages[4], pages[5], results[4], pane);
            Self::lemma_told_in_turn(pages, pane);
        }
    }

    /// Whether `post` is `pre` after a move of the focus to the next pane,
    /// as far as the focus and the pane at `pane` go.
    spec fn moved_on(pre: Self, post: Self, pane: int) -> bool {
        &&& pre.focused() < PANE_COUNT
        &&& post.focused() == (pre.focused() + 1) % (PANE_COUNT as int)
        &&& pane == pre.focused() ==> P::unfocus_step(
            pre.panes_view()[pane],
            post.panes_view()[pane],
            Ok(()),
        )
        &&& pane == post.focused() ==> P::focus_step(
            pre.panes_view()[pane],
            post.panes_view()[pane],
            Ok(()),
        )
        &&& pane != pre.focused() && pane != post.focused() ==> post.panes_view()[pane]
            == pre.panes_view()[pane]
    }

    /// What one successful move to the next pane does to the focus and to
    /// the pane at `pane`.
    proof fn lemma_move_on_pane(
        pre: Self,
        post: Self,
        result: Result<Option<Action>, P::Error>,
        pane: int,
    )
        requires
            pre.focused() < PANE_COUNT,
            pre.panes_view().len() == PANE_COUNT,
            0 <= pane < PANE_COUNT,
            Self::updated(pre, Action::FocusNext, post, result),
            result is Ok,
        ensures
            Self::moved_on(pre, post, pane),
            post.focused() < PANE_COUNT,
            post.panes_view().len() == PANE_COUNT,
    {
    }

    /// Whether the pane at `pane` is the same in the page at `t` and in the
    /// page after it.
    spec fn kept(pages: Seq<Self>, pane: int, t: int) -> bool {
        pages[t + 1].panes_view()[pane] == pages[t].panes_view()[pane]
    }

    /// Over a full round of moves to the next pane, the pane at `pane` is
    /// told once that it lost the focus and once that it gained it.
    proof fn lemma_told_in_turn(pages: Seq<Self>, pane: int)
        requires
            pages.len() == PANE_COUNT + 1,
            0 <= pane < PANE_COUNT,
            Self::moved_on(pages[0], pages[1], pane),
            Self::moved_on(pages[1], pages[2], pane),
            Self::moved_on(pages[2], pages[3], pane),
            Self::moved_on(pages[3], pages[4], pane),
            Self::moved_on(pages[4], pages[5], pane),
        ensures
            Self::told_in_turn(pages, pane),
    {
        let lost: int = if pane == pages[0].focused() {
            0
        } else if pane == pages[1].focused() {
            1
        } else if pane == pages[2].focused() {
            2
        } else if pane == pages[3].focused() {
            3
        } else {
            4
        };
        let gained: int = if lost == 0 {
            4
        } else {
            lost - 1
        };
        assert(pages[lost].focused() == pane);
        assert(pages[gained + 1].focused() == pane);
        assert(lost != 0 && gained != 0 ==> Self::kept(pages, pane, 0));
        assert(lost != 1 && gained != 1 ==> Self::kept(pages, pane, 1));
        assert(lost != 2 && gained != 2 ==> Self::kept(pages, pane, 2));
        assert(lost != 3 && gained != 3 ==> Self::kept(pages, pane, 3));
        assert(lost != 4 && gained != 4 ==> Self::kept(pages, pane, 4));
        Self::lemma_told_once(pages, pane, lost, gained);
    }

    /// A pane that was told of its loss of the focus in one move of a round,
    /// of its gain in another, and was kept in the rest was told in turn.
    proof fn lemma_told_once(pages: Seq<Self>, pane: int, lost: int, gained: int)
        requires
            0 <= lost < PANE_COUNT,
            0 <= gained < PANE_COUNT,
            lost != gained,
            P::unfocus_step(
                pages[lost].panes_view()[pane],
                pages[lost + 1].panes_view()[pane],
                Ok(()),
            ),
            P::focus_step(
                pages[gained].panes_view()[pane],
                pages[gained + 1].panes_view()[pane],
                Ok(()),
            ),
            lost != 0 && gained != 0 ==> Self::kept(pages, pane, 0),
            lost != 1 && gained != 1 ==> Self::kept(pages, pane, 1),
            lost != 2 && gained != 2 ==> Self::kept(pages, pane, 2),
            lost != 3 && gained != 3 ==> Self::kept(pages, pane, 3),
            lost != 4 && gained != 4 ==> Self::kept(pages, pane, 4),
        ensures
            Self::told_in_turn(pages, pane),
    {
        assert forall|t: int| 0 <= t < PANE_COUNT && t != lost && t != gained implies (
        #[trigger] pages[t + 1]).panes_view()[pane] == pages[t].panes_view()[pane] by {
            assert(Self::kept(pages, pane, t));
        }
        assert(Self::told_once(pages, pane, lost, gained));
    }

    /// Two fullscreen toggles from the split layout end in the split layout:
    /// in between the focused pane has the whole content area, and after the
    /// second toggle the focus, the panes and the shared state are as they
    /// were, so the frame is laid out from the same page as before.
    pub proof fn lemma_toggle_twice(
        start: Self,
        between: Self,
        end: Self,
        first: Result<Option<Action>, P::Error>,
        second: Result<Option<Action>, P::Error>,
    )
        requires
            start.fullscreen() is None,
            Self::updated(start, Action::ToggleFullScreen, between, first),
            Self::updated(between, Action::ToggleFullScreen, end, second),
        ensures
            between.fullscreen() == Some(start.focused()),
            end.fullscreen() is None,
            end.focused() == start.focused(),
            end.panes_view() == start.panes_view(),
            end.state_view() == start.state_view(),
    {
    }
}

impl Home<Blank> {
    /// Whether the pane at the focus index, and no other pane, shows itself
    /// as focused.
    pub open spec fn one_focused(&self) -> bool {
        forall|k: int|
            0 <= k < PANE_COUNT ==> ((#[trigger] self.panes_view()[k]).focused <==> k
                == self.focused())
    }

    /// On a page of blank panes no action fails, and if the focused pane
    /// alone showed itself as focused before an action, the focused pane
    /// alone does so after it.
    pub proof fn lemma_one_focused(
        pre: Self,
        action: Action,
        post: Self,
        result: Result<Option<Action>, Infallible>,
    )
        requires
            pre.well_formed(),
            pre.one_focused(),
            Self::updated(pre, action, post, result),
        ensures
            result is Ok,
            post.one_focused(),
    {
        match action {
            Action::Update => {
                match result {
                    Ok(_) => {
                        Self::lemma_blank_round(
                            pre.panes_view(),
                            post.panes_view(),
                            pre.state_view(),
                            post.state_view(),
                            PANE_COUNT as int,
                        );
                    },
                    Err(_) => {},
                }
            },
            Action::FocusNext | Action::FocusPrev => {
                crate::focus::lemma_next_prev_inverse(pre.focused() as int, PANE_COUNT as int);
            },
            _ => {},
        }
    }

    /// Blank panes that were handed `Action::Update` are as they were, and
    /// so is the shared state.
    proof fn lemma_blank_round(
        before: Seq<Blank>,
        after: Seq<Blank>,
        start: State,
        end: State,
        count: int,
    )
        requires
            Self::updated_through(before, after, start, end, count),
        ensures
            end == start,
            forall|k: int| 0 <= k < count ==> #[trigger] after[k] == before[k],
        decreases count,
    {
        if count > 0 {
            let (between, answer) = choose|between: State, answer: Option<Action>|
                {
                    &&& Self::updated_through(before, after, start, between, count - 1)
                    &&& #[trigger] Blank::update_step(
                        before[count - 1],
                        Action::Update,
                        between,
                        after[count - 1],
                        end,
                        Ok(answer),
                    )
                };
            Self::lemma_blank_round(before, after, start, between, count - 1);
        }
    }
}

/// A success that carries nothing is the one success there is.
proof fn lemma_plain_success<E>(result: Result<(), E>)
    requires
        result is Ok,
    ensures
        result == Ok::<(), E>(()),
{
    assert(result->Ok_0 == ());
}

} // verus!
