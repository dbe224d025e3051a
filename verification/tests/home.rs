use std::cell::RefCell;
use std::rc::Rc;

use openapi_tui::key::{KeyCode, KeyEvent};
use openapi_tui::layout::{Columns, Constraint, Placement, Rect};
use openapi_tui::{Action, EventResponse, Home, Pane, State};

type Log = Rc<RefCell<Vec<String>>>;

struct Probe {
    name: &'static str,
    log: Log,
    focused: bool,
    focus_calls: usize,
    unfocus_calls: usize,
    fail_on: Option<&'static str>,
    answer: Option<Action>,
    height: Constraint,
}

impl Probe {
    fn note(&self, call: &str) -> Result<(), String> {
        self.log.borrow_mut().push(format!("{}.{}", self.name, call));
        if self.fail_on == Some(call) {
            Err(format!("{} failed in {}", self.name, call))
        } else {
            Ok(())
        }
    }
}

impl Pane for Probe {
    type Error = String;

    fn init(&mut self, state: &State) -> Result<(), String> {
        self.log.borrow_mut().push(format!("{}.init({})", self.name, state.openapi_path));
        if self.fail_on == Some("init") {
            return Err(format!("{} failed in init", self.name));
        }
        Ok(())
    }

    fn focus(&mut self) -> Result<(), String> {
        self.note("focus")?;
        self.focus_calls += 1;
        self.focused = true;
        Ok(())
    }

    fn unfocus(&mut self) -> Result<(), String> {
        self.note("unfocus")?;
        self.unfocus_calls += 1;
        self.focused = false;
        Ok(())
    }

    fn update(&mut self, action: Action, state: &mut State) -> Result<Option<Action>, String> {
        self.log.borrow_mut().push(format!("{}.update({:?})", self.name, action));
        if self.fail_on == Some("update") {
            return Err(format!("{} failed in update", self.name));
        }
        if action == Action::Down {
            state.active_operation_index += 1;
        }
        Ok(self.answer)
    }

    fn height_constraint(&self) -> Constraint {
        self.height
    }
}

const NAMES: [&str; 5] = ["apis", "tags", "address", "request", "response"];

fn probe(index: usize, log: &Log) -> Probe {
    Probe {
        name: NAMES[index],
        log: log.clone(),
        focused: index == 0,
        focus_calls: 0,
        unfocus_calls: 0,
        fail_on: None,
        answer: None,
        height: Constraint::Fill(1),
    }
}

fn home_of(log: &Log, adjust: impl Fn(usize, &mut Probe)) -> Home<Probe> {
    let mut probes: Vec<Probe> = (0..5).map(|index| probe(index, log)).collect();
    for (index, pane) in probes.iter_mut().enumerate() {
        adjust(index, pane);
    }
    let response = probes.pop().unwrap();
    let request = probes.pop().unwrap();
    let address = probes.pop().unwrap();
    let tags = probes.pop().unwrap();
    let apis = probes.pop().unwrap();
    Home::new("api.yaml".to_string(), oas3::Spec::default(), apis, tags, address, request, response)
}

fn plain_home(log: &Log) -> Home<Probe> {
    home_of(log, |_, _| {})
}

fn new_log() -> Log {
    Rc::new(RefCell::new(Vec::new()))
}

fn taken(log: &Log) -> Vec<String> {
    log.borrow_mut().drain(..).collect()
}

fn focus_flags(home: &Home<Probe>) -> Vec<bool> {
    home.panes().iter().map(|pane| pane.focused).collect()
}

fn focus_calls(home: &Home<Probe>) -> Vec<usize> {
    home.panes().iter().map(|pane| pane.focus_calls).collect()
}

fn unfocus_calls(home: &Home<Probe>) -> Vec<usize> {
    home.panes().iter().map(|pane| pane.unfocus_calls).collect()
}

#[test]
fn fresh_home_focuses_the_first_pane() {
    let log = new_log();
    let home = plain_home(&log);
    assert_eq!(home.focused_pane_index(), 0);
    assert_eq!(home.fullscreen_pane_index(), None);
    assert_eq!(home.panes().len(), 5);
    assert_eq!(home.state().openapi_path, "api.yaml");
    assert_eq!(home.state().active_operation_index, 0);
    assert_eq!(home.state().active_tag_name, None);
    assert!(taken(&log).is_empty());
}

#[test]
fn new_keeps_the_panes_in_their_order() {
    let log = new_log();
    let home = plain_home(&log);
    let names: Vec<&str> = home.panes().iter().map(|pane| pane.name).collect();
    assert_eq!(names, vec!["apis", "tags", "address", "request", "response"]);
}

#[test]
fn focus_prev_from_the_first_pane_wraps_to_the_last() {
    let log = new_log();
    let mut home = plain_home(&log);
    assert_eq!(home.update(Action::FocusPrev), Ok(None));
    assert_eq!(home.focused_pane_index(), 4);
    assert_eq!(taken(&log), vec!["apis.unfocus", "response.focus"]);
    assert_eq!(focus_flags(&home), vec![false, false, false, false, true]);
}

#[test]
fn focus_next_from_the_last_pane_wraps_to_the_first() {
    let log = new_log();
    let mut home = plain_home(&log);
    assert_eq!(home.update(Action::FocusPrev), Ok(None));
    taken(&log);
    assert_eq!(home.update(Action::FocusNext), Ok(None));
    assert_eq!(home.focused_pane_index(), 0);
    assert_eq!(taken(&log), vec!["response.unfocus", "apis.focus"]);
}

#[test]
fn focus_next_then_prev_returns_from_every_pane() {
    for start in 0..5 {
        let log = new_log();
        let mut home = plain_home(&log);
        for _ in 0..start {
            home.update(Action::FocusNext).unwrap();
        }
        assert_eq!(home.focused_pane_index(), start);
        taken(&log);
        let next = (start + 1) % 5;
        assert_eq!(home.update(Action::FocusNext), Ok(None));
        assert_eq!(home.focused_pane_index(), next);
        assert_eq!(
            taken(&log),
            vec![format!("{}.unfocus", NAMES[start]), format!("{}.focus", NAMES[next])]
        );
        assert_eq!(home.update(Action::FocusPrev), Ok(None));
        assert_eq!(home.focused_pane_index(), start);
        assert_eq!(
            taken(&log),
            vec![format!("{}.unfocus", NAMES[next]), format!("{}.focus", NAMES[start])]
        );
    }
}

#[test]
fn focus_prev_then_next_returns_from_every_pane() {
    for start in 0..5 {
        let log = new_log();
        let mut home = plain_home(&log);
        for _ in 0..start {
            home.update(Action::FocusNext).unwrap();
        }
        taken(&log);
        let prev = (start + 4) % 5;
        assert_eq!(home.update(Action::FocusPrev), Ok(None));
        assert_eq!(home.focused_pane_index(), prev);
        assert_eq!(
            taken(&log),
            vec![format!("{}.unfocus", NAMES[start]), format!("{}.focus", NAMES[prev])]
        );
        assert_eq!(home.update(Action::FocusNext), Ok(None));
        assert_eq!(home.focused_pane_index(), start);
        assert_eq!(
            taken(&log),
            vec![format!("{}.unfocus", NAMES[prev]), format!("{}.focus", NAMES[start])]
        );
    }
}

#[test]
fn five_focus_next_come_back_and_tell_every_pane_once() {
    let log = new_log();
    let mut home = plain_home(&log);
    let mut visited = Vec::new();
    for _ in 0..5 {
        assert_eq!(home.update(Action::FocusNext), Ok(None));
        visited.push(home.focused_pane_index());
    }
    assert_eq!(visited, vec![1, 2, 3, 4, 0]);
    assert_eq!(focus_calls(&home), vec![1, 1, 1, 1, 1]);
    assert_eq!(unfocus_calls(&home), vec![1, 1, 1, 1, 1]);
    assert_eq!(focus_flags(&home), vec![true, false, false, false, false]);
    let calls = taken(&log);
    assert_eq!(calls.len(), 10);
    assert_eq!(calls.iter().filter(|call| call.ends_with(".focus")).count(), 5);
    assert_eq!(calls.iter().filter(|call| call.ends_with(".unfocus")).count(), 5);
}

#[test]
fn exactly_one_pane_is_focused_after_every_move() {
    let log = new_log();
    let mut home = plain_home(&log);
    let moves = [
        Action::FocusNext,
        Action::FocusNext,
        Action::FocusPrev,
        Action::FocusPrev,
        Action::FocusPrev,
        Action::FocusNext,
    ];
    for action in moves {
        home.update(action).unwrap();
        let flags = focus_flags(&home);
        assert_eq!(flags.iter().filter(|flag| **flag).count(), 1);
        assert!(flags[home.focused_pane_index()]);
    }
    assert_eq!(home.focused_pane_index(), 0);
}

#[test]
fn moving_the_focus_leaves_state_and_fullscreen_alone() {
    let log = new_log();
    let mut home = plain_home(&log);
    home.update(Action::ToggleFullScreen).unwrap();
    home.update(Action::FocusNext).unwrap();
    assert_eq!(home.fullscreen_pane_index(), Some(0));
    assert_eq!(home.focused_pane_index(), 1);
    assert_eq!(home.state().active_operation_index, 0);
}

#[test]
fn failing_unfocus_keeps_the_focus_and_skips_focus() {
    let log = new_log();
    let mut home = home_of(&log, |index, pane| {
        if index == 0 {
            pane.fail_on = Some("unfocus");
        }
    });
    assert_eq!(home.update(Action::FocusNext), Err("apis failed in unfocus".to_string()));
    assert_eq!(home.focused_pane_index(), 0);
    assert_eq!(taken(&log), vec!["apis.unfocus"]);
    assert_eq!(focus_calls(&home), vec![0, 0, 0, 0, 0]);
}

#[test]
fn failing_focus_leaves_the_focus_on_the_new_pane() {
    let log = new_log();
    let mut home = home_of(&log, |index, pane| {
        if index == 4 {
            pane.fail_on = Some("focus");
        }
    });
    assert_eq!(home.update(Action::FocusPrev), Err("response failed in focus".to_string()));
    assert_eq!(home.focused_pane_index(), 4);
    assert_eq!(taken(&log), vec!["apis.unfocus", "response.focus"]);
    assert_eq!(unfocus_calls(&home), vec![1, 0, 0, 0, 0]);
}

#[test]
fn toggle_fullscreen_twice_restores_the_split_layout() {
    let log = new_log();
    let mut home = plain_home(&log);
    home.update(Action::FocusNext).unwrap();
    let area = Rect { x: 0, y: 0, width: 80, height: 24 };
    let before = home.layout(area);
    taken(&log);
    assert_eq!(home.update(Action::ToggleFullScreen), Ok(None));
    assert_eq!(home.fullscreen_pane_index(), Some(1));
    assert_eq!(home.focused_pane_index(), 1);
    assert_eq!(home.update(Action::ToggleFullScreen), Ok(None));
    assert_eq!(home.fullscreen_pane_index(), None);
    assert_eq!(home.focused_pane_index(), 1);
    let after = home.layout(area);
    assert_eq!(after.content, before.content);
    assert_eq!(after.status, before.status);
    assert_eq!(after.columns, before.columns);
    assert_eq!(after.panes, before.panes);
    assert!(taken(&log).is_empty());
}

#[test]
fn toggle_clears_fullscreen_whichever_pane_had_it() {
    let log = new_log();
    let mut home = plain_home(&log);
    home.update(Action::ToggleFullScreen).unwrap();
    home.update(Action::FocusNext).unwrap();
    home.update(Action::FocusNext).unwrap();
    assert_eq!(home.fullscreen_pane_index(), Some(0));
    assert_eq!(home.update(Action::ToggleFullScreen), Ok(None));
    assert_eq!(home.fullscreen_pane_index(), None);
    assert_eq!(home.update(Action::ToggleFullScreen), Ok(None));
    assert_eq!(home.fullscreen_pane_index(), Some(2));
}

#[test]
fn tick_does_nothing() {
    let log = new_log();
    let mut home = plain_home(&log);
    assert_eq!(home.update(Action::Tick), Ok(None));
    assert_eq!(home.focused_pane_index(), 0);
    assert_eq!(home.fullscreen_pane_index(), None);
    assert!(taken(&log).is_empty());
}

#[test]
fn update_goes_to_every_pane_in_order() {
    let log = new_log();
    let mut home = home_of(&log, |_, pane| pane.answer = Some(Action::Submit));
    assert_eq!(home.update(Action::Update), Ok(None));
    assert_eq!(
        taken(&log),
        vec![
            "apis.update(Update)",
            "tags.update(Update)",
            "address.update(Update)",
            "request.update(Update)",
            "response.update(Update)",
        ]
    );
    assert_eq!(home.focused_pane_index(), 0);
}

#[test]
fn update_stops_at_the_first_pane_that_fails() {
    let log = new_log();
    let mut home = home_of(&log, |index, pane| {
        if index == 2 {
            pane.fail_on = Some("update");
        }
    });
    assert_eq!(home.update(Action::Update), Err("address failed in update".to_string()));
    assert_eq!(
        taken(&log),
        vec!["apis.update(Update)", "tags.update(Update)", "address.update(Update)"]
    );
}

#[test]
fn other_actions_go_to_the_focused_pane_only() {
    let actions =
        [Action::Down, Action::Up, Action::Go, Action::Back, Action::Submit, Action::Tab(3)];
    for action in actions {
        let log = new_log();
        let mut home = plain_home(&log);
        home.update(Action::FocusNext).unwrap();
        taken(&log);
        assert_eq!(home.update(action), Ok(None));
        assert_eq!(taken(&log), vec![format!("tags.update({:?})", action)]);
        assert_eq!(home.focused_pane_index(), 1);
    }
}

#[test]
fn the_answer_of_the_focused_pane_is_handed_up() {
    let log = new_log();
    let mut home = home_of(&log, |index, pane| {
        pane.answer = if index == 0 { Some(Action::Update) } else { Some(Action::Tick) };
    });
    assert_eq!(home.update(Action::Submit), Ok(Some(Action::Update)));
}

#[test]
fn the_failure_of_the_focused_pane_is_handed_up() {
    let log = new_log();
    let mut home = home_of(&log, |index, pane| {
        if index == 0 {
            pane.fail_on = Some("update");
        }
    });
    assert_eq!(home.update(Action::Go), Err("apis failed in update".to_string()));
    assert_eq!(home.focused_pane_index(), 0);
}

#[test]
fn the_focused_pane_may_change_the_shared_state() {
    let log = new_log();
    let mut home = plain_home(&log);
    assert_eq!(home.update(Action::Down), Ok(None));
    assert_eq!(home.update(Action::Down), Ok(None));
    assert_eq!(home.state().active_operation_index, 2);
}

#[test]
fn init_prepares_every_pane_once() {
    let log = new_log();
    let mut home = plain_home(&log);
    assert_eq!(home.init(), Ok(()));
    assert_eq!(
        taken(&log),
        vec![
            "apis.init(api.yaml)",
            "tags.init(api.yaml)",
            "address.init(api.yaml)",
            "request.init(api.yaml)",
            "response.init(api.yaml)",
        ]
    );
    assert_eq!(home.focused_pane_index(), 0);
    assert_eq!(home.fullscreen_pane_index(), None);
}

#[test]
fn init_stops_at_the_first_pane_that_fails() {
    let log = new_log();
    let mut home = home_of(&log, |index, pane| {
        if index == 1 {
            pane.fail_on = Some("init");
        }
    });
    assert_eq!(home.init(), Err("tags failed in init".to_string()));
    assert_eq!(taken(&log), vec!["apis.init(api.yaml)", "tags.init(api.yaml)"]);
}

#[test]
fn pressing_three_gives_tab_two() {
    let log = new_log();
    let mut home = plain_home(&log);
    let key = KeyEvent { code: KeyCode::Char('3'), modifiers: 0 };
    assert_eq!(home.handle_key_events(key), Ok(Some(EventResponse::Stop(Action::Tab(2)))));
}

#[test]
fn pressing_one_gives_tab_zero() {
    let log = new_log();
    let mut home = plain_home(&log);
    let key = KeyEvent { code: KeyCode::Char('1'), modifiers: 0 };
    assert_eq!(home.handle_key_events(key), Ok(Some(EventResponse::Stop(Action::Tab(0)))));
}

#[test]
fn pressing_escape_is_unhandled() {
    let log = new_log();
    let mut home = plain_home(&log);
    let key = KeyEvent { code: KeyCode::Esc, modifiers: 0 };
    assert_eq!(home.handle_key_events(key), Ok(None));
}

#[test]
fn a_key_changes_nothing_by_itself() {
    let log = new_log();
    let mut home = plain_home(&log);
    let key = KeyEvent { code: KeyCode::Right, modifiers: 0 };
    assert_eq!(home.handle_key_events(key), Ok(Some(EventResponse::Stop(Action::FocusNext))));
    assert_eq!(home.focused_pane_index(), 0);
    assert_eq!(home.fullscreen_pane_index(), None);
    assert!(taken(&log).is_empty());
}

#[test]
fn modifiers_do_not_change_what_a_key_stands_for() {
    let log = new_log();
    let mut home = plain_home(&log);
    for modifiers in [0u8, 1, 2, 4, 255] {
        let key = KeyEvent { code: KeyCode::Char('f'), modifiers };
        assert_eq!(
            home.handle_key_events(key),
            Ok(Some(EventResponse::Stop(Action::ToggleFullScreen)))
        );
    }
}

#[test]
fn split_layout_places_five_panes_in_two_columns() {
    let log = new_log();
    let home = home_of(&log, |index, pane| {
        pane.height = match index {
            1 => Constraint::Length(5),
            2 => Constraint::Length(3),
            _ => Constraint::Fill(1),
        };
    });
    let layout = home.layout(Rect { x: 0, y: 0, width: 80, height: 24 });
    assert_eq!(layout.content, Rect { x: 0, y: 0, width: 80, height: 23 });
    assert_eq!(layout.status, Rect { x: 0, y: 23, width: 80, height: 1 });
    assert_eq!(
        layout.columns,
        Some(Columns {
            left: Rect { x: 0, y: 0, width: 20, height: 23 },
            right: Rect { x: 20, y: 0, width: 60, height: 23 },
            left_heights: vec![Constraint::Fill(1), Constraint::Length(5)],
            right_heights: vec![Constraint::Length(3), Constraint::Fill(1), Constraint::Fill(1)],
        })
    );
    assert_eq!(
        layout.panes,
        vec![
            Placement { pane: 0, area: Rect { x: 0, y: 0, width: 20, height: 18 } },
            Placement { pane: 1, area: Rect { x: 0, y: 18, width: 20, height: 5 } },
            Placement { pane: 2, area: Rect { x: 20, y: 0, width: 60, height: 3 } },
            Placement { pane: 3, area: Rect { x: 20, y: 3, width: 60, height: 10 } },
            Placement { pane: 4, area: Rect { x: 20, y: 13, width: 60, height: 10 } },
        ]
    );
}

#[test]
fn heights_are_those_of_the_panes_in_their_order() {
    let log = new_log();
    let home = home_of(&log, |index, pane| pane.height = Constraint::Length(index as u16 + 1));
    assert_eq!(
        home.heights(),
        vec![
            Constraint::Length(1),
            Constraint::Length(2),
            Constraint::Length(3),
            Constraint::Length(4),
            Constraint::Length(5),
        ]
    );
}

#[test]
fn layout_is_the_same_value_for_the_same_page_and_frame() {
    let log = new_log();
    let home = plain_home(&log);
    let area = Rect { x: 0, y: 0, width: 120, height: 50 };
    assert_eq!(home.layout(area), home.layout(area));
}

#[test]
fn each_column_is_asked_for_the_heights_of_its_own_panes() {
    let log = new_log();
    let home = home_of(&log, |index, pane| pane.height = Constraint::Length(index as u16 + 1));
    let layout = home.layout(Rect { x: 0, y: 0, width: 80, height: 24 });
    let columns = layout.columns.unwrap();
    assert_eq!(columns.left_heights, vec![Constraint::Length(1), Constraint::Length(2)]);
    assert_eq!(
        columns.right_heights,
        vec![Constraint::Length(3), Constraint::Length(4), Constraint::Length(5)]
    );
    let heights: Vec<u16> = layout.panes.iter().map(|placement| placement.area.height).collect();
    assert_eq!(&heights[..4], &[1, 2, 3, 4]);
}

#[test]
fn panes_lie_in_their_columns_one_below_the_other_above_the_status_line() {
    let log = new_log();
    let home = plain_home(&log);
    for (width, height) in [(80u16, 24u16), (81, 25), (3, 2), (1, 1), (0, 0), (200, 7)] {
        let area = Rect { x: 5, y: 2, width, height };
        let layout = home.layout(area);
        let content = layout.content;
        let status = layout.status;
        assert!(area.y <= content.y);
        assert!(content.y + content.height <= status.y);
        assert!(status.y + status.height <= area.y + area.height);
        let columns = layout.columns.unwrap();
        assert!(content.x <= columns.left.x);
        assert!(columns.left.x + columns.left.width <= columns.right.x);
        assert!(columns.right.x + columns.right.width <= content.x + content.width);
        for (index, placement) in layout.panes.iter().enumerate() {
            let column = if index < 2 { columns.left } else { columns.right };
            let pane = placement.area;
            assert_eq!(placement.pane, index);
            assert_eq!((pane.x, pane.width), (column.x, column.width));
            assert!(column.y <= pane.y);
            assert!(pane.y + pane.height <= column.y + column.height);
            assert!(pane.y + pane.height <= status.y);
            if index != 0 && index != 2 {
                let above = layout.panes[index - 1].area;
                assert!(above.y + above.height <= pane.y);
            }
        }
    }
}

#[test]
fn fullscreen_layout_places_one_pane_on_the_content_area() {
    let log = new_log();
    let mut home = plain_home(&log);
    home.update(Action::FocusPrev).unwrap();
    home.update(Action::ToggleFullScreen).unwrap();
    let layout = home.layout(Rect { x: 2, y: 1, width: 100, height: 40 });
    assert_eq!(layout.content, Rect { x: 2, y: 1, width: 100, height: 39 });
    assert_eq!(layout.status, Rect { x: 2, y: 40, width: 100, height: 1 });
    assert_eq!(layout.columns, None);
    assert_eq!(layout.panes, vec![Placement { pane: 4, area: layout.content }]);
}

#[test]
fn fullscreen_follows_the_pane_it_was_given_to_not_the_focus() {
    let log = new_log();
    let mut home = plain_home(&log);
    home.update(Action::ToggleFullScreen).unwrap();
    home.update(Action::FocusNext).unwrap();
    let layout = home.layout(Rect { x: 0, y: 0, width: 80, height: 24 });
    assert_eq!(layout.panes, vec![Placement { pane: 0, area: layout.content }]);
}
