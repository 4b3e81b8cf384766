//! Dashboard state as a value, and the pure transition on user actions.

use vstd::prelude::*;
use crate::chart::ChartType;

verus! {

/// User intent, as handed to `update`.
#[derive(Clone, Copy, Debug, PartialEq, Eq, Structural)]
pub enum Action {
    Quit,
    ForceQuit,
    NextChart,
    PrevChart,
    ScrollUp,
    ScrollDown,
    ToggleMetricView,
    Tick,
    Noop,
}

/// UI state for the update function.
#[derive(Clone, Copy, Debug, PartialEq, Eq, Structural)]
pub struct Model {
    pub chart_type: ChartType,
    pub should_quit: bool,
    pub single_metric: bool,
    pub scroll_offset: usize,
    pub data_len: usize,
}

/// Whether scrolling applies: always in split view, and in single view only
/// on the additions/deletions chart.
pub open spec fn scrollable(m: Model) -> bool {
    if m.single_metric {
        m.chart_type is AddDel
    } else {
        true
    }
}

/// The state after `a`.
pub open spec fn update_spec(m: Model, a: Action) -> Model {
    match a {
        Action::Quit | Action::ForceQuit => Model { should_quit: true, ..m },
        Action::NextChart => if m.single_metric {
            Model { chart_type: spec_next(m.chart_type), ..m }
        } else {
            m
        },
        Action::PrevChart => if m.single_metric {
            Model { chart_type: spec_prev(m.chart_type), ..m }
        } else {
            m
        },
        Action::ScrollUp => if scrollable(m) && m.data_len > 0 {
            Model {
                scroll_offset: (if m.scroll_offset + 1 <= m.data_len - 1 {
                    m.scroll_offset + 1
                } else {
                    m.data_len - 1
                }) as usize,
                ..m
            }
        } else {
            m
        },
        Action::ScrollDown => if scrollable(m) {
            Model { scroll_offset: (if m.scroll_offset > 0 { m.scroll_offset - 1 } else { 0 }) as usize, ..m }
        } else {
            m
        },
        Action::ToggleMetricView => Model { single_metric: !m.single_metric, scroll_offset: 0, ..m },
        Action::Tick | Action::Noop => m,
    }
}

/// The chart after `c` in the cycle.
pub open spec fn spec_next(c: ChartType) -> ChartType {
    match c {
        ChartType::Commits => ChartType::FilesChanged,
        ChartType::FilesChanged => ChartType::AddDel,
        ChartType::AddDel => ChartType::Weekday,
        ChartType::Weekday => ChartType::Hour,
        ChartType::Hour => ChartType::Commits,
    }
}

/// The chart before `c` in the cycle.
pub open spec fn spec_prev(c: ChartType) -> ChartType {
    match c {
        ChartType::Commits => ChartType::Hour,
        ChartType::FilesChanged => ChartType::Commits,
        ChartType::AddDel => ChartType::FilesChanged,
        ChartType::Weekday => ChartType::AddDel,
        ChartType::Hour => ChartType::Weekday,
    }
}

/// Going to the next chart and back, or back and then forward, returns to
/// the chart one started on.
pub proof fn law_chart_round_trip(c: ChartType)
    ensures
        spec_prev(spec_next(c)) == c,
        spec_next(spec_prev(c)) == c,
{
}

impl Model {
    /// Whether scrolling applies in this state.
    pub fn can_scroll(self) -> (r: bool)
        ensures
            r == scrollable(self),
    {
        if self.single_metric {
            matches!(self.chart_type, ChartType::AddDel)
        } else {
            true
        }
    }
}

/// The state after the user's action: quitting sets the flag; chart cycling
/// applies only in single view; scrolling stays within `[0, data_len - 1]`
/// and applies only where `can_scroll` holds; toggling the view resets the
/// scroll offset.
pub fn update(model: Model, action: Action) -> (r: Model)
    ensures
        r == update_spec(model, action),
{
    let mut model = model;
    match action {
        Action::Quit | Action::ForceQuit => {
            model.should_quit = true;
        },
        Action::NextChart => {
            if model.single_metric {
                model.chart_type = model.chart_type.next();
            }
        },
        Action::PrevChart => {
            if model.single_metric {
                model.chart_type = model.chart_type.prev();
            }
        },
        Action::ScrollUp => {
            if model.can_scroll() && model.data_len > 0 {
                let max_offset = model.data_len - 1;
                model.scroll_offset = if model.scroll_offset >= max_offset {
                    max_offset
                } else {
                    model.scroll_offset + 1
                };
            }
        },
        Action::ScrollDown => {
            if model.can_scroll() && model.scroll_offset > 0 {
                model.scroll_offset = model.scroll_offset - 1;
            }
        },
        Action::ToggleMetricView => {
            model.single_metric = !model.single_metric;
            model.scroll_offset = 0;
        },
        Action::Tick | Action::Noop => {},
    }
    model
}

/// Whatever the actions, the scroll offset stays below the data length once
/// it starts there (or at zero).
pub proof fn law_scroll_in_bounds(m: Model, a: Action)
    requires
        m.scroll_offset == 0 || m.scroll_offset < m.data_len,
    ensures
        update_spec(m, a).scroll_offset == 0 || update_spec(m, a).scroll_offset < update_spec(m, a).data_len,
{
}

/// A key of the keyboard, as far as the dashboard tells keys apart.
#[derive(Clone, Copy, Debug, PartialEq, Eq, Structural)]
pub enum KeyCode {
    Char(char),
    Esc,
    Enter,
    Tab,
    BackTab,
    Left,
    Right,
    Up,
    Down,
    Other,
}

/// A key press: the key, and whether Control was held.
#[derive(Clone, Copy, Debug, PartialEq, Eq, Structural)]
pub struct KeyEvent {
    pub code: KeyCode,
    pub control: bool,
}

impl KeyEvent {
    /// A key press of `code`, with Control held or not.
    pub fn new(code: KeyCode, control: bool) -> (r: Self)
        ensures
            r.code == code,
            r.control == control,
    {
        KeyEvent { code, control }
    }
}

/// The action bound to a key press.
pub open spec fn key_action(key: KeyEvent) -> Action {
    match key.code {
        KeyCode::Char('q') | KeyCode::Esc => Action::Quit,
        KeyCode::Char('c') if key.control => Action::ForceQuit,
        KeyCode::Tab | KeyCode::Right | KeyCode::Char('l') => Action::NextChart,
        KeyCode::BackTab | KeyCode::Left | KeyCode::Char('h') => Action::PrevChart,
        KeyCode::Up | KeyCode::Char('k') => Action::ScrollUp,
        KeyCode::Down | KeyCode::Char('j') => Action::ScrollDown,
        KeyCode::Char('m') => Action::ToggleMetricView,
        _ => Action::Noop,
    }
}

impl Action {
    /// The action bound to a key press: `q`/Esc quit, Ctrl+C force-quits,
    /// Tab/Right/`l` and BackTab/Left/`h` cycle charts, Up/`k` and Down/`j`
    /// scroll, `m` toggles the view; other keys do nothing.
    pub fn from_key(key: KeyEvent) -> (r: Action)
        ensures
            r == key_action(key),
    {
        match key.code {
            KeyCode::Char('q') | KeyCode::Esc => Action::Quit,
            KeyCode::Char('c') if key.control => Action::ForceQuit,
            KeyCode::Tab | KeyCode::Right | KeyCode::Char('l') => Action::NextChart,
            KeyCode::BackTab | KeyCode::Left | KeyCode::Char('h') => Action::PrevChart,
            KeyCode::Up | KeyCode::Char('k') => Action::ScrollUp,
            KeyCode::Down | KeyCode::Char('j') => Action::ScrollDown,
            KeyCode::Char('m') => Action::ToggleMetricView,
            _ => Action::Noop,
        }
    }
}

} // verus!
