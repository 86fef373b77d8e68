//! The taskbar's configuration: which windows to ignore, what clicks do,
//! per-app style classes, notification matching switches, and sizing knobs.
//! Patterns are kept as their source strings; the regex engine is called
//! through one trusted wrapper.

use vstd::prelude::*;

use crate::notify::rename_lookup;
use crate::text::has_substring;
use crate::text::str_contains;
use crate::text::str_eq;

verus! {

/// What regex matching returns on a pattern and a text: a function of the
/// two strings alone. A pattern that does not compile matches nothing.
pub uninterp spec fn regex_match_of(pattern: Seq<char>, text: Seq<char>) -> bool;

/// Relies on regex::Regex::new and regex::Regex::is_match: whether the
/// pattern compiles and matches somewhere in the text. Both are functions of
/// the two strings alone.
#[verifier::external_body]
pub fn regex_matches(pattern: &str, text: &str) -> (r: bool)
    ensures
        r == regex_match_of(pattern@, text@),
{
    match regex::Regex::new(pattern) {
        Ok(re) => re.is_match(text),
        Err(_) => false,
    }
}

/// One action a mouse click or menu entry can trigger on a window.
#[derive(Clone, Copy, Debug, PartialEq, Eq, Structural)]
pub enum WindowAction {
    NoOp,
    FocusWindow,
    CloseWindow,
    MaximizeColumn,
    MaximizeWindowToEdges,
    CenterColumn,
    CenterWindow,
    CenterVisibleColumns,
    ExpandColumnToAvailableWidth,
    FullscreenWindow,
    ToggleWindowedFullscreen,
    ToggleWindowFloating,
    ConsumeWindowIntoColumn,
    ExpelWindowFromColumn,
    ResetWindowHeight,
    SwitchPresetColumnWidth,
    SwitchPresetWindowHeight,
    MoveWindowToWorkspaceDown,
    MoveWindowToWorkspaceUp,
    MoveWindowToMonitorLeft,
    MoveWindowToMonitorRight,
    ToggleColumnTabbedDisplay,
    FocusWorkspacePrevious,
    Menu,
}

/// The actions bound to each kind of click on a window button.
#[derive(Clone, Copy, Debug, PartialEq, Eq, Structural)]
pub struct ClickActions {
    pub left_click_unfocused: WindowAction,
    pub left_click_focused: WindowAction,
    pub double_click: WindowAction,
    pub right_click: WindowAction,
    pub middle_click: WindowAction,
}

impl Default for ClickActions {
    fn default() -> (r: Self)
        ensures
            r == (ClickActions {
                left_click_unfocused: WindowAction::FocusWindow,
                left_click_focused: WindowAction::MaximizeColumn,
                double_click: WindowAction::MaximizeWindowToEdges,
                right_click: WindowAction::Menu,
                middle_click: WindowAction::CloseWindow,
            }),
    {
        ClickActions {
            left_click_unfocused: default_left_unfocused(),
            left_click_focused: default_left_focused(),
            double_click: default_double_click(),
            right_click: default_right_click(),
            middle_click: default_middle_click(),
        }
    }
}

/// Notification matching switches and the app-id rename table.
#[derive(Clone, Debug)]
pub struct NotificationConfig {
    pub enabled: bool,
    pub map_app_ids: Vec<(String, String)>,
    pub use_desktop_entry: bool,
    pub use_fuzzy_matching: bool,
}

impl Default for NotificationConfig {
    fn default() -> (r: Self)
        ensures
            r.enabled,
            r.map_app_ids@ == Seq::<(String, String)>::empty(),
            r.use_desktop_entry,
            !r.use_fuzzy_matching,
    {
        NotificationConfig {
            enabled: true,
            map_app_ids: Vec::new(),
            use_desktop_entry: true,
            use_fuzzy_matching: false,
        }
    }
}

/// One per-app rule: a title pattern, the style class it grants, and the
/// click actions it overrides.
#[derive(Clone, Debug)]
pub struct AppRule {
    /// Source text of the title pattern.
    pub pattern: String,
    pub class: Option<String>,
    pub click_actions: Option<ClickActions>,
}

/// One rule hiding windows from the taskbar; every given criterion must hold.
#[derive(Clone, Debug)]
pub struct IgnoreRule {
    pub app_id: Option<String>,
    pub title: Option<String>,
    /// Source text of a title pattern.
    pub title_regex: Option<String>,
    pub title_contains: Option<String>,
    pub workspace: Option<u64>,
}

/// One entry of the context menu.
#[derive(Clone, Debug)]
pub struct ContextMenuItem {
    pub label: String,
    pub action: WindowAction,
}

pub fn default_true() -> (r: bool)
    ensures
        r,
{
    true
}

pub fn default_min_width() -> (r: i32)
    ensures
        r == 150,
{
    150
}

pub fn default_max_width() -> (r: i32)
    ensures
        r == 235,
{
    235
}

pub fn default_icon_size() -> (r: i32)
    ensures
        r == 24,
{
    24
}

pub fn default_spacing() -> (r: i32)
    ensures
        r == 6,
{
    6
}

pub fn default_max_taskbar() -> (r: i32)
    ensures
        r == 1200,
{
    1200
}

pub fn default_scroll_arrow_left() -> (r: String)
    ensures
        r@ == "◀"@,
{
    "◀".to_owned()
}

pub fn default_scroll_arrow_right() -> (r: String)
    ensures
        r@ == "▶"@,
{
    "▶".to_owned()
}

pub fn default_left_unfocused() -> (r: WindowAction)
    ensures
        r == WindowAction::FocusWindow,
{
    WindowAction::FocusWindow
}

pub fn default_left_focused() -> (r: WindowAction)
    ensures
        r == WindowAction::MaximizeColumn,
{
    WindowAction::MaximizeColumn
}

pub fn default_double_click() -> (r: WindowAction)
    ensures
        r == WindowAction::MaximizeWindowToEdges,
{
    WindowAction::MaximizeWindowToEdges
}

pub fn default_right_click() -> (r: WindowAction)
    ensures
        r == WindowAction::Menu,
{
    WindowAction::Menu
}

pub fn default_middle_click() -> (r: WindowAction)
    ensures
        r == WindowAction::CloseWindow,
{
    WindowAction::CloseWindow
}

pub fn default_context_menu() -> (r: Vec<ContextMenuItem>)
    ensures
        r@.len() == 4,
        r@[0].action == WindowAction::MaximizeColumn,
        r@[0].label@ == "  Maximize Column"@,
        r@[1].action == WindowAction::MaximizeWindowToEdges,
        r@[1].label@ == "  Maximize to Edges"@,
        r@[2].action == WindowAction::ToggleWindowFloating,
        r@[2].label@ == "󰉩  Toggle Floating"@,
        r@[3].action == WindowAction::CloseWindow,
        r@[3].label@ == "  Close Window"@,
{
    let mut menu: Vec<ContextMenuItem> = Vec::new();
    menu.push(
        ContextMenuItem {
            label: "  Maximize Column".to_owned(),
            action: WindowAction::MaximizeColumn,
        },
    );
    menu.push(
        ContextMenuItem {
            label: "  Maximize to Edges".to_owned(),
            action: WindowAction::MaximizeWindowToEdges,
        },
    );
    menu.push(
        ContextMenuItem {
            label: "󰉩  Toggle Floating".to_owned(),
            action: WindowAction::ToggleWindowFloating,
        },
    );
    menu.push(
        ContextMenuItem { label: "  Close Window".to_owned(), action: WindowAction::CloseWindow },
    );
    menu
}

/// The whole configuration.
#[derive(Clone, Debug)]
pub struct Settings {
    /// Per-app rules, keyed by app id.
    pub apps: Vec<(String, Vec<AppRule>)>,
    pub notifications: NotificationConfig,
    pub show_all_outputs: bool,
    pub only_current_workspace: bool,
    pub show_window_titles: bool,
    pub min_button_width: i32,
    pub max_button_width: i32,
    pub icon_size: i32,
    pub icon_spacing: i32,
    pub max_taskbar_width: i32,
    pub max_taskbar_width_per_output: Vec<(String, i32)>,
    pub scroll_arrow_left: String,
    pub scroll_arrow_right: String,
    pub click_actions: ClickActions,
    pub ignore_rules: Vec<IgnoreRule>,
    pub context_menu: Vec<ContextMenuItem>,
}

/// The rules stored under an app id, first entry with that key winning.
pub open spec fn apps_lookup(apps: Seq<(String, Vec<AppRule>)>, k: Seq<char>) -> Option<
    Vec<AppRule>,
>
    decreases apps.len(),
{
    if apps.len() == 0 {
        None
    } else if apps[0].0@ == k {
        Some(apps[0].1)
    } else {
        apps_lookup(apps.drop_first(), k)
    }
}

/// The style classes of a rule list, in order.
pub open spec fn classes_of(rules: Seq<AppRule>) -> Seq<String>
    decreases rules.len(),
{
    if rules.len() == 0 {
        Seq::empty()
    } else {
        let rest = classes_of(rules.drop_last());
        match rules.last().class {
            Some(c) => rest.push(c),
            None => rest,
        }
    }
}

/// The style classes of the rules whose pattern matches the title, in order.
pub open spec fn matched_classes(rules: Seq<AppRule>, title: Seq<char>) -> Seq<String>
    decreases rules.len(),
{
    if rules.len() == 0 {
        Seq::empty()
    } else {
        let rest = matched_classes(rules.drop_last(), title);
        match rules.last().class {
            Some(c) => if regex_match_of(rules.last().pattern@, title) {
                rest.push(c)
            } else {
                rest
            },
            None => rest,
        }
    }
}

/// The click actions of the first rule whose pattern matches the title and
/// that overrides them.
pub open spec fn first_rule_actions(rules: Seq<AppRule>, title: Seq<char>) -> Option<ClickActions>
    decreases rules.len(),
{
    if rules.len() == 0 {
        None
    } else if regex_match_of(rules[0].pattern@, title) && rules[0].click_actions is Some {
        rules[0].click_actions
    } else {
        first_rule_actions(rules.drop_first(), title)
    }
}

/// Whether one ignore rule applies: every criterion the rule states must hold
/// of the window.
pub open spec fn ignore_rule_matches(
    rule: IgnoreRule,
    app_id: Option<&str>,
    title: Option<&str>,
    workspace_id: Option<u64>,
) -> bool {
    (match rule.app_id {
        Some(id) => match app_id {
            Some(a) => a@ == id@,
            None => false,
        },
        None => true,
    }) && (match rule.title {
        Some(t) => match title {
            Some(a) => a@ == t@,
            None => false,
        },
        None => true,
    }) && (match rule.title_contains {
        Some(c) => match title {
            Some(a) => has_substring(a@, c@),
            None => false,
        },
        None => true,
    }) && (match rule.title_regex {
        Some(p) => match title {
            Some(a) => regex_match_of(p@, a@),
            None => false,
        },
        None => true,
    }) && (match rule.workspace {
        Some(w) => workspace_id == Some(w),
        None => true,
    })
}

/// The taskbar width configured for an output, first entry with that name
/// winning.
pub open spec fn width_lookup(per_output: Seq<(String, i32)>, name: Seq<char>) -> Option<i32>
    decreases per_output.len(),
{
    if per_output.len() == 0 {
        None
    } else if per_output[0].0@ == name {
        Some(per_output[0].1)
    } else {
        width_lookup(per_output.drop_first(), name)
    }
}

impl Settings {
    /// All style classes configured for an app id, matching or not.
    pub fn get_app_classes(&self, app_id: &str) -> (r: Vec<String>)
        ensures
            r@ == (match apps_lookup(self.apps@, app_id@) {
                Some(rules) => classes_of(rules@),
                None => Seq::<String>::empty(),
            }),
    {
        match self.apps_get(app_id) {
            Some(rules) => {
                proof {
                    assert(rules@.take(0) =~= Seq::<AppRule>::empty());
                }
                let mut out: Vec<String> = Vec::new();
                let mut i: usize = 0;
                while i < rules.len()
                    invariant
                        0 <= i <= rules@.len(),
                        out@ == classes_of(rules@.take(i as int)),
                    decreases rules@.len() - i,
                {
                    proof {
                        assert(rules@.take(i as int + 1).drop_last() =~= rules@.take(i as int));
                        assert(rules@.take(i as int + 1).last() == rules@[i as int]);
                    }
                    if let Some(c) = &rules[i].class {
                        out.push(c.clone());
                    }
                    i += 1;
                }
                proof {
                    assert(rules@.take(rules@.len() as int) =~= rules@);
                }
                out
            },
            None => Vec::new(),
        }
    }

    /// The style classes of the rules for this app id whose pattern matches
    /// the title.
    pub fn match_app_rules(&self, app_id: &str, title: &str) -> (r: Vec<String>)
        ensures
            r@ == (match apps_lookup(self.apps@, app_id@) {
                Some(rules) => matched_classes(rules@, title@),
                None => Seq::<String>::empty(),
            }),
    {
        match self.apps_get(app_id) {
            Some(rules) => {
                proof {
                    assert(rules@.take(0) =~= Seq::<AppRule>::empty());
                }
                let mut out: Vec<String> = Vec::new();
                let mut i: usize = 0;
                while i < rules.len()
                    invariant
                        0 <= i <= rules@.len(),
                        out@ == matched_classes(rules@.take(i as int), title@),
                    decreases rules@.len() - i,
                {
                    proof {
                        assert(rules@.take(i as int + 1).drop_last() =~= rules@.take(i as int));
                        assert(rules@.take(i as int + 1).last() == rules@[i as int]);
                    }
                    if let Some(c) = &rules[i].class {
                        if regex_matches(rules[i].pattern.as_str(), title) {
                            out.push(c.clone());
                        }
                    }
                    i += 1;
                }
                proof {
                    assert(rules@.take(rules@.len() as int) =~= rules@);
                }
                out
            },
            None => Vec::new(),
        }
    }

    /// The click actions for a window: those of the first matching rule that
    /// overrides them, else the configured defaults.
    pub fn get_click_actions(&self, app_id: Option<&str>, title: Option<&str>) -> (r: ClickActions)
        ensures
            r == (match (app_id, title) {
                (Some(id), Some(t)) => match apps_lookup(self.apps@, id@) {
                    Some(rules) => match first_rule_actions(rules@, t@) {
                        Some(actions) => actions,
                        None => self.click_actions,
                    },
                    None => self.click_actions,
                },
                _ => self.click_actions,
            }),
    {
        if let (Some(id), Some(t)) = (app_id, title) {
            if let Some(rules) = self.apps_get(id) {
                proof {
                    assert(rules@.skip(0) =~= rules@);
                }
                let mut i: usize = 0;
                while i < rules.len()
                    invariant
                        0 <= i <= rules@.len(),
                        app_id == Some(id),
                        title == Some(t),
                        apps_lookup(self.apps@, id@) == Some(*rules),
                        first_rule_actions(rules@, t@) == first_rule_actions(
                            rules@.skip(i as int),
                            t@,
                        ),
                    decreases rules@.len() - i,
                {
                    proof {
                        assert(rules@.skip(i as int)[0] == rules@[i as int]);
                    }
                    if regex_matches(rules[i].pattern.as_str(), t) {
                        if let Some(actions) = rules[i].click_actions {
                            return actions;
                        }
                    }
                    proof {
                        assert(rules@.skip(i as int).drop_first() =~= rules@.skip(i as int + 1));
                    }
                    i += 1;
                }
                return self.click_actions;
            }
        }
        self.click_actions
    }

    /// Whether a window is hidden from the taskbar: some ignore rule applies.
    pub fn should_ignore(
        &self,
        app_id: Option<&str>,
        title: Option<&str>,
        workspace_id: Option<u64>,
    ) -> (r: bool)
        ensures
            r == exists|i: int|
                0 <= i < self.ignore_rules@.len() && ignore_rule_matches(
                    #[trigger] self.ignore_rules@[i],
                    app_id,
                    title,
                    workspace_id,
                ),
    {
        let mut i: usize = 0;
        while i < self.ignore_rules.len()
            invariant
                0 <= i <= self.ignore_rules@.len(),
                forall|j: int|
                    0 <= j < i ==> !ignore_rule_matches(
                        #[trigger] self.ignore_rules@[j],
                        app_id,
                        title,
                        workspace_id,
                    ),
            decreases self.ignore_rules@.len() - i,
        {
            let rule = &self.ignore_rules[i];
            let app_ok = match (&rule.app_id, app_id) {
                (Some(id), Some(a)) => str_eq(a, id.as_str()),
                (Some(_), None) => false,
                (None, _) => true,
            };
            let title_ok = match (&rule.title, title) {
                (Some(t), Some(a)) => str_eq(a, t.as_str()),
                (Some(_), None) => false,
                (None, _) => true,
            };
            let contains_ok = match (&rule.title_contains, title) {
                (Some(c), Some(a)) => str_contains(a, c.as_str()),
                (Some(_), None) => false,
                (None, _) => true,
            };
            let regex_ok = match (&rule.title_regex, title) {
                (Some(p), Some(a)) => regex_matches(p.as_str(), a),
                (Some(_), None) => false,
                (None, _) => true,
            };
            let ws_ok = match rule.workspace {
                Some(w) => workspace_id == Some(w),
                None => true,
            };
            if app_ok && title_ok && contains_ok && regex_ok && ws_ok {
                return true;
            }
            i += 1;
        }
        false
    }

    pub fn notifications_enabled(&self) -> (r: bool)
        ensures
            r == self.notifications.enabled,
    {
        self.notifications.enabled
    }

    /// The rename-table entry for an app id, if the table has one.
    pub fn notifications_app_map(&self, app_id: &str) -> (r: Option<&str>)
        ensures
            match r {
                Some(v) => rename_lookup(self.notifications.map_app_ids@, app_id@) == Some(v@),
                None => rename_lookup(self.notifications.map_app_ids@, app_id@) is None,
            },
    {
        let map = &self.notifications.map_app_ids;
        proof {
            assert(map@.skip(0) =~= map@);
        }
        let mut i: usize = 0;
        while i < map.len()
            invariant
                0 <= i <= map@.len(),
                map == &self.notifications.map_app_ids,
                rename_lookup(map@, app_id@) == rename_lookup(map@.skip(i as int), app_id@),
            decreases map@.len() - i,
        {
            proof {
                assert(map@.skip(i as int)[0] == map@[i as int]);
            }
            if str_eq(map[i].0.as_str(), app_id) {
                return Some(map[i].1.as_str());
            }
            proof {
                assert(map@.skip(i as int).drop_first() =~= map@.skip(i as int + 1));
            }
            i += 1;
        }
        None
    }

    pub fn notifications_use_desktop_entry(&self) -> (r: bool)
        ensures
            r == self.notifications.use_desktop_entry,
    {
        self.notifications.use_desktop_entry
    }

    pub fn notifications_use_fuzzy_matching(&self) -> (r: bool)
        ensures
            r == self.notifications.use_fuzzy_matching,
    {
        self.notifications.use_fuzzy_matching
    }

    pub fn show_all_outputs(&self) -> (r: bool)
        ensures
            r == self.show_all_outputs,
    {
        self.show_all_outputs
    }

    pub fn only_current_workspace(&self) -> (r: bool)
        ensures
            r == self.only_current_workspace,
    {
        self.only_current_workspace
    }

    pub fn show_window_titles(&self) -> (r: bool)
        ensures
            r == self.show_window_titles,
    {
        self.show_window_titles
    }

    pub fn min_button_width(&self) -> (r: i32)
        ensures
            r == self.min_button_width,
    {
        self.min_button_width
    }

    pub fn max_button_width(&self) -> (r: i32)
        ensures
            r == self.max_button_width,
    {
        self.max_button_width
    }

    pub fn icon_size(&self) -> (r: i32)
        ensures
            r == self.icon_size,
    {
        self.icon_size
    }

    pub fn icon_spacing(&self) -> (r: i32)
        ensures
            r == self.icon_spacing,
    {
        self.icon_spacing
    }

    /// The taskbar width cap for an output: its configured width, else the
    /// overall one.
    pub fn max_taskbar_width_for_output(&self, output: Option<&str>) -> (r: i32)
        ensures
            r == (match output {
                Some(name) => match width_lookup(self.max_taskbar_width_per_output@, name@) {
                    Some(w) => w,
                    None => self.max_taskbar_width,
                },
                None => self.max_taskbar_width,
            }),
    {
        let per_output = &self.max_taskbar_width_per_output;
        match output {
            Some(name) => {
                proof {
                    assert(per_output@.skip(0) =~= per_output@);
                }
                let mut i: usize = 0;
                while i < per_output.len()
                    invariant
                        0 <= i <= per_output@.len(),
                        output == Some(name),
                        per_output == &self.max_taskbar_width_per_output,
                        width_lookup(per_output@, name@) == width_lookup(
                            per_output@.skip(i as int),
                            name@,
                        ),
                    decreases per_output@.len() - i,
                {
                    proof {
                        assert(per_output@.skip(i as int)[0] == per_output@[i as int]);
                    }
                    if str_eq(per_output[i].0.as_str(), name) {
                        return per_output[i].1;
                    }
                    proof {
                        assert(per_output@.skip(i as int).drop_first() =~= per_output@.skip(
                            i as int + 1,
                        ));
                    }
                    i += 1;
                }
                self.max_taskbar_width
            },
            None => self.max_taskbar_width,
        }
    }

    pub fn scroll_arrow_left(&self) -> (r: &str)
        ensures
            r@ == self.scroll_arrow_left@,
    {
        self.scroll_arrow_left.as_str()
    }

    pub fn scroll_arrow_right(&self) -> (r: &str)
        ensures
            r@ == self.scroll_arrow_right@,
    {
        self.scroll_arrow_right.as_str()
    }

    pub fn context_menu(&self) -> (r: &Vec<ContextMenuItem>)
        ensures
            r@ == self.context_menu@,
    {
        &self.context_menu
    }

    /// The rule list stored under an app id, by scan.
    fn apps_get(&self, app_id: &str) -> (r: Option<&Vec<AppRule>>)
        ensures
            match r {
                Some(rules) => apps_lookup(self.apps@, app_id@) == Some(*rules),
                None => apps_lookup(self.apps@, app_id@) is None,
            },
    {
        let apps = &self.apps;
        proof {
            assert(apps@.skip(0) =~= apps@);
        }
        let mut i: usize = 0;
        while i < apps.len()
            invariant
                0 <= i <= apps@.len(),
                apps == &self.apps,
                apps_lookup(apps@, app_id@) == apps_lookup(apps@.skip(i as int), app_id@),
            decreases apps@.len() - i,
        {
            proof {
                assert(apps@.skip(i as int)[0] == apps@[i as int]);
            }
            if str_eq(apps[i].0.as_str(), app_id) {
                return Some(&apps[i].1);
            }
            proof {
                assert(apps@.skip(i as int).drop_first() =~= apps@.skip(i as int + 1));
            }
            i += 1;
        }
        None
    }
}

} // verus!
