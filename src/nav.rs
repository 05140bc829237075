//! The interactive navigator's decisions: the picker, a query over a fuzzy
//! ranking, and the list, a layered modal state machine. Drawing, reading
//! keys and the work a command asks for happen outside; each key press is
//! handed to `handle_key`, which returns what to do next.
use vstd::prelude::*;

use crate::fuzzy::{is_ranking, scores_for, FuzzyMatch, FuzzyMatcher};
use crate::registry::Project;
use crate::stats::{byte_size_text, human_bytes, GitStatus, ProjectStats};

verus! {

/// A key press as the navigator sees it.
#[derive(Debug, Clone, Copy, PartialEq, Eq, Structural)]
pub enum Key {
    Up,
    Down,
    Enter,
    Esc,
    Backspace,
    Char(char),
    Other,
}

/// Relies on std's `String::push`: appends one character.
#[verifier::external_body]
fn push_char(s: &mut String, c: char)
    ensures
        final(s)@ == old(s)@.push(c),
{
    s.push(c)
}

/// `s` without its last character; `s` itself where it is empty.
fn without_last_char(s: &String) -> (r: String)
    ensures
        r@ == if s@.len() == 0 {
            s@
        } else {
            s@.drop_last()
        },
{
    let n = s.as_str().unicode_len();
    if n == 0 {
        return s.clone();
    }
    let r = String::from_str(s.as_str().substring_char(0, n - 1));
    assert(r@ =~= s@.drop_last());
    r
}

/// `r` is what `FuzzyMatcher::filter` returns for query `q` over `names`.
pub open spec fn filtered_for(q: Seq<char>, r: Seq<FuzzyMatch>, names: Seq<String>) -> bool {
    &&& q.len() == 0 ==> r.len() == names.len() && forall|k: int|
        0 <= k < r.len() ==> #[trigger] r[k] == (FuzzyMatch { index: k as usize, score: 0 })
    &&& q.len() > 0 ==> is_ranking(r, scores_for(q, names))
}

/// State of the picker: the query typed so far, the candidates it matches,
/// and the highlighted line among them.
pub struct PickerState {
    pub query: String,
    pub filtered: Vec<FuzzyMatch>,
    pub selected: usize,
}

/// What the picker does after a key press.
#[derive(Debug, Clone, Copy, PartialEq, Eq, Structural)]
pub enum PickerStep {
    Continue,
    /// The picker ends, with the index of the chosen candidate, if any.
    Finish(Option<usize>),
}

impl PickerState {
    /// The picker as it opens: an empty query showing every candidate.
    pub fn new(matcher: &mut FuzzyMatcher, names: &[String]) -> (r: PickerState)
        ensures
            r.query@ == Seq::<char>::empty(),
            r.selected == 0,
            filtered_for(r.query@, r.filtered@, names@),
    {
        let query = String::new();
        let filtered = matcher.filter(query.as_str(), names);
        PickerState { query, filtered, selected: 0 }
    }

    /// Applies one key press. Characters and backspace edit the query and
    /// rank the candidates anew, highlighting the first; up and down move
    /// the highlight, clamped; Enter ends with the highlighted candidate,
    /// Escape with none.
    pub fn handle_key(&mut self, key: Key, matcher: &mut FuzzyMatcher, names: &[String]) -> (r: PickerStep)
        ensures
            key == Key::Esc ==> r == PickerStep::Finish(None) && *final(self) == *old(self),
            key == Key::Enter ==> *final(self) == *old(self) && r == PickerStep::Finish(
                if old(self).selected < old(self).filtered@.len() {
                    Some(old(self).filtered@[old(self).selected as int].index)
                } else {
                    None
                },
            ),
            key == Key::Up ==> r == PickerStep::Continue && final(self).query == old(self).query
                && final(self).filtered == old(self).filtered && final(self).selected == if old(self).selected > 0 {
                (old(self).selected - 1) as usize
            } else {
                old(self).selected
            },
            key == Key::Down ==> r == PickerStep::Continue && final(self).query == old(self).query
                && final(self).filtered == old(self).filtered && final(self).selected == if old(self).selected + 1
                < old(self).filtered@.len() {
                (old(self).selected + 1) as usize
            } else {
                old(self).selected
            },
            key is Char ==> r == PickerStep::Continue && final(self).query@ == old(self).query@.push(key->0)
                && final(self).selected == 0 && filtered_for(final(self).query@, final(self).filtered@, names@),
            key == Key::Backspace ==> r == PickerStep::Continue && final(self).query@ == (if old(self).query@.len() == 0 {
                old(self).query@
            } else {
                old(self).query@.drop_last()
            }) && final(self).selected == 0 && filtered_for(final(self).query@, final(self).filtered@, names@),
            key == Key::Other ==> r == PickerStep::Continue && *final(self) == *old(self),
    {
        match key {
            Key::Esc => PickerStep::Finish(None),
            Key::Enter => {
                if self.selected < self.filtered.len() {
                    PickerStep::Finish(Some(self.filtered[self.selected].index))
                } else {
                    PickerStep::Finish(None)
                }
            },
            Key::Up => {
                if self.selected > 0 {
                    self.selected = self.selected - 1;
                }
                PickerStep::Continue
            },
            Key::Down => {
                if self.selected < self.filtered.len() && self.selected + 1 < self.filtered.len() {
                    self.selected = self.selected + 1;
                }
                PickerStep::Continue
            },
            Key::Backspace => {
                self.query = without_last_char(&self.query);
                self.filtered = matcher.filter(self.query.as_str(), names);
                self.selected = 0;
                PickerStep::Continue
            },
            Key::Char(c) => {
                push_char(&mut self.query, c);
                self.filtered = matcher.filter(self.query.as_str(), names);
                self.selected = 0;
                PickerStep::Continue
            },
            Key::Other => PickerStep::Continue,
        }
    }
}

/// The actions the list offers on a project.
#[derive(Debug, Clone, Copy, PartialEq, Eq, Structural)]
pub enum ListAction {
    ViewStats,
    CleanArtifacts,
    OpenEditor,
    OpenExplorer,
    CdToProject,
    Remove,
}

/// One line of the action menu.
#[derive(Debug, Clone, Copy)]
pub struct MenuItem {
    pub action: ListAction,
    pub label: &'static str,
    pub description: &'static str,
}

/// The actions of the menu for a project: cleaning is offered only where
/// the project records artifact directories.
pub open spec fn menu_actions(has_artifacts: bool) -> Seq<ListAction> {
    if has_artifacts {
        seq![
            ListAction::ViewStats,
            ListAction::CleanArtifacts,
            ListAction::OpenEditor,
            ListAction::OpenExplorer,
            ListAction::CdToProject,
            ListAction::Remove,
        ]
    } else {
        seq![
            ListAction::ViewStats,
            ListAction::OpenEditor,
            ListAction::OpenExplorer,
            ListAction::CdToProject,
            ListAction::Remove,
        ]
    }
}

/// The actions of the menu for project `p`.
pub open spec fn project_menu(p: Project) -> Seq<ListAction> {
    menu_actions(p.artifact_dirs@.len() > 0)
}

pub open spec fn action_label(a: ListAction) -> Seq<char> {
    match a {
        ListAction::ViewStats => "View stats"@,
        ListAction::CleanArtifacts => "Clean artifacts"@,
        ListAction::OpenEditor => "Open in editor"@,
        ListAction::OpenExplorer => "Open in explorer"@,
        ListAction::CdToProject => "cd to project"@,
        ListAction::Remove => "Remove"@,
    }
}

pub open spec fn action_description(a: ListAction) -> Seq<char> {
    match a {
        ListAction::ViewStats => "Show detailed project statistics"@,
        ListAction::CleanArtifacts => "Delete build artifact directories"@,
        ListAction::OpenEditor => "Open project in $EDITOR"@,
        ListAction::OpenExplorer => "Open project folder in file manager"@,
        ListAction::CdToProject => "Change directory to project"@,
        ListAction::Remove => "Unregister project from database"@,
    }
}

fn menu_item(action: ListAction) -> (r: MenuItem)
    ensures
        r.action == action,
        r.label@ == action_label(action),
        r.description@ == action_description(action),
{
    match action {
        ListAction::ViewStats => MenuItem {
            action,
            label: "View stats",
            description: "Show detailed project statistics",
        },
        ListAction::CleanArtifacts => MenuItem {
            action,
            label: "Clean artifacts",
            description: "Delete build artifact directories",
        },
        ListAction::OpenEditor => MenuItem {
            action,
            label: "Open in editor",
            description: "Open project in $EDITOR",
        },
        ListAction::OpenExplorer => MenuItem {
            action,
            label: "Open in explorer",
            description: "Open project folder in file manager",
        },
        ListAction::CdToProject => MenuItem {
            action,
            label: "cd to project",
            description: "Change directory to project",
        },
        ListAction::Remove => MenuItem {
            action,
            label: "Remove",
            description: "Unregister project from database",
        },
    }
}

/// The action menu for a project, in display order.
pub fn menu_items(project: &Project) -> (r: Vec<MenuItem>)
    ensures
        r@.len() == project_menu(*project).len(),
        forall|k: int| 0 <= k < r@.len() ==> {
            &&& #[trigger] r@[k].action == project_menu(*project)[k]
            &&& r@[k].label@ == action_label(r@[k].action)
            &&& r@[k].description@ == action_description(r@[k].action)
        },
{
    let mut items: Vec<MenuItem> = Vec::new();
    items.push(menu_item(ListAction::ViewStats));
    if project.artifact_dirs.len() > 0 {
        items.push(menu_item(ListAction::CleanArtifacts));
    }
    items.push(menu_item(ListAction::OpenEditor));
    items.push(menu_item(ListAction::OpenExplorer));
    items.push(menu_item(ListAction::CdToProject));
    items.push(menu_item(ListAction::Remove));
    items
}

/// The operation a confirmation dialog waits to run.
#[derive(Debug, Clone, Copy, PartialEq, Eq, Structural)]
pub enum PendingAction {
    Remove,
    CleanArtifacts,
}

/// The modes of the list, each with the data it needs.
#[derive(Debug)]
pub enum ListMode {
    Browsing,
    ActionMenu { menu_selected: usize },
    ViewingStats { stats: ProjectStats },
    Confirming { action: &'static str, on_confirm: PendingAction },
    CleanResult { message: String },
}

/// State of the list: the highlighted project, the git status of each
/// project (aligned with the project list), the mode, and a transient
/// status message.
pub struct ListState {
    pub selected: usize,
    pub git_statuses: Vec<Option<GitStatus>>,
    pub mode: ListMode,
    pub message: Option<String>,
}

/// What the list asks of its caller after a key press.
#[derive(Debug)]
pub enum ListCommand {
    /// Nothing beyond drawing again.
    Continue,
    /// The list ends, with the path to change to, if any.
    Exit(Option<String>),
    /// Collect the highlighted project's statistics and hand them to
    /// `show_stats`.
    CollectStats,
    /// Run the editor on the highlighted project, then call `editor_closed`.
    LaunchEditor,
    /// Start the file manager on the highlighted project, then call
    /// `explorer_launched`.
    LaunchExplorer,
    /// A project was removed: save the registry and hand fresh git statuses
    /// to `refresh_statuses`; where `exit` holds the list is now empty and
    /// ends without a result.
    Persist { exit: bool },
    /// Clean the highlighted project's artifacts and hand the outcome to
    /// `clean_finished`.
    RunClean,
}

pub open spec fn is_up(k: Key) -> bool {
    k == Key::Up || k == Key::Char('k')
}

pub open spec fn is_down(k: Key) -> bool {
    k == Key::Down || k == Key::Char('j')
}

/// Only the highlighted line and the mode differ between `o` and `n`.
pub open spec fn keeps_data(o: ListState, n: ListState) -> bool {
    n.git_statuses == o.git_statuses && n.message == o.message
}

pub open spec fn is_confirming(m: ListMode, label: Seq<char>, pending: PendingAction) -> bool {
    m matches ListMode::Confirming { action, on_confirm } && action@ == label && on_confirm == pending
}

/// A key press while browsing.
pub open spec fn browse_step(o: ListState, n: ListState, len: nat, key: Key, r: ListCommand) -> bool {
    &&& keeps_data(o, n)
    &&& if key == Key::Char('q') || key == Key::Esc {
        r == ListCommand::Exit(None) && n.mode == o.mode && n.selected == o.selected
    } else if is_up(key) {
        r == ListCommand::Continue && n.mode == o.mode && n.selected == if o.selected > 0 {
            (o.selected - 1) as usize
        } else {
            o.selected
        }
    } else if is_down(key) {
        r == ListCommand::Continue && n.mode == o.mode && n.selected == if o.selected + 1 < len {
            (o.selected + 1) as usize
        } else {
            o.selected
        }
    } else if key == Key::Enter {
        r == ListCommand::Continue && n.selected == o.selected && n.mode == (ListMode::ActionMenu {
            menu_selected: 0,
        })
    } else {
        r == ListCommand::Continue && n.mode == o.mode && n.selected == o.selected
    }
}

/// A key press in the action menu at line `m`, over project `p`.
pub open spec fn menu_step(o: ListState, n: ListState, p: Project, m: usize, key: Key, r: ListCommand) -> bool {
    let acts = project_menu(p);
    &&& keeps_data(o, n)
    &&& n.selected == o.selected
    &&& if key == Key::Esc {
        r == ListCommand::Continue && n.mode == ListMode::Browsing
    } else if is_up(key) {
        r == ListCommand::Continue && n.mode == (ListMode::ActionMenu {
            menu_selected: if m > 0 {
                (m - 1) as usize
            } else {
                m
            },
        })
    } else if is_down(key) {
        r == ListCommand::Continue && n.mode == (ListMode::ActionMenu {
            menu_selected: if m + 1 < acts.len() {
                (m + 1) as usize
            } else {
                m
            },
        })
    } else if key == Key::Enter && m < acts.len() {
        match acts[m as int] {
            ListAction::ViewStats => r == ListCommand::CollectStats && n.mode == o.mode,
            ListAction::CleanArtifacts => r == ListCommand::Continue && is_confirming(
                n.mode,
                "Clean artifacts"@,
                PendingAction::CleanArtifacts,
            ),
            ListAction::OpenEditor => r == ListCommand::LaunchEditor && n.mode == o.mode,
            ListAction::OpenExplorer => r == ListCommand::LaunchExplorer && n.mode == o.mode,
            ListAction::CdToProject => r == ListCommand::Exit(Some(p.path)) && n.mode == o.mode,
            ListAction::Remove => r == ListCommand::Continue && is_confirming(
                n.mode,
                "Remove project"@,
                PendingAction::Remove,
            ),
        }
    } else {
        r == ListCommand::Continue && n.mode == o.mode
    }
}

/// A key press that leaves a view on `close` keys and ignores the others.
pub open spec fn view_step(o: ListState, n: ListState, close: bool, r: ListCommand) -> bool {
    &&& keeps_data(o, n)
    &&& n.selected == o.selected
    &&& r == ListCommand::Continue
    &&& n.mode == if close {
        ListMode::Browsing
    } else {
        o.mode
    }
}

/// Confirming removal of the highlighted project.
pub open spec fn remove_step(o: ListState, n: ListState, po: Seq<Project>, pn: Seq<Project>, r: ListCommand) -> bool {
    let sel = o.selected as int;
    &&& pn == po.remove(sel)
    &&& n.git_statuses@ == o.git_statuses@.remove(sel)
    &&& n.selected == if o.selected >= pn.len() && pn.len() > 0 {
        (pn.len() - 1) as usize
    } else {
        o.selected
    }
    &&& n.message matches Some(msg) && msg@ == "Removed: "@ + po[sel].name@
    &&& n.mode == ListMode::Browsing
    &&& r == (ListCommand::Persist { exit: pn.len() == 0 })
}

/// A key press while a confirmation waits for `pending`.
pub open spec fn confirm_step(
    o: ListState,
    n: ListState,
    po: Seq<Project>,
    pn: Seq<Project>,
    pending: PendingAction,
    key: Key,
    r: ListCommand,
) -> bool {
    if key == Key::Char('y') || key == Key::Char('Y') {
        match pending {
            PendingAction::Remove => remove_step(o, n, po, pn, r),
            PendingAction::CleanArtifacts => r == ListCommand::RunClean && n == o && pn == po,
        }
    } else {
        &&& pn == po
        &&& view_step(o, n, key == Key::Char('n') || key == Key::Char('N') || key == Key::Esc, r)
    }
}

impl ListState {
    /// The list's invariant over the live project list: a project is
    /// highlighted and the git statuses are aligned with the projects.
    pub open spec fn wf(&self, projects: Seq<Project>) -> bool {
        &&& self.selected < projects.len()
        &&& self.git_statuses@.len() == projects.len()
    }

    /// The list as it opens: browsing, first project highlighted.
    pub fn new(git_statuses: Vec<Option<GitStatus>>) -> (r: ListState)
        ensures
            r.selected == 0,
            r.git_statuses == git_statuses,
            r.mode == ListMode::Browsing,
            r.message is None,
    {
        ListState { selected: 0, git_statuses, mode: ListMode::Browsing, message: None }
    }

    /// Applies one key press to the list over `projects`.
    pub fn handle_key(&mut self, projects: &mut Vec<Project>, key: Key) -> (r: ListCommand)
        requires
            old(self).wf(old(projects)@),
        ensures
            old(self).mode is Browsing ==> final(projects)@ == old(projects)@ && browse_step(
                *old(self),
                *final(self),
                old(projects)@.len(),
                key,
                r,
            ),
            old(self).mode matches ListMode::ActionMenu { menu_selected } ==> final(projects)@
                == old(projects)@ && menu_step(
                *old(self),
                *final(self),
                old(projects)@[old(self).selected as int],
                menu_selected,
                key,
                r,
            ),
            old(self).mode is ViewingStats ==> final(projects)@ == old(projects)@ && view_step(
                *old(self),
                *final(self),
                key == Key::Esc || key == Key::Char('q') || key == Key::Enter,
                r,
            ),
            old(self).mode matches ListMode::Confirming { on_confirm, .. } ==> confirm_step(
                *old(self),
                *final(self),
                old(projects)@,
                final(projects)@,
                on_confirm,
                key,
                r,
            ),
            old(self).mode is CleanResult ==> final(projects)@ == old(projects)@ && view_step(
                *old(self),
                *final(self),
                key == Key::Esc || key == Key::Enter,
                r,
            ),
            final(projects)@.len() > 0 ==> final(self).wf(final(projects)@),
    {
        match &self.mode {
            ListMode::Browsing => self.browse_key(projects.len(), key),
            ListMode::ActionMenu { menu_selected } => {
                let m = *menu_selected;
                self.menu_key(&projects[self.selected], m, key)
            },
            ListMode::ViewingStats { .. } => {
                if key == Key::Esc || key == Key::Char('q') || key == Key::Enter {
                    self.mode = ListMode::Browsing;
                }
                ListCommand::Continue
            },
            ListMode::Confirming { on_confirm, .. } => {
                let pending = *on_confirm;
                if key == Key::Char('y') || key == Key::Char('Y') {
                    match pending {
                        PendingAction::Remove => self.confirm_remove(projects),
                        PendingAction::CleanArtifacts => ListCommand::RunClean,
                    }
                } else {
                    if key == Key::Char('n') || key == Key::Char('N') || key == Key::Esc {
                        self.mode = ListMode::Browsing;
                    }
                    ListCommand::Continue
                }
            },
            ListMode::CleanResult { .. } => {
                if key == Key::Esc || key == Key::Enter {
                    self.mode = ListMode::Browsing;
                }
                ListCommand::Continue
            },
        }
    }

    fn browse_key(&mut self, len: usize, key: Key) -> (r: ListCommand)
        requires
            old(self).selected < len,
        ensures
            browse_step(*old(self), *final(self), len as nat, key, r),
    {
        if key == Key::Char('q') || key == Key::Esc {
            ListCommand::Exit(None)
        } else if key == Key::Up || key == Key::Char('k') {
            if self.selected > 0 {
                self.selected = self.selected - 1;
            }
            ListCommand::Continue
        } else if key == Key::Down || key == Key::Char('j') {
            if self.selected + 1 < len {
                self.selected = self.selected + 1;
            }
            ListCommand::Continue
        } else if key == Key::Enter {
            self.mode = ListMode::ActionMenu { menu_selected: 0 };
            ListCommand::Continue
        } else {
            ListCommand::Continue
        }
    }

    fn menu_key(&mut self, project: &Project, m: usize, key: Key) -> (r: ListCommand)
        requires
            old(self).mode == (ListMode::ActionMenu { menu_selected: m }),
        ensures
            menu_step(*old(self), *final(self), *project, m, key, r),
    {
        let items = menu_items(project);
        if key == Key::Esc {
            self.mode = ListMode::Browsing;
            ListCommand::Continue
        } else if key == Key::Up || key == Key::Char('k') {
            if m > 0 {
                self.mode = ListMode::ActionMenu { menu_selected: m - 1 };
            }
            ListCommand::Continue
        } else if key == Key::Down || key == Key::Char('j') {
            if m < items.len() && m + 1 < items.len() {
                self.mode = ListMode::ActionMenu { menu_selected: m + 1 };
            }
            ListCommand::Continue
        } else if key == Key::Enter && m < items.len() {
            match items[m].action {
                ListAction::ViewStats => ListCommand::CollectStats,
                ListAction::CleanArtifacts => {
                    self.mode = ListMode::Confirming {
                        action: "Clean artifacts",
                        on_confirm: PendingAction::CleanArtifacts,
                    };
                    ListCommand::Continue
                },
                ListAction::OpenEditor => ListCommand::LaunchEditor,
                ListAction::OpenExplorer => ListCommand::LaunchExplorer,
                ListAction::CdToProject => ListCommand::Exit(Some(project.path.clone())),
                ListAction::Remove => {
                    self.mode = ListMode::Confirming {
                        action: "Remove project",
                        on_confirm: PendingAction::Remove,
                    };
                    ListCommand::Continue
                },
            }
        } else {
            ListCommand::Continue
        }
    }

    fn confirm_remove(&mut self, projects: &mut Vec<Project>) -> (r: ListCommand)
        requires
            old(self).wf(old(projects)@),
        ensures
            remove_step(*old(self), *final(self), old(projects)@, final(projects)@, r),
            final(projects)@.len() > 0 ==> final(self).wf(final(projects)@),
    {
        let removed = projects.remove(self.selected);
        let _ = self.git_statuses.remove(self.selected);
        if self.selected >= projects.len() && projects.len() > 0 {
            self.selected = projects.len() - 1;
        }
        self.message = Some(String::from_str("Removed: ").concat(removed.name.as_str()));
        self.mode = ListMode::Browsing;
        ListCommand::Persist { exit: projects.len() == 0 }
    }

    /// The statistics asked for by `CollectStats` are ready: show them.
    pub fn show_stats(&mut self, stats: ProjectStats)
        ensures
            final(self).mode == (ListMode::ViewingStats { stats }),
            final(self).selected == old(self).selected,
            keeps_data(*old(self), *final(self)),
    {
        self.mode = ListMode::ViewingStats { stats };
    }

    /// The editor asked for by `LaunchEditor` has exited; `failure` holds why
    /// it could not be launched, if it could not.
    pub fn editor_closed(&mut self, failure: Option<String>)
        ensures
            final(self).mode == ListMode::Browsing,
            final(self).selected == old(self).selected,
            final(self).git_statuses == old(self).git_statuses,
            failure is None ==> final(self).message == old(self).message,
            failure matches Some(e) ==> (final(self).message matches Some(m) && m@ == "Failed to launch editor: "@ + e@),
    {
        if let Some(e) = failure {
            self.message = Some(String::from_str("Failed to launch editor: ").concat(e.as_str()));
        }
        self.mode = ListMode::Browsing;
    }

    /// The file manager asked for by `LaunchExplorer` was started, or
    /// `failure` holds why it was not.
    pub fn explorer_launched(&mut self, failure: Option<String>)
        ensures
            final(self).mode == ListMode::Browsing,
            final(self).selected == old(self).selected,
            final(self).git_statuses == old(self).git_statuses,
            failure is None ==> (final(self).message matches Some(m) && m@ == "Opened in file manager"@),
            failure matches Some(e) ==> (final(self).message matches Some(m) && m@ == "Failed to open file manager: "@ + e@),
    {
        self.mode = ListMode::Browsing;
        self.message = Some(
            match failure {
                None => String::from_str("Opened in file manager"),
                Some(e) => String::from_str("Failed to open file manager: ").concat(e.as_str()),
            },
        );
    }

    /// The clean asked for by `RunClean` is done: the bytes it freed, or the
    /// error it met. Shows the outcome.
    pub fn clean_finished(&mut self, projects: &Vec<Project>, outcome: Result<u64, String>)
        requires
            old(self).wf(projects@),
        ensures
            final(self).selected == old(self).selected,
            keeps_data(*old(self), *final(self)),
            outcome matches Ok(bytes) ==> (final(self).mode matches ListMode::CleanResult { message } && message@
                == "Cleaned "@ + projects@[old(self).selected as int].name@ + ": freed "@ + byte_size_text(bytes)),
            outcome matches Err(e) ==> (final(self).mode matches ListMode::CleanResult { message } && message@
                == "Error: "@ + e@),
    {
        let message = match outcome {
            Ok(bytes) => {
                let size = human_bytes(bytes);
                String::from_str("Cleaned ").concat(projects[self.selected].name.as_str()).concat(
                    ": freed ",
                ).concat(size.as_str())
            },
            Err(e) => String::from_str("Error: ").concat(e.as_str()),
        };
        self.mode = ListMode::CleanResult { message };
    }

    /// Fresh git statuses, one per project, after the list changed.
    pub fn refresh_statuses(&mut self, statuses: Vec<Option<GitStatus>>)
        ensures
            final(self).git_statuses == statuses,
            final(self).selected == old(self).selected,
            final(self).mode == old(self).mode,
            final(self).message == old(self).message,
    {
        self.git_statuses = statuses;
    }
}

} // verus!
