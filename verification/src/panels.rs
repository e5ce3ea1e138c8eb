//! What the desktop client's panels list: the session tree, the models, the
//! presets and the cards of tool calls.

use crate::choices::{ModelChoice, ModelChoiceView};
use crate::desktop::{
    distinct_workspaces, title_in, App, AppView, SessionTitleView, UiCmd, UiCmdView,
    WorkspaceSessions, WorkspaceSessionsView,
};
use crate::json::{json_members, member_view, object_members, three, two};
use crate::labels::{label_of_workspace, truncate, truncated, workspace_label};
use crate::protocol::{PresetSummary, SessionSummary, SessionSummaryView};
use crate::text::{
    concat3, contains_text, find, from_chars, join, join_text, lowercase, lowercase_text, opt_view,
    same, split, split_text, to_chars, trim, trim_text, views, Text,
};
use vstd::prelude::*;

verus! {

/// The content of a [`SessionRow`].
#[verifier::ext_equal]
pub struct SessionRowView {
    pub session_id: Text,
    pub title: Text,
    pub last_opened_ms: u64,
    pub selected: bool,
}

/// A session in the sidebar.
#[derive(Debug, Eq, PartialEq)]
pub struct SessionRow {
    pub session_id: String,
    pub title: String,
    pub last_opened_ms: u64,
    pub selected: bool,
}

impl View for SessionRow {
    type V = SessionRowView;

    open spec fn view(&self) -> SessionRowView {
        SessionRowView {
            session_id: self.session_id@,
            title: self.title@,
            last_opened_ms: self.last_opened_ms,
            selected: self.selected,
        }
    }
}

impl Clone for SessionRow {
    fn clone(&self) -> (r: Self)
        ensures
            r@ == self@,
    {
        let r = SessionRow {
            session_id: self.session_id.clone(),
            title: self.title.clone(),
            last_opened_ms: self.last_opened_ms,
            selected: self.selected,
        };
        assert(r@ =~~= self@);
        r
    }
}

/// The content of a [`WorkspaceRow`].
#[verifier::ext_equal]
pub struct WorkspaceRowView {
    pub workspace: Text,
    pub label: Text,
    pub unfolded: bool,
    pub sessions: Seq<SessionRowView>,
}

/// A workspace in the sidebar with its sessions. `unfolded` says whether they are
/// shown at first.
#[derive(Debug, Eq, PartialEq)]
pub struct WorkspaceRow {
    pub workspace: String,
    pub label: String,
    pub unfolded: bool,
    pub sessions: Vec<SessionRow>,
}

impl View for WorkspaceRow {
    type V = WorkspaceRowView;

    open spec fn view(&self) -> WorkspaceRowView {
        WorkspaceRowView {
            workspace: self.workspace@,
            label: self.label@,
            unfolded: self.unfolded,
            sessions: views(self.sessions@),
        }
    }
}

impl Clone for WorkspaceRow {
    fn clone(&self) -> (r: Self)
        ensures
            r@ == self@,
    {
        let r = WorkspaceRow {
            workspace: self.workspace.clone(),
            label: self.label.clone(),
            unfolded: self.unfolded,
            sessions: self.sessions.clone(),
        };
        assert(r@ =~~= self@);
        r
    }
}

/// Whether a search finds one of some texts. An empty search finds everything.
pub open spec fn search_finds(filter: Text, texts: Seq<Text>) -> bool {
    filter.len() == 0 || exists|i: int|
        0 <= i < texts.len() && find(#[trigger] texts[i], filter) is Some
}

/// Whether a search finds one of some texts.
pub fn found_in(filter: &str, texts: &Vec<String>) -> (r: bool)
    ensures
        r == search_finds(filter@, views(texts@)),
{
    if filter.is_empty() {
        return true;
    }
    let ghost all = views(texts@);
    let mut i: usize = 0;
    while i < texts.len()
        invariant
            i <= texts@.len(),
            all == views(texts@),
            forall|k: int| 0 <= k < i ==> find(#[trigger] all[k], filter@) is None,
        decreases texts@.len() - i,
    {
        assert(all[i as int] == texts@[i as int]@);
        if contains_text(&texts[i], filter) {
            return true;
        }
        i += 1;
    }
    false
}

/// Whether a session is found by a search, which is given in lower case.
pub open spec fn session_matches(filter: Text, id: Text, title: Text) -> bool {
    search_finds(filter, seq![lowercase(title), lowercase(id)])
}

/// The title shown for a session.
pub open spec fn shown_title(titles: Seq<SessionTitleView>, id: Text) -> Text {
    match title_in(titles, id) {
        Some(title) => title,
        None => "New chat"@,
    }
}

/// The rows of a workspace's sessions that a search finds.
pub open spec fn session_rows(
    app: AppView,
    filter: Text,
    sessions: Seq<SessionSummaryView>,
) -> Seq<SessionRowView>
    decreases sessions.len(),
{
    if sessions.len() == 0 {
        seq![]
    } else {
        let before = session_rows(app, filter, sessions.drop_last());
        let summary = sessions.last();
        let title = shown_title(app.session_titles, summary.id);
        if session_matches(filter, summary.id, title) {
            before.push(
                SessionRowView {
                    session_id: summary.id,
                    title,
                    last_opened_ms: summary.last_opened_ms,
                    selected: app.active_session == Some(summary.id),
                },
            )
        } else {
            before
        }
    }
}

/// The sessions known of a workspace, if they were listed.
pub open spec fn sessions_of(tree: Seq<WorkspaceSessionsView>, workspace: Text) -> Option<
    Seq<SessionSummaryView>,
>
    decreases tree.len(),
{
    if tree.len() == 0 {
        None
    } else if tree[0].workspace == workspace {
        Some(tree[0].sessions)
    } else {
        sessions_of(tree.skip(1), workspace)
    }
}

/// The row of a workspace. A search leaves out the workspaces in which it finds
/// nothing.
pub open spec fn workspace_row(app: AppView, filter: Text, workspace: Text) -> Option<
    WorkspaceRowView,
> {
    match sessions_of(app.sessions_by_workspace, workspace) {
        None => None,
        Some(sessions) => {
            let rows = session_rows(app, filter, sessions);
            if filter.len() > 0 && rows.len() == 0 {
                None
            } else {
                Some(
                    WorkspaceRowView {
                        workspace,
                        label: label_of_workspace(workspace),
                        unfolded: workspace == app.workspace || rows.len() > 0,
                        sessions: rows,
                    },
                )
            }
        },
    }
}

/// The rows of workspaces, in their order.
pub open spec fn workspace_rows(app: AppView, filter: Text, workspaces: Seq<Text>) -> Seq<
    WorkspaceRowView,
>
    decreases workspaces.len(),
{
    if workspaces.len() == 0 {
        seq![]
    } else {
        let before = workspace_rows(app, filter, workspaces.drop_last());
        match workspace_row(app, filter, workspaces.last()) {
            Some(row) => before.push(row),
            None => before,
        }
    }
}

/// The sidebar's tree: the known workspaces with the sessions that the search
/// finds.
pub open spec fn sidebar_tree(app: AppView) -> Seq<WorkspaceRowView> {
    workspace_rows(
        app,
        lowercase(app.sidebar_filter),
        distinct_workspaces(app.workspace, app.desktop_settings.recent_workspaces),
    )
}

fn find_sessions<'a>(tree: &'a Vec<WorkspaceSessions>, workspace: &str) -> (r: Option<
    &'a Vec<SessionSummary>,
>)
    ensures
        match r {
            Some(sessions) => sessions_of(views(tree@), workspace@) == Some(views(sessions@)),
            None => sessions_of(views(tree@), workspace@) is None,
        },
{
    let ghost all = views(tree@);
    let mut i: usize = 0;
    assert(all.skip(0) =~= all);
    while i < tree.len()
        invariant
            i <= tree@.len(),
            all == views(tree@),
            sessions_of(all, workspace@) == sessions_of(all.skip(i as int), workspace@),
        decreases tree@.len() - i,
    {
        assert(all.skip(i as int)[0] == tree@[i as int]@);
        if same(&tree[i].workspace, workspace) {
            return Some(&tree[i].sessions);
        }
        assert(all.skip(i as int).skip(1) =~= all.skip(i as int + 1));
        i += 1;
    }
    None
}

fn found(filter: &str, id: &str, title: &str) -> (r: bool)
    ensures
        r == session_matches(filter@, id@, title@),
{
    let texts = two(lowercase_text(title), lowercase_text(id));
    found_in(filter, &texts)
}

fn rows_of_sessions(app: &App, filter: &str, sessions: &Vec<SessionSummary>) -> (r: Vec<SessionRow>)
    ensures
        views(r@) == session_rows(app@, filter@, views(sessions@)),
{
    let ghost all = views(sessions@);
    let mut rows: Vec<SessionRow> = Vec::new();
    let mut i: usize = 0;
    assert(all.take(0) =~= seq![]);
    assert(views(rows@) =~= seq![]);
    while i < sessions.len()
        invariant
            i <= sessions@.len(),
            all == views(sessions@),
            views(rows@) == session_rows(app@, filter@, all.take(i as int)),
        decreases sessions@.len() - i,
    {
        assert(all.take(i as int + 1).drop_last() =~= all.take(i as int));
        assert(all.take(i as int + 1).last() == sessions@[i as int]@);
        let summary = &sessions[i];
        let title = app.session_title(&summary.id);
        if found(filter, &summary.id, &title) {
            let selected = match &app.active_session {
                Some(active) => same(active, &summary.id),
                None => false,
            };
            let ghost before = views(rows@);
            let row = SessionRow {
                session_id: summary.id.clone(),
                title,
                last_opened_ms: summary.last_opened_ms,
                selected,
            };
            let ghost added = row@;
            rows.push(row);
            assert(views(rows@) =~= before.push(added));
        }
        i += 1;
    }
    assert(all.take(all.len() as int) =~= all);
    rows
}

fn row_of_workspace(app: &App, filter: &str, workspace: &str) -> (r: Option<WorkspaceRow>)
    ensures
        opt_view(r) == workspace_row(app@, filter@, workspace@),
{
    match find_sessions(&app.sessions_by_workspace, workspace) {
        None => None,
        Some(sessions) => {
            let rows = rows_of_sessions(app, filter, sessions);
            if !filter.is_empty() && rows.len() == 0 {
                return None;
            }
            let unfolded = same(workspace, &app.workspace) || rows.len() > 0;
            Some(
                WorkspaceRow {
                    workspace: workspace.to_owned(),
                    label: workspace_label(workspace),
                    unfolded,
                    sessions: rows,
                },
            )
        },
    }
}

/// The sidebar's tree.
pub fn session_tree(app: &App) -> (r: Vec<WorkspaceRow>)
    ensures
        views(r@) == sidebar_tree(app@),
{
    let filter = lowercase_text(&app.sidebar_filter);
    let workspaces = app.known_workspaces();
    let ghost all = views(workspaces@);
    let mut rows: Vec<WorkspaceRow> = Vec::new();
    let mut i: usize = 0;
    assert(all.take(0) =~= seq![]);
    assert(views(rows@) =~= seq![]);
    while i < workspaces.len()
        invariant
            i <= workspaces@.len(),
            all == views(workspaces@),
            views(rows@) == workspace_rows(app@, filter@, all.take(i as int)),
        decreases workspaces@.len() - i,
    {
        assert(all.take(i as int + 1).drop_last() =~= all.take(i as int));
        assert(all.take(i as int + 1).last() == workspaces@[i as int]@);
        if let Some(row) = row_of_workspace(app, &filter, &workspaces[i]) {
            let ghost before = views(rows@);
            let ghost added = row@;
            rows.push(row);
            assert(views(rows@) =~= before.push(added));
        }
        i += 1;
    }
    assert(all.take(all.len() as int) =~= all);
    rows
}

/// What the sidebar says when it lists nothing.
pub fn empty_tree_message(app: &App) -> (r: &'static str)
    ensures
        r@ == if lowercase(app@.sidebar_filter).len() == 0 {
            "No chats yet"@
        } else {
            "No chats match that search"@
        },
{
    if lowercase_text(&app.sidebar_filter).as_str().is_empty() {
        "No chats yet"
    } else {
        "No chats match that search"
    }
}

/// What stands in the way of a first message, if anything: there is no server
/// yet, or it offers no model.
pub fn empty_state_warning(app: &App) -> (r: Option<&'static str>)
    ensures
        opt_view(r) == if !app@.connected {
            Some("Connecting to nexa-server…"@)
        } else if app@.choices.len() == 0 {
            Some("No models configured. Run `nexa provider add`."@)
        } else {
            None
        },
{
    if !app.connected {
        Some("Connecting to nexa-server…")
    } else if app.choices.len() == 0 {
        Some("No models configured. Run `nexa provider add`.")
    } else {
        None
    }
}

/// Whether a model is found by a search, which is given in lower case.
pub open spec fn model_matches(filter: Text, choice: ModelChoiceView) -> bool {
    search_finds(
        filter,
        seq![
            lowercase(choice.model),
            lowercase(choice.provider_name),
            lowercase(choice.provider_id),
        ],
    )
}

/// The positions of the models that a search finds.
pub open spec fn matching_models(choices: Seq<ModelChoiceView>, filter: Text) -> Seq<usize>
    decreases choices.len(),
{
    if choices.len() == 0 {
        seq![]
    } else {
        let before = matching_models(choices.drop_last(), filter);
        if model_matches(filter, choices.last()) {
            before.push((choices.len() - 1) as usize)
        } else {
            before
        }
    }
}

fn model_found(filter: &str, choice: &ModelChoice) -> (r: bool)
    ensures
        r == model_matches(filter@, choice@),
{
    let texts = three(
        lowercase_text(&choice.model),
        lowercase_text(&choice.provider_name),
        lowercase_text(&choice.provider_id),
    );
    found_in(filter, &texts)
}

/// The positions of the models that the model search finds, in their order.
pub fn visible_models(app: &App) -> (r: Vec<usize>)
    ensures
        r@ == matching_models(app@.choices, lowercase(app@.model_filter)),
        forall|k: int| 0 <= k < r@.len() ==> #[trigger] r@[k] < app@.choices.len(),
{
    let filter = lowercase_text(&app.model_filter);
    let ghost all = app@.choices;
    let mut visible: Vec<usize> = Vec::new();
    let mut i: usize = 0;
    assert(all.take(0) =~= seq![]);
    assert(visible@ =~= seq![]);
    while i < app.choices.len()
        invariant
            i <= app.choices@.len(),
            all == app@.choices,
            visible@ == matching_models(all.take(i as int), filter@),
            forall|k: int| 0 <= k < visible@.len() ==> #[trigger] visible@[k] < i,
        decreases app.choices@.len() - i,
    {
        assert(all.take(i as int + 1).drop_last() =~= all.take(i as int));
        assert(all.take(i as int + 1).last() == app.choices@[i as int]@);
        if model_found(&filter, &app.choices[i]) {
            visible.push(i);
        }
        i += 1;
    }
    assert(all.take(all.len() as int) =~= all);
    visible
}

/// The content of a [`ModelRow`].
#[verifier::ext_equal]
pub struct ModelRowView {
    pub index: usize,
    pub section: Option<Text>,
    pub selected: bool,
}

/// A model in a list, with its provider's name above it where another provider's
/// models end.
#[derive(Debug, Eq, PartialEq)]
pub struct ModelRow {
    pub index: usize,
    pub section: Option<String>,
    pub selected: bool,
}

impl View for ModelRow {
    type V = ModelRowView;

    open spec fn view(&self) -> ModelRowView {
        ModelRowView {
            index: self.index,
            section: opt_view(self.section),
            selected: self.selected,
        }
    }
}

impl Clone for ModelRow {
    fn clone(&self) -> (r: Self)
        ensures
            r@ == self@,
    {
        let r = ModelRow {
            index: self.index,
            section: self.section.clone(),
            selected: self.selected,
        };
        assert(r@ =~~= self@);
        r
    }
}

/// The rows of listed models. A provider's name stands above the first of its
/// models.
pub open spec fn model_rows(choices: Seq<ModelChoiceView>, listed: Seq<usize>, selected: usize) -> Seq<
    ModelRowView,
> {
    listed.map(
        |i: int, index: usize|
            {
                let choice = choices[index as int];
                let above = if i == 0 {
                    seq![]
                } else {
                    choices[listed[i - 1] as int].provider_id
                };
                ModelRowView {
                    index,
                    section: if choice.provider_id != above {
                        Some(choice.provider_name)
                    } else {
                        None
                    },
                    selected: index == selected,
                }
            },
    )
}

/// The rows of listed models.
pub fn list_models(app: &App, listed: &Vec<usize>) -> (r: Vec<ModelRow>)
    requires
        forall|k: int| 0 <= k < listed@.len() ==> #[trigger] listed@[k] < app@.choices.len(),
    ensures
        views(r@) == model_rows(app@.choices, listed@, app@.selected_model),
{
    let ghost target = model_rows(app@.choices, listed@, app@.selected_model);
    let mut rows: Vec<ModelRow> = Vec::new();
    let mut i: usize = 0;
    let mut above = String::new();
    assert(above@ =~= seq![]);
    assert(views(rows@) =~= target.take(0));
    while i < listed.len()
        invariant
            i <= listed@.len(),
            forall|k: int| 0 <= k < listed@.len() ==> #[trigger] listed@[k] < app@.choices.len(),
            target == model_rows(app@.choices, listed@, app@.selected_model),
            above@ == if i == 0 {
                seq![]
            } else {
                app@.choices[listed@[i - 1] as int].provider_id
            },
            views(rows@) == target.take(i as int),
        decreases listed@.len() - i,
    {
        let index: usize = listed[i];
        assert(listed@[i as int] < app@.choices.len());
        let choice = &app.choices[index];
        assert(app@.choices[index as int] == choice@);
        let section = if same(&choice.provider_id, &above) {
            None
        } else {
            Some(choice.provider_name.clone())
        };
        above = choice.provider_id.clone();
        let row = ModelRow { index, section, selected: index == app.selected_model };
        let ghost added = row@;
        let ghost before = views(rows@);
        rows.push(row);
        assert(added == target[i as int]);
        assert(views(rows@) =~= before.push(added));
        assert(target.take(i as int + 1) =~= target.take(i as int).push(added));
        i += 1;
    }
    assert(target.take(listed@.len() as int) =~= target);
    rows
}

/// The model that Enter picks in the search: the only one found.
pub fn model_to_pick(app: &App) -> (r: Option<usize>)
    ensures
        ({
            let visible = matching_models(app@.choices, lowercase(app@.model_filter));
            r == if visible.len() == 1 {
                Some(visible[0])
            } else {
                None
            }
        }),
{
    let visible = visible_models(app);
    if visible.len() == 1 {
        Some(visible[0])
    } else {
        None
    }
}

/// The rows of text that the composer shows: those of the draft, within bounds.
pub open spec fn composer_height(draft: Text, docked: bool) -> int {
    let least = if docked {
        2int
    } else {
        3int
    };
    let wanted = split(draft, '\n').len() as int;
    if wanted < least {
        least
    } else if wanted > 10 {
        10
    } else {
        wanted
    }
}

pub fn composer_rows(draft: &str, docked: bool) -> (r: usize)
    ensures
        r == composer_height(draft@, docked),
{
    let least: usize = if docked {
        2
    } else {
        3
    };
    let parts = split_text(draft, '\n');
    assert(parts@.len() == split(draft@, '\n').len()) by {
        assert(views(parts@).len() == parts@.len());
    }
    let wanted: usize = parts.len();
    if wanted < least {
        least
    } else if wanted > 10 {
        10
    } else {
        wanted
    }
}

/// The tools of a preset; a preset without a list has all of them.
pub open spec fn preset_tools(tools: Seq<Text>, all: Text) -> Text {
    if tools.len() == 0 {
        all
    } else {
        join(tools, ", "@)
    }
}

/// The tools of a preset, as a list of names.
pub fn tools_text(preset: &PresetSummary, all: &str) -> (r: String)
    ensures
        r@ == preset_tools(preset@.tools, all@),
{
    if preset.tools.len() == 0 {
        all.to_owned()
    } else {
        join_text(&preset.tools, ", ")
    }
}

/// The line below a preset's name: its description, if it has one, and its
/// tools.
pub fn preset_subtitle(preset: &PresetSummary) -> (r: String)
    ensures
        r@ == ({
            let tools = preset_tools(preset@.tools, "Every tool"@);
            if preset@.description.len() == 0 {
                tools
            } else {
                preset@.description + " · "@ + tools
            }
        }),
{
    let tools = tools_text(preset, "Every tool");
    if preset.description.as_str().is_empty() {
        tools
    } else {
        concat3(&preset.description, " · ", &tools)
    }
}

/// The members of a tool's arguments that tell best what it is called for, the
/// best one first.
pub open spec fn telling_keys() -> Seq<Text> {
    seq!["path"@, "command"@, "query"@, "pattern"@, "file"@, "glob"@]
}

/// The string under a key, if there is one.
pub open spec fn text_under(members: Seq<(Text, Option<Text>)>, key: Text) -> Option<Text>
    decreases members.len(),
{
    if members.len() == 0 {
        None
    } else if members[0].0 == key {
        members[0].1
    } else {
        text_under(members.skip(1), key)
    }
}

/// The string under the first of these keys that holds one.
pub open spec fn first_text(members: Seq<(Text, Option<Text>)>, keys: Seq<Text>) -> Option<Text>
    decreases keys.len(),
{
    if keys.len() == 0 {
        None
    } else {
        match text_under(members, keys[0]) {
            Some(text) => Some(text),
            None => first_text(members, keys.skip(1)),
        }
    }
}

/// A text with its line breaks shown as spaces.
pub open spec fn on_one_line(text: Text) -> Text {
    text.map_values(
        |c: char|
            if c == '\n' {
                ' '
            } else {
                c
            },
    )
}

/// The heading of a tool card, given the members of the arguments.
pub open spec fn preview_of(
    name: Text,
    arguments: Text,
    members: Option<Seq<(Text, Option<Text>)>>,
) -> Text {
    let trimmed = trim(arguments);
    if trimmed.len() == 0 || trimmed == "{}"@ {
        name
    } else {
        let told = match members {
            Some(list) => first_text(list, telling_keys()),
            None => None,
        };
        match told {
            Some(text) => name + "  "@ + truncated(text, 56),
            None => name + "  "@ + truncated(on_one_line(trimmed), 56),
        }
    }
}

fn find_text(members: &Vec<(String, Option<String>)>, key: &str) -> (r: Option<String>)
    ensures
        opt_view(r) == text_under(
            members@.map_values(|member: (String, Option<String>)| member_view(member)),
            key@,
        ),
{
    let ghost all = members@.map_values(|member: (String, Option<String>)| member_view(member));
    let mut i: usize = 0;
    assert(all.skip(0) =~= all);
    while i < members.len()
        invariant
            i <= members@.len(),
            all == members@.map_values(|member: (String, Option<String>)| member_view(member)),
            text_under(all, key@) == text_under(all.skip(i as int), key@),
        decreases members@.len() - i,
    {
        assert(all.skip(i as int)[0] == member_view(members@[i as int]));
        if same(&members[i].0, key) {
            return members[i].1.clone();
        }
        assert(all.skip(i as int).skip(1) =~= all.skip(i as int + 1));
        i += 1;
    }
    None
}

fn find_telling(members: &Vec<(String, Option<String>)>) -> (r: Option<String>)
    ensures
        opt_view(r) == first_text(
            members@.map_values(|member: (String, Option<String>)| member_view(member)),
            telling_keys(),
        ),
{
    let ghost all = members@.map_values(|member: (String, Option<String>)| member_view(member));
    let ghost keys = telling_keys();
    let names = ["path", "command", "query", "pattern", "file", "glob"];
    let mut i: usize = 0;
    assert(keys.skip(0) =~= keys);
    while i < 6
        invariant
            i <= 6,
            keys == telling_keys(),
            names@ == seq!["path", "command", "query", "pattern", "file", "glob"],
            all == members@.map_values(|member: (String, Option<String>)| member_view(member)),
            first_text(all, keys) == first_text(all, keys.skip(i as int)),
        decreases 6 - i,
    {
        assert(keys.skip(i as int)[0] == names@[i as int]@);
        if let Some(text) = find_text(members, names[i]) {
            return Some(text);
        }
        assert(keys.skip(i as int).skip(1) =~= keys.skip(i as int + 1));
        i += 1;
    }
    None
}

fn flattened(text: &str) -> (r: String)
    ensures
        r@ == on_one_line(text@),
{
    let chars = to_chars(text);
    let mut flat: Vec<char> = Vec::new();
    let mut i: usize = 0;
    while i < chars.len()
        invariant
            i <= chars@.len(),
            chars@ == text@,
            flat@ =~= on_one_line(text@).take(i as int),
        decreases chars@.len() - i,
    {
        let shown = if chars[i] == '\n' {
            ' '
        } else {
            chars[i]
        };
        flat.push(shown);
        assert(on_one_line(text@).take(i as int + 1) =~= on_one_line(text@).take(i as int).push(
            shown,
        ));
        i += 1;
    }
    assert(on_one_line(text@).take(text@.len() as int) =~= on_one_line(text@));
    from_chars(&flat)
}

/// The heading of a tool card, given the members of the arguments if they are
/// a JSON object.
pub fn preview_from(
    name: &str,
    arguments: &str,
    members: &Option<Vec<(String, Option<String>)>>,
) -> (r: String)
    ensures
        r@ == preview_of(
            name@,
            arguments@,
            match *members {
                Some(list) => Some(
                    list@.map_values(|member: (String, Option<String>)| member_view(member)),
                ),
                None => None,
            },
        ),
{
    let trimmed = trim_text(arguments);
    if trimmed.as_str().is_empty() || same(&trimmed, "{}") {
        return name.to_owned();
    }
    let told = match members {
        Some(list) => find_telling(list),
        None => None,
    };
    match told {
        Some(text) => concat3(name, "  ", &truncate(&text, 56)),
        None => concat3(name, "  ", &truncate(&flattened(&trimmed), 56)),
    }
}

/// The heading of a tool card: the tool's name and what it is called for.
pub fn tool_preview(name: &str, arguments: &str) -> (r: String)
    ensures
        r@ == preview_of(name@, arguments@, json_members(trim(arguments@))),
{
    let members = object_members(&trim_text(arguments));
    preview_from(name, arguments, &members)
}

/// How a tool call stands.
#[derive(Clone, Copy, Debug, Eq, PartialEq, Structural)]
pub enum CardStatus {
    Running,
    Done,
    Failed,
}

pub open spec fn card_status_of(result: Option<Text>, failed: bool) -> CardStatus {
    if failed {
        CardStatus::Failed
    } else if result is None {
        CardStatus::Running
    } else {
        CardStatus::Done
    }
}

/// The content of a [`ToolCard`].
#[verifier::ext_equal]
pub struct ToolCardView {
    pub preview: Text,
    pub status: CardStatus,
    pub input: Option<Text>,
    pub output: Option<Text>,
}

/// The card of a tool call. Arguments that say nothing are not shown, and a long
/// result is cut.
#[derive(Debug, Eq, PartialEq)]
pub struct ToolCard {
    pub preview: String,
    pub status: CardStatus,
    pub input: Option<String>,
    pub output: Option<String>,
}

impl View for ToolCard {
    type V = ToolCardView;

    open spec fn view(&self) -> ToolCardView {
        ToolCardView {
            preview: self.preview@,
            status: self.status,
            input: opt_view(self.input),
            output: opt_view(self.output),
        }
    }
}

impl Clone for ToolCard {
    fn clone(&self) -> (r: Self)
        ensures
            r@ == self@,
    {
        let r = ToolCard {
            preview: self.preview.clone(),
            status: self.status,
            input: self.input.clone(),
            output: self.output.clone(),
        };
        assert(r@ =~~= self@);
        r
    }
}

/// The card of a tool call.
pub fn tool_card(name: &str, arguments: &str, result: &Option<String>, failed: bool) -> (r: ToolCard)
    ensures
        r@ == (ToolCardView {
            preview: preview_of(name@, arguments@, json_members(trim(arguments@))),
            status: card_status_of(opt_view(*result), failed),
            input: if trim(arguments@).len() > 0 && trim(arguments@) != "{}"@ {
                Some(arguments@)
            } else {
                None
            },
            output: match opt_view(*result) {
                Some(text) => Some(truncated(trim(text), 2000)),
                None => None,
            },
        }),
{
    let trimmed = trim_text(arguments);
    let input = if !trimmed.as_str().is_empty() && !same(&trimmed, "{}") {
        Some(arguments.to_owned())
    } else {
        None
    };
    let output = match result {
        Some(text) => Some(truncate(&trim_text(text), 2000)),
        None => None,
    };
    let status = if failed {
        CardStatus::Failed
    } else if result.is_none() {
        CardStatus::Running
    } else {
        CardStatus::Done
    };
    ToolCard { preview: tool_preview(name, arguments), status, input, output }
}

/// The keyboard shortcuts of the window.
#[derive(Clone, Copy, Debug, Eq, PartialEq, Structural)]
pub enum Shortcut {
    NewChat,
    Settings,
    Activity,
    Compose,
    Dismiss,
}

impl AppView {
    /// The state after a shortcut, and the command it sends.
    pub open spec fn after_shortcut(self, shortcut: Shortcut) -> (AppView, Option<UiCmdView>) {
        match shortcut {
            Shortcut::NewChat => (
                AppView { focus_composer: true, ..self },
                Some(UiCmdView::NewChat),
            ),
            Shortcut::Settings => (AppView { settings_open: !self.settings_open, ..self }, None),
            Shortcut::Activity => (AppView { activity_open: !self.activity_open, ..self }, None),
            Shortcut::Compose => (AppView { focus_composer: true, ..self }, None),
            Shortcut::Dismiss => (
                if self.notice is Some && !self.settings_open {
                    AppView { notice: None, ..self }
                } else {
                    self
                },
                None,
            ),
        }
    }
}

impl App {
    /// Takes a shortcut and returns the command it sends.
    pub fn press(&mut self, shortcut: Shortcut) -> (r: Option<UiCmd>)
        ensures
            old(self)@.after_shortcut(shortcut) == (final(self)@, opt_view(r)),
    {
        match shortcut {
            Shortcut::NewChat => {
                self.focus_composer = true;
                Some(UiCmd::NewChat)
            },
            Shortcut::Settings => {
                self.settings_open = !self.settings_open;
                None
            },
            Shortcut::Activity => {
                self.activity_open = !self.activity_open;
                None
            },
            Shortcut::Compose => {
                self.focus_composer = true;
                None
            },
            Shortcut::Dismiss => {
                if self.notice.is_some() && !self.settings_open {
                    self.notice = None;
                }
                None
            },
        }
    }
}

/// A search leaves the sessions in their order and takes each as it is known: by its id
/// or by the title shown for it, and all of them where nothing is searched for.
pub proof fn searches_keep_what_they_find(
    app: AppView,
    filter: Text,
    sessions: Seq<SessionSummaryView>,
    more: Seq<SessionSummaryView>,
    session: SessionSummaryView,
)
    ensures
        session_rows(app, filter, sessions + more) == session_rows(app, filter, sessions)
            + session_rows(app, filter, more),
        ({
            let title = match title_in(app.session_titles, session.id) {
                Some(title) => title,
                None => "New chat"@,
            };
            let row = SessionRowView {
                session_id: session.id,
                title,
                last_opened_ms: session.last_opened_ms,
                selected: app.active_session == Some(session.id),
            };
            let found = filter.len() == 0 || find(lowercase(title), filter) is Some || find(
                lowercase(session.id),
                filter,
            ) is Some;
            session_rows(app, filter, seq![session]) == if found {
                seq![row]
            } else {
                seq![]
            }
        }),
    decreases more.len(),
{
    let one = seq![session];
    let none = Seq::<SessionSummaryView>::empty();
    assert(one.drop_last() =~= none);
    assert(session_rows(app, filter, none) =~= seq![]);
    let title = shown_title(app.session_titles, session.id);
    let texts = seq![lowercase(title), lowercase(session.id)];
    assert(texts[0] == lowercase(title) && texts[1] == lowercase(session.id));
    assert(session_matches(filter, session.id, title) == (filter.len() == 0 || find(
        lowercase(title),
        filter,
    ) is Some || find(lowercase(session.id), filter) is Some));
    assert(session_rows(app, filter, one) =~= if session_matches(filter, session.id, title) {
        seq![
            SessionRowView {
                session_id: session.id,
                title,
                last_opened_ms: session.last_opened_ms,
                selected: app.active_session == Some(session.id),
            },
        ]
    } else {
        seq![]
    });
    if more.len() == 0 {
        assert(sessions + more =~= sessions);
        assert(session_rows(app, filter, sessions) + session_rows(app, filter, more)
            =~= session_rows(app, filter, sessions));
    } else {
        searches_keep_what_they_find(app, filter, sessions, more.drop_last(), session);
        assert((sessions + more).drop_last() =~= sessions + more.drop_last());
        assert(session_rows(app, filter, sessions + more) =~= session_rows(app, filter, sessions)
            + session_rows(app, filter, more));
    }
}

/// The sessions of a workspace are those of its first entry in the tree.
pub proof fn workspaces_show_their_sessions(
    tree: Seq<WorkspaceSessionsView>,
    workspace: Text,
)
    ensures
        match sessions_of(tree, workspace) {
            Some(sessions) => exists|i: int|
                0 <= i < tree.len() && (#[trigger] tree[i]).workspace == workspace
                    && tree[i].sessions == sessions && forall|k: int|
                    0 <= k < i ==> (#[trigger] tree[k]).workspace != workspace,
            None => forall|k: int|
                0 <= k < tree.len() ==> (#[trigger] tree[k]).workspace != workspace,
        },
    decreases tree.len(),
{
    if tree.len() > 0 && tree[0].workspace != workspace {
        let rest = tree.skip(1);
        workspaces_show_their_sessions(rest, workspace);
        match sessions_of(rest, workspace) {
            Some(sessions) => {
                let i = choose|i: int|
                    0 <= i < rest.len() && (#[trigger] rest[i]).workspace == workspace
                        && rest[i].sessions == sessions && forall|k: int|
                        0 <= k < i ==> (#[trigger] rest[k]).workspace != workspace;
                assert(tree[i + 1] == rest[i]);
                assert forall|k: int| 0 <= k < i + 1 implies (#[trigger] tree[k]).workspace
                    != workspace by {
                    if k > 0 {
                        assert(tree[k] == rest[k - 1]);
                    }
                }
            },
            None => {
                assert forall|k: int| 0 <= k < tree.len() implies (#[trigger] tree[k]).workspace
                    != workspace by {
                    if k > 0 {
                        assert(tree[k] == rest[k - 1]);
                    }
                }
            },
        }
    }
}

/// The sidebar shows the known workspaces in their order. One whose sessions are known is
/// shown with those that the search finds, and left out where a search finds none.
pub proof fn the_sidebar_shows_workspaces(
    app: AppView,
    filter: Text,
    workspaces: Seq<Text>,
    more: Seq<Text>,
    workspace: Text,
)
    ensures
        workspace_rows(app, filter, workspaces + more) == workspace_rows(app, filter, workspaces)
            + workspace_rows(app, filter, more),
        ({
            let rows = workspace_rows(app, filter, seq![workspace]);
            match sessions_of(app.sessions_by_workspace, workspace) {
                None => rows.len() == 0,
                Some(sessions) => {
                    let found = session_rows(app, filter, sessions);
                    if found.len() > 0 || filter.len() == 0 {
                        &&& rows.len() == 1
                        &&& rows[0].workspace == workspace
                        &&& rows[0].sessions == found
                        &&& rows[0].label == label_of_workspace(workspace)
                        &&& rows[0].unfolded == (workspace == app.workspace || found.len() > 0)
                    } else {
                        rows.len() == 0
                    }
                },
            }
        }),
        sidebar_tree(app) == workspace_rows(
            app,
            lowercase(app.sidebar_filter),
            distinct_workspaces(app.workspace, app.desktop_settings.recent_workspaces),
        ),
    decreases more.len(),
{
    let one = seq![workspace];
    let none = Seq::<Text>::empty();
    assert(one.drop_last() =~= none);
    assert(workspace_rows(app, filter, none) =~= seq![]);
    assert(workspace_rows(app, filter, one) == match workspace_row(app, filter, workspace) {
        Some(row) => workspace_rows(app, filter, none).push(row),
        None => workspace_rows(app, filter, none),
    });
    if more.len() == 0 {
        assert(workspaces + more =~= workspaces);
        assert(workspace_rows(app, filter, workspaces) + workspace_rows(app, filter, more)
            =~= workspace_rows(app, filter, workspaces));
    } else {
        the_sidebar_shows_workspaces(app, filter, workspaces, more.drop_last(), workspace);
        assert((workspaces + more).drop_last() =~= workspaces + more.drop_last());
        assert(workspace_rows(app, filter, workspaces + more) =~= workspace_rows(
            app,
            filter,
            workspaces,
        ) + workspace_rows(app, filter, more));
    }
}

/// The model search finds a model by its id, its provider's name or its provider's id, each
/// model once and in the order of the list; an empty search finds them all.
pub proof fn model_searches_are_complete(choices: Seq<ModelChoiceView>, filter: Text)
    requires
        choices.len() <= usize::MAX,
    ensures
        forall|i: int, j: int|
            0 <= i < j < matching_models(choices, filter).len() ==> #[trigger] matching_models(
                choices,
                filter,
            )[i] < #[trigger] matching_models(choices, filter)[j],
        forall|i: int|
            0 <= i < matching_models(choices, filter).len() ==> #[trigger] matching_models(
                choices,
                filter,
            )[i] < choices.len(),
        forall|k: int|
            0 <= k < choices.len() ==> (matching_models(choices, filter).contains(k as usize) <==> (
            filter.len() == 0 || find(lowercase((#[trigger] choices[k]).model), filter) is Some
                || find(lowercase(choices[k].provider_name), filter) is Some || find(
                lowercase(choices[k].provider_id),
                filter,
            ) is Some)),
    decreases choices.len(),
{
    let found = matching_models(choices, filter);
    if choices.len() > 0 {
        let front = choices.drop_last();
        let before = matching_models(front, filter);
        model_searches_are_complete(front, filter);
        let last = choices.last();
        let texts = seq![
            lowercase(last.model),
            lowercase(last.provider_name),
            lowercase(last.provider_id),
        ];
        assert(texts[0] == lowercase(last.model));
        assert(texts[1] == lowercase(last.provider_name));
        assert(texts[2] == lowercase(last.provider_id));
        let end = (choices.len() - 1) as usize;
        assert forall|k: int| 0 <= k < choices.len() implies (found.contains(k as usize) <==> (
        filter.len() == 0 || find(lowercase((#[trigger] choices[k]).model), filter) is Some || find(
            lowercase(choices[k].provider_name),
            filter,
        ) is Some || find(lowercase(choices[k].provider_id), filter) is Some)) by {
            if k < front.len() {
                assert(front[k] == choices[k]);
                if found.contains(k as usize) {
                    let at = choose|at: int| 0 <= at < found.len() && found[at] == k as usize;
                    assert(before[at] == k as usize);
                }
                if before.contains(k as usize) {
                    let at = choose|at: int| 0 <= at < before.len() && before[at] == k as usize;
                    assert(found[at] == k as usize);
                }
            } else {
                if found.contains(k as usize) {
                    let at = choose|at: int| 0 <= at < found.len() && found[at] == k as usize;
                    if at < before.len() {
                        assert(before[at] < front.len());
                    }
                }
                if model_matches(filter, last) {
                    assert(found.last() == end);
                }
            }
        }
        assert forall|i: int| 0 <= i < found.len() implies #[trigger] found[i] < choices.len() by {
            if i < before.len() {
                assert(found[i] == before[i]);
            }
        }
        assert forall|i: int, j: int| 0 <= i < j < found.len() implies #[trigger] found[i]
            < #[trigger] found[j] by {
            assert(found[i] == before[i]);
            if j < before.len() {
                assert(found[j] == before[j]);
            }
        }
    }
}

/// Every listed model has a row, the selected one is marked, and the name of its provider
/// stands above a model that does not follow one of the same provider.
pub proof fn model_rows_are_headed(
    choices: Seq<ModelChoiceView>,
    listed: Seq<usize>,
    selected: usize,
    i: int,
)
    requires
        0 <= i < listed.len(),
    ensures
        model_rows(choices, listed, selected).len() == listed.len(),
        model_rows(choices, listed, selected)[i].index == listed[i],
        model_rows(choices, listed, selected)[i].selected <==> listed[i] == selected,
        i > 0 && choices[listed[i] as int].provider_id != choices[listed[i - 1] as int].provider_id
            ==> model_rows(choices, listed, selected)[i].section == Some(
            choices[listed[i] as int].provider_name,
        ),
        i > 0 && choices[listed[i] as int].provider_id == choices[listed[i - 1] as int].provider_id
            ==> model_rows(choices, listed, selected)[i].section is None,
        i == 0 && choices[listed[i] as int].provider_id.len() > 0 ==> model_rows(
            choices,
            listed,
            selected,
        )[i].section == Some(choices[listed[i] as int].provider_name),
{
    if i == 0 && choices[listed[i] as int].provider_id.len() > 0 {
        assert(choices[listed[i] as int].provider_id != Seq::<char>::empty());
    }
}

/// The string under a key is that of the first member with the key.
pub proof fn members_are_found(members: Seq<(Text, Option<Text>)>, key: Text)
    ensures
        (exists|i: int|
            0 <= i < members.len() && (#[trigger] members[i]).0 == key && members[i].1
                == text_under(members, key) && forall|k: int|
                0 <= k < i ==> (#[trigger] members[k]).0 != key) || (text_under(members, key)
            is None && forall|k: int| 0 <= k < members.len() ==> (#[trigger] members[k]).0 != key),
    decreases members.len(),
{
    if members.len() > 0 && members[0].0 != key {
        let rest = members.skip(1);
        members_are_found(rest, key);
        if exists|i: int|
            0 <= i < rest.len() && (#[trigger] rest[i]).0 == key && rest[i].1 == text_under(
                rest,
                key,
            ) && forall|k: int| 0 <= k < i ==> (#[trigger] rest[k]).0 != key {
            let i = choose|i: int|
                0 <= i < rest.len() && (#[trigger] rest[i]).0 == key && rest[i].1 == text_under(
                    rest,
                    key,
                ) && forall|k: int| 0 <= k < i ==> (#[trigger] rest[k]).0 != key;
            assert(members[i + 1] == rest[i]);
            assert forall|k: int| 0 <= k < i + 1 implies (#[trigger] members[k]).0 != key by {
                if k > 0 {
                    assert(members[k] == rest[k - 1]);
                }
            }
        } else {
            assert forall|k: int| 0 <= k < members.len() implies (#[trigger] members[k]).0 != key by {
                if k > 0 {
                    assert(members[k] == rest[k - 1]);
                }
            }
        }
    } else if members.len() > 0 {
        assert(members[0].0 == key);
    }
}

/// The heading of a tool card begins with the tool's name. A path in the arguments comes
/// first, and stands whole where it is short; otherwise a command does.
pub proof fn headings_tell_the_call(
    name: Text,
    arguments: Text,
    members: Seq<(Text, Option<Text>)>,
    told: Text,
)
    requires
        trim(arguments).len() > 0,
        trim(arguments) != "{}"@,
        told.len() <= 56,
    ensures
        name.is_prefix_of(preview_of(name, arguments, Some(members))),
        text_under(members, "path"@) == Some(told) ==> preview_of(name, arguments, Some(members))
            == name + "  "@ + told,
        text_under(members, "path"@) is None && text_under(members, "command"@) == Some(told)
            ==> preview_of(name, arguments, Some(members)) == name + "  "@ + told,
        trim(arguments).len() <= 56 && !trim(arguments).contains('\n') ==> preview_of(
            name,
            arguments,
            None,
        ) == name + "  "@ + trim(arguments),
        preview_of(name, seq![], None) == name,
{
    let keys = telling_keys();
    reveal_with_fuel(first_text, 3);
    assert(keys[0] == "path"@);
    assert(keys.skip(1)[0] == "command"@);
    let trimmed = trim(arguments);
    if !trimmed.contains('\n') {
        assert forall|i: int| 0 <= i < trimmed.len() implies #[trigger] on_one_line(trimmed)[i]
            == trimmed[i] by {
            assert(trimmed.contains(trimmed[i]));
        }
        assert(on_one_line(trimmed) =~= trimmed);
    }
    assert(trim(Seq::<char>::empty()) =~= Seq::<char>::empty());
}

/// A tool card says how the call stands: it runs until there is a result, and then is done or
/// failed. The arguments are shown as they are, and a result that is not too long whole.
pub proof fn cards_tell_the_result(
    name: &str,
    arguments: &str,
    result: Option<String>,
    failed: bool,
    r: ToolCard,
)
    requires
        call_ensures(tool_card, (name, arguments, &result, failed), r),
    ensures
        r.status is Failed <==> failed,
        r.status is Running <==> !failed && result is None,
        r.status is Done <==> !failed && result is Some,
        result is None <==> r.output is None,
        result matches Some(text) && trim(text@).len() <= 2000 ==> r@.output == Some(
            trim(result->0@),
        ),
        trim(arguments@).len() > 0 && trim(arguments@) != "{}"@ ==> r@.input == Some(arguments@),
        trim(arguments@).len() == 0 ==> r.input is None,
{
}

/// The shortcuts: one asks for a new chat, two open and close a panel and are undone by pressing
/// them again, one takes the notice away. None touches the thread, the draft or what is selected.
pub proof fn shortcuts_keep_the_thread(app: AppView, shortcut: Shortcut)
    ensures
        ({
            let (next, command) = app.after_shortcut(shortcut);
            &&& command == if shortcut is NewChat {
                Some(UiCmdView::NewChat)
            } else {
                None
            }
            &&& next == (AppView {
                focus_composer: next.focus_composer,
                settings_open: next.settings_open,
                activity_open: next.activity_open,
                notice: next.notice,
                ..app
            })
            &&& shortcut is Settings ==> next.settings_open == !app.settings_open
            &&& shortcut is Activity ==> next.activity_open == !app.activity_open
            &&& !(shortcut is Settings) ==> next.settings_open == app.settings_open
            &&& !(shortcut is Activity) ==> next.activity_open == app.activity_open
            &&& shortcut is NewChat || shortcut is Compose ==> next.focus_composer
            &&& shortcut is Dismiss && !app.settings_open ==> next.notice is None
            &&& !(shortcut is Dismiss) ==> next.notice == app.notice
        }),
{
}

/// A preset shows all of its tools by name, in order and with commas between them; one without a
/// list shows that it has every tool.
pub proof fn presets_show_their_tools(tools: Seq<Text>, tool: Text, all: Text)
    ensures
        preset_tools(seq![], all) == all,
        preset_tools(seq![tool], all) == tool,
        tools.len() > 0 ==> preset_tools(tools.push(tool), all) == preset_tools(tools, all)
            + ", "@ + tool,
{
    assert(tools.push(tool).drop_last() =~= tools);
}

/// What a tool is called for is told by the best member of its arguments that holds a text: a path,
/// then a command, a query, a pattern, a file and a glob.
pub proof fn the_best_member_tells(members: Seq<(Text, Option<Text>)>)
    ensures
        ({
            let told = first_text(members, telling_keys());
            let path = text_under(members, "path"@);
            let command = text_under(members, "command"@);
            let query = text_under(members, "query"@);
            let pattern = text_under(members, "pattern"@);
            let file = text_under(members, "file"@);
            told == if path is Some {
                path
            } else if command is Some {
                command
            } else if query is Some {
                query
            } else if pattern is Some {
                pattern
            } else if file is Some {
                file
            } else {
                text_under(members, "glob"@)
            }
        }),
{
    let keys = telling_keys();
    reveal_with_fuel(first_text, 7);
    assert(keys.skip(1)[0] == "command"@);
    assert(keys.skip(1).skip(1)[0] == "query"@);
    assert(keys.skip(1).skip(1).skip(1)[0] == "pattern"@);
    assert(keys.skip(1).skip(1).skip(1).skip(1)[0] == "file"@);
    assert(keys.skip(1).skip(1).skip(1).skip(1).skip(1)[0] == "glob"@);
    assert(keys.skip(1).skip(1).skip(1).skip(1).skip(1).skip(1).len() == 0);
}

/// The composer is as high as its text, but never lower than its least height and never higher than
/// ten rows.
pub proof fn composers_grow_with_their_text(draft: Text, docked: bool)
    ensures
        ({
            let height = composer_height(draft, docked);
            let least = if docked {
                2int
            } else {
                3int
            };
            let lines = split(draft, '\n').len() as int;
            &&& least <= height <= 10
            &&& least <= lines <= 10 ==> height == lines
            &&& lines > 10 ==> height == 10
            &&& lines < least ==> height == least
        }),
{
}

} // verus!
