use vstd::prelude::*;
use crate::domain::{Field, Schema};
use crate::envcfg::{EnvFile, EnvironmentConfig, spec_lookup_pairs};
use crate::history::HistoryEntry;
use crate::ports::{WorkspaceEntry, WorkspaceEntryKind};
use crate::search::{SearchDetails, SearchResult, SearchStatus, status_eq_spec};

verus! {

/// The screens of the interactive session.
#[derive(Debug, Copy, Clone, PartialEq, Eq, Structural)]
pub enum Screen {
    ScriptSelect,
    Search,
    Environments,
    FieldInput,
    History,
    Running,
    RunResult,
    ErrorScreen,
}

/// Which pane the history screen focuses.
#[derive(Debug, Copy, Clone, PartialEq, Eq, Structural)]
pub enum HistoryFocus {
    List,
    Output,
}

/// What the status side panel shows for one directory.
#[derive(Debug)]
pub struct WidgetData {
    pub title: String,
    pub lines: Vec<String>,
}

/// How one history entry ended.
#[derive(Debug)]
pub enum ExecutionStatus {
    Success,
    Failed(Option<i32>),
    ErrorOutcome,
}

impl ExecutionStatus {
    /// Classify a history entry: a launch error, a failed run with its
    /// exit code, or a success.
    pub fn from_history(entry: &HistoryEntry) -> (r: ExecutionStatus)
        ensures
            entry.error is Some ==> r is ErrorOutcome,
            entry.error is None && entry.success ==> r is Success,
            entry.error is None && !entry.success ==> (r matches ExecutionStatus::Failed(c) && c == entry.exit_code),
    {
        if entry.error.is_some() {
            ExecutionStatus::ErrorOutcome
        } else if entry.success {
            ExecutionStatus::Success
        } else {
            ExecutionStatus::Failed(entry.exit_code)
        }
    }
}

/// A selection moved by `delta` and clamped to the list.
pub open spec fn spec_clamp_sel(cur: int, delta: int, len: int) -> int {
    if len == 0 {
        cur
    } else {
        let n = cur + delta;
        if n < 0 {
            0
        } else if n >= len {
            len - 1
        } else {
            n
        }
    }
}

/// Move a selection index by `delta`, clamped to `0..len`.
pub fn clamp_move(cur: usize, delta: isize, len: usize) -> (r: usize)
    requires
        len == 0 || cur < len,
    ensures
        r == spec_clamp_sel(cur as int, delta as int, len as int),
        len > 0 ==> r < len,
        len == 0 ==> r == cur,
{
    if len == 0 {
        return cur;
    }
    let cur128: i128 = cur as i128;
    let d128: i128 = delta as i128;
    let mut n: i128 = cur128 + d128;
    if n < 0 {
        n = 0;
    }
    if n >= len as i128 {
        n = len as i128 - 1;
    }
    n as usize
}

/// A wrapped index: moved by `delta` and brought back into `0..len` by
/// whole turns.
pub open spec fn spec_wrap_sel(x: int, len: int) -> int
    decreases (if x < 0 { 1int } else { 0int }), (if x < 0 { -x } else { x }),
{
    if len <= 0 {
        0
    } else if x < 0 {
        spec_wrap_sel(x + len, len)
    } else if x >= len {
        spec_wrap_sel(x - len, len)
    } else {
        x
    }
}

/// Move an index by `delta`, wrapping around the list.
pub fn wrap_move(cur: usize, delta: isize, len: usize) -> (r: usize)
    requires
        len == 0 || cur < len,
    ensures
        len > 0 ==> r == spec_wrap_sel(cur + delta, len as int) && r < len,
        len == 0 ==> r == cur,
{
    if len == 0 {
        return cur;
    }
    let l: i128 = len as i128;
    let mut n: i128 = cur as i128 + delta as i128;
    while n < 0
        invariant
            l == len,
            len > 0,
            n < i128::MAX - l,
            spec_wrap_sel(cur + delta, len as int) == spec_wrap_sel(n as int, len as int),
        decreases (if n < 0 { -n } else { 0int }),
    {
        n = n + l;
    }
    while n >= l
        invariant
            l == len,
            len > 0,
            n >= 0,
            spec_wrap_sel(cur + delta, len as int) == spec_wrap_sel(n as int, len as int),
        decreases n,
    {
        n = n - l;
    }
    n as usize
}

} // verus!

verus! {

/// The whole interactive session's state: catalog position, environment
/// panel, search panel, schema form, history view and pending run
/// request. Every transition is a plain function of this state and the
/// event's data; all reading and launching happens outside and hands
/// its results in.
pub struct Session {
    pub screen: Screen,
    pub current_dir: String,
    pub entries: Vec<WorkspaceEntry>,
    pub selection: usize,
    pub widget: Option<WidgetData>,
    pub widget_error: Option<String>,
    pub widget_loading: bool,
    pub env: Option<EnvironmentConfig>,
    pub env_error: Option<String>,
    pub env_entries: Vec<EnvFile>,
    pub env_selection: usize,
    pub env_preview: Vec<(String, String)>,
    pub env_preview_error: Option<String>,
    pub env_preview_scroll: u16,
    pub env_return: Option<Screen>,
    pub schema_preview: Option<SchemaPreview>,
    pub schema_preview_error: Option<String>,
    pub preview_script: Option<String>,
    pub schema_cache: Option<(String, Schema)>,
    pub history: Vec<HistoryEntry>,
    pub history_selection: usize,
    pub history_focus: HistoryFocus,
    pub search_query: Vec<char>,
    pub search_results: Vec<SearchResult>,
    pub search_selection: usize,
    pub search_details: Option<SearchDetails>,
    pub search_status: SearchStatus,
    pub search_error: Option<String>,
    pub schema_name: Option<String>,
    pub schema_description: Option<String>,
    pub fields: Vec<Field>,
    pub field_index: usize,
    pub field_inputs: Vec<String>,
    pub args: Vec<String>,
    pub error: Option<String>,
    pub selected_script: Option<String>,
    pub run_request: Option<(String, Vec<String>)>,
    pub should_quit: bool,
    pub run_output_scroll: u16,
}

impl Session {
    /// A fresh session on the workspace root's entries and the loaded
    /// history, showing the script list.
    pub fn new(
        current_dir: String,
        entries: Vec<WorkspaceEntry>,
        history: Vec<HistoryEntry>,
        search_status: SearchStatus,
    ) -> (r: Session)
        ensures
            r.screen == Screen::ScriptSelect,
            r.current_dir@ == current_dir@,
            r.entries@ == entries@,
            r.selection == 0,
            r.history@ == history@,
            r.search_status == search_status,
            r.should_quit == false,
            r.run_request is None,
            r.error is None,
            r.fields@.len() == 0,
            r.field_inputs@.len() == 0,
    {
        Session {
            screen: Screen::ScriptSelect,
            current_dir,
            entries,
            selection: 0,
            widget: None,
            widget_error: None,
            widget_loading: false,
            env: None,
            env_error: None,
            env_entries: Vec::new(),
            env_selection: 0,
            env_preview: Vec::new(),
            env_preview_error: None,
            env_preview_scroll: 0,
            env_return: None,
            schema_preview: None,
            schema_preview_error: None,
            preview_script: None,
            schema_cache: None,
            history,
            history_selection: 0,
            history_focus: HistoryFocus::List,
            search_query: Vec::new(),
            search_results: Vec::new(),
            search_selection: 0,
            search_details: None,
            search_status,
            search_error: None,
            schema_name: None,
            schema_description: None,
            fields: Vec::new(),
            field_index: 0,
            field_inputs: Vec::new(),
            args: Vec::new(),
            error: None,
            selected_script: None,
            run_request: None,
            should_quit: false,
            run_output_scroll: 0,
        }
    }

    /// The entry under the cursor.
    pub fn selected_entry(&self) -> (r: Option<&WorkspaceEntry>)
        ensures
            self.selection < self.entries@.len() ==> (r matches Some(e) && e == &self.entries@[self.selection as int]),
            self.selection >= self.entries@.len() ==> r is None,
    {
        if self.selection < self.entries.len() {
            Some(&self.entries[self.selection])
        } else {
            None
        }
    }

    /// Move the catalog cursor, clamped to the list.
    pub fn move_selection(&mut self, delta: isize)
        requires
            old(self).entries@.len() == 0 || old(self).selection < old(self).entries@.len(),
        ensures
            *final(self) == (Session {
                selection: spec_clamp_sel(old(self).selection as int, delta as int, old(self).entries@.len() as int) as usize,
                ..*old(self)
            }),
    {
        let len = self.entries.len();
        self.selection = clamp_move(self.selection, delta, len);
    }

    /// Enter the search screen with a freshly polled status.
    pub fn enter_search(&mut self, status: SearchStatus)
        ensures
            *final(self) == (Session { screen: Screen::Search, search_status: status, ..*old(self) }),
    {
        self.search_status = status;
        self.screen = Screen::Search;
    }

    /// Take in the outcome of a search query: results replace the shown
    /// list, an error clears it; the cursor returns to the top and the
    /// details pane empties until the next detail load.
    pub fn apply_search_results(&mut self, r: Result<Vec<SearchResult>, String>)
        ensures
            r matches Ok(rs) ==> *final(self) == (Session { search_results: rs, search_selection: 0, search_details: None, search_error: None, ..*old(self) }),
            r matches Err(e) ==> (final(self).search_results@.len() == 0 && *final(self) == (Session { search_results: final(self).search_results, search_selection: 0, search_details: None, search_error: Some(e), ..*old(self) })),
    {
        match r {
            Ok(rs) => {
                self.search_results = rs;
                self.search_error = None;
            },
            Err(e) => {
                self.search_results = Vec::new();
                self.search_error = Some(e);
            },
        }
        self.search_selection = 0;
        self.search_details = None;
    }

    /// Take in the outcome of a detail load for the selected result.
    pub fn apply_search_details(&mut self, r: Result<Option<SearchDetails>, String>)
        ensures
            r matches Ok(d) ==> *final(self) == (Session { search_details: d, search_error: None, ..*old(self) }),
            r matches Err(e) ==> *final(self) == (Session { search_details: None, search_error: Some(e), ..*old(self) }),
    {
        match r {
            Ok(d) => {
                self.search_details = d;
                self.search_error = None;
            },
            Err(e) => {
                self.search_details = None;
                self.search_error = Some(e);
            },
        }
    }

    /// Note a freshly polled index status; says whether it changed, so
    /// the caller re-queries only on a transition.
    pub fn on_status_poll(&mut self, status: SearchStatus) -> (changed: bool)
        ensures
            changed == !status_eq_spec(&status, &old(self).search_status),
            changed ==> *final(self) == (Session { search_status: status, ..*old(self) }),
            !changed ==> *final(self) == *old(self),
    {
        if self.search_status.same_as(&status) {
            false
        } else {
            self.search_status = status;
            true
        }
    }

    /// Add one typed character to the search query.
    pub fn append_search_char(&mut self, ch: char)
        ensures
            *final(self) == (Session { search_query: final(self).search_query, ..*old(self) }),
            final(self).search_query@ == old(self).search_query@.push(ch),
    {
        self.search_query.push(ch);
    }

    /// Remove the last character of the search query.
    pub fn pop_search_char(&mut self)
        ensures
            *final(self) == (Session { search_query: final(self).search_query, ..*old(self) }),
            final(self).search_query@ == old(self).search_query@.drop_last() || (old(self).search_query@.len() == 0 && final(self).search_query@.len() == 0),
    {
        if self.search_query.len() > 0 {
            let _ = self.search_query.pop();
        }
    }

    /// Move the search cursor, clamped.
    pub fn move_search_selection(&mut self, delta: isize)
        requires
            old(self).search_results@.len() == 0 || old(self).search_selection < old(self).search_results@.len(),
        ensures
            *final(self) == (Session {
                search_selection: spec_clamp_sel(old(self).search_selection as int, delta as int, old(self).search_results@.len() as int) as usize,
                search_details: None,
                ..*old(self)
            }),
    {
        let len = self.search_results.len();
        self.search_selection = clamp_move(self.search_selection, delta, len);
        self.search_details = None;
    }

    /// The relative path of the search result under the cursor, for the
    /// caller to resolve and open.
    pub fn open_selected_search(&self) -> (r: Option<String>)
        ensures
            self.search_selection < self.search_results@.len() ==> (r matches Some(p) && p@ == self.search_results@[self.search_selection as int].script_path@),
            self.search_selection >= self.search_results@.len() ==> r is None,
    {
        if self.search_selection < self.search_results.len() {
            Some(self.search_results[self.search_selection].script_path.clone())
        } else {
            None
        }
    }

    /// Move the history cursor, clamped, and rewind the output pane.
    pub fn move_history_selection(&mut self, delta: isize)
        requires
            old(self).history@.len() == 0 || old(self).history_selection < old(self).history@.len(),
        ensures
            *final(self) == (Session {
                history_selection: spec_clamp_sel(old(self).history_selection as int, delta as int, old(self).history@.len() as int) as usize,
                run_output_scroll: 0,
                ..*old(self)
            }),
    {
        let len = self.history.len();
        self.history_selection = clamp_move(self.history_selection, delta, len);
        self.run_output_scroll = 0;
    }

    /// Put a fresh run's record first and select it.
    pub fn add_history_entry(&mut self, entry: HistoryEntry)
        ensures
            *final(self) == (Session { history: final(self).history, history_selection: 0, ..*old(self) }),
            final(self).history@ == seq![entry] + old(self).history@,
    {
        self.history.insert(0, entry);
        self.history_selection = 0;
        proof {
            assert(self.history@ =~= seq![entry] + old(self).history@);
        }
    }

    /// The history entry under the cursor.
    pub fn current_history_entry(&self) -> (r: Option<&HistoryEntry>)
        ensures
            self.history_selection < self.history@.len() ==> (r matches Some(e) && e == &self.history@[self.history_selection as int]),
            self.history_selection >= self.history@.len() ==> r is None,
    {
        if self.history_selection < self.history.len() {
            Some(&self.history[self.history_selection])
        } else {
            None
        }
    }

    /// Rewind the run-output pane.
    pub fn reset_run_output_scroll(&mut self)
        ensures
            *final(self) == (Session { run_output_scroll: 0, ..*old(self) }),
    {
        self.run_output_scroll = 0;
    }

    /// Scroll the run-output pane, saturating at its ends.
    pub fn scroll_run_output(&mut self, delta: i16)
        ensures
            delta >= 0 ==> *final(self) == (Session { run_output_scroll: (if old(self).run_output_scroll + delta > u16::MAX { u16::MAX as int } else { old(self).run_output_scroll + delta }) as u16, ..*old(self) }),
            delta < 0 ==> *final(self) == (Session { run_output_scroll: (if old(self).run_output_scroll + delta < 0 { 0int } else { old(self).run_output_scroll + delta }) as u16, ..*old(self) }),
    {
        if delta > 0 {
            self.run_output_scroll = self.run_output_scroll.saturating_add(delta as u16);
        } else if delta < 0 {
            let amount = if delta == i16::MIN {
                32768u16
            } else {
                (-delta) as u16
            };
            self.run_output_scroll = self.run_output_scroll.saturating_sub(amount);
        }
    }

    /// Scroll the environment preview, clamped at zero.
    pub fn scroll_env_preview(&mut self, delta: i16)
        ensures
            *final(self) == (Session { env_preview_scroll: final(self).env_preview_scroll, ..*old(self) }),
            final(self).env_preview_scroll as int == (if old(self).env_preview_scroll + delta < 0 { 0int } else if old(self).env_preview_scroll + delta > u16::MAX { u16::MAX as int } else { old(self).env_preview_scroll + delta }),
    {
        let next: i32 = self.env_preview_scroll as i32 + delta as i32;
        if next < 0 {
            self.env_preview_scroll = 0;
        } else if next > u16::MAX as i32 {
            self.env_preview_scroll = u16::MAX;
        } else {
            self.env_preview_scroll = next as u16;
        }
    }

    /// Enter the environments screen, remembering where to return.
    pub fn enter_envs(&mut self)
        ensures
            *final(self) == (Session { env_return: Some(old(self).screen), screen: Screen::Environments, ..*old(self) }),
    {
        self.env_return = Some(self.screen);
        self.screen = Screen::Environments;
    }

    /// Leave the environments screen for the remembered one.
    pub fn exit_envs(&mut self)
        ensures
            *final(self) == (Session { screen: (match old(self).env_return { Some(s) => s, None => Screen::ScriptSelect }), env_return: None, ..*old(self) }),
    {
        self.screen = match self.env_return {
            Some(s) => s,
            None => Screen::ScriptSelect,
        };
        self.env_return = None;
    }

    /// Move the environment cursor, clamped.
    pub fn move_env_selection(&mut self, delta: isize)
        requires
            old(self).env_entries@.len() == 0 || old(self).env_selection < old(self).env_entries@.len(),
        ensures
            *final(self) == (Session {
                env_selection: spec_clamp_sel(old(self).env_selection as int, delta as int, old(self).env_entries@.len() as int) as usize,
                ..*old(self)
            }),
    {
        let len = self.env_entries.len();
        self.env_selection = clamp_move(self.env_selection, delta, len);
    }

    /// The name of the environment under the cursor, for the caller to
    /// activate.
    pub fn selected_env_name(&self) -> (r: Option<String>)
        ensures
            self.env_selection < self.env_entries@.len() ==> (r matches Some(n) && n@ == self.env_entries@[self.env_selection as int].name@),
            self.env_selection >= self.env_entries@.len() ==> r is None,
    {
        if self.env_selection < self.env_entries.len() {
            Some(self.env_entries[self.env_selection].name.clone())
        } else {
            None
        }
    }

    /// Note an environment activation or deactivation failure.
    pub fn set_env_error(&mut self, message: String)
        ensures
            *final(self) == (Session { env_error: Some(message), ..*old(self) }),
    {
        self.env_error = Some(message);
    }

    /// Take in a finished status-panel load.
    pub fn apply_widget_result(&mut self, widget: Option<WidgetData>, error: Option<String>)
        ensures
            *final(self) == (Session { widget, widget_error: error, widget_loading: false, ..*old(self) }),
    {
        self.widget = widget;
        self.widget_error = error;
        self.widget_loading = false;
    }

    /// Mark the status panel as loading while a fetch is underway.
    pub fn set_widget_loading(&mut self)
        ensures
            *final(self) == (Session { widget: None, widget_error: None, widget_loading: true, ..*old(self) }),
    {
        self.widget = None;
        self.widget_error = None;
        self.widget_loading = true;
    }

    /// Descend into a directory; the caller then lists it and hands the
    /// entries back.
    pub fn set_current_dir(&mut self, dir: String)
        ensures
            *final(self) == (Session { current_dir: dir, ..*old(self) }),
    {
        self.current_dir = dir;
    }

    /// Take in a fresh catalog listing, or show its error.
    pub fn apply_entries(&mut self, r: Result<Vec<WorkspaceEntry>, String>)
        ensures
            r matches Ok(es) ==> *final(self) == (Session { entries: es, selection: 0, error: None, ..*old(self) }),
            r matches Err(e) ==> *final(self) == (Session { error: Some(e), screen: Screen::ErrorScreen, ..*old(self) }),
    {
        match r {
            Ok(es) => {
                self.entries = es;
                self.selection = 0;
                self.error = None;
            },
            Err(e) => {
                self.error = Some(e);
                self.screen = Screen::ErrorScreen;
            },
        }
    }

    /// Leave the form or result screens for the script list, dropping
    /// the form's state.
    pub fn back_to_script_select(&mut self)
        ensures
            final(self).screen == Screen::ScriptSelect,
            final(self).schema_name is None,
            final(self).schema_description is None,
            final(self).fields@.len() == 0,
            final(self).field_index == 0,
            final(self).field_inputs@.len() == 0,
            final(self).args@.len() == 0,
            final(self).error is None,
            final(self).selected_script is None,
            final(self).run_request is None,
            *final(self) == (Session {
                screen: Screen::ScriptSelect,
                schema_name: None,
                schema_description: None,
                fields: final(self).fields,
                field_index: 0,
                field_inputs: final(self).field_inputs,
                args: final(self).args,
                error: None,
                selected_script: None,
                run_request: None,
                ..*old(self)
            }),
    {
        self.screen = Screen::ScriptSelect;
        self.schema_name = None;
        self.schema_description = None;
        self.fields = Vec::new();
        self.field_index = 0;
        self.field_inputs = Vec::new();
        self.args = Vec::new();
        self.error = None;
        self.selected_script = None;
        self.run_request = None;
    }
}

} // verus!

verus! {

/// Whether two fields declare the same thing, character for character.
pub open spec fn field_matches(a: &Field, b: &Field) -> bool {
    &&& a.name@ == b.name@
    &&& a.prompt == b.prompt
    &&& a.kind@ == b.kind@
    &&& a.order == b.order
    &&& a.required == b.required
    &&& a.default == b.default
    &&& (a.choices is Some <==> b.choices is Some)
    &&& (a.choices matches Some(ac) ==> (b.choices matches Some(bc) && ac@ == bc@))
    &&& a.arg == b.arg
}

/// Copy one field.
pub fn clone_field(f: &Field) -> (r: Field)
    ensures
        field_matches(&r, f),
{
    Field {
        name: f.name.clone(),
        prompt: crate::store::clone_opt_string(&f.prompt),
        kind: f.kind.clone(),
        order: f.order,
        required: f.required,
        default: crate::store::clone_opt_string(&f.default),
        choices: match &f.choices {
            Some(cs) => Some(crate::strutil::clone_strings(cs)),
            None => None,
        },
        arg: crate::store::clone_opt_string(&f.arg),
    }
}

/// Whether two field lists declare the same things.
pub open spec fn fields_match(a: Seq<Field>, b: Seq<Field>) -> bool {
    a.len() == b.len() && forall|i: int| 0 <= i < a.len() ==> #[trigger] field_matches(&a[i], &b[i])
}

/// Copy a field list.
pub fn clone_fields(v: &Vec<Field>) -> (r: Vec<Field>)
    ensures
        fields_match(r@, v@),
{
    let mut out: Vec<Field> = Vec::new();
    let mut i: usize = 0;
    while i < v.len()
        invariant
            i <= v@.len(),
            out@.len() == i,
            forall|k: int| 0 <= k < i ==> #[trigger] field_matches(&out@[k], &v@[k]),
        decreases v@.len() - i,
    {
        out.push(clone_field(&v[i]));
        i = i + 1;
    }
    out
}

/// The declared-order relation on fields.
pub open spec fn spec_field_le(a: &Field, b: &Field) -> bool {
    a.order <= b.order
}

pub open spec fn spec_sorted_fields(s: Seq<Field>) -> bool {
    forall|i: int, j: int| 0 <= i < j < s.len() ==> s[i].order <= s[j].order
}

/// Sort fields by their declared order; the result holds the same
/// fields as a multiset.
pub fn sort_fields(v: Vec<Field>) -> (r: Vec<Field>)
    ensures
        spec_sorted_fields(r@),
        r@.to_multiset() == v@.to_multiset(),
{
    broadcast use vstd::seq_lib::group_to_multiset_ensures;

    let mut rem = v;
    let mut out: Vec<Field> = Vec::new();
    while rem.len() > 0
        invariant
            out@.to_multiset().add(rem@.to_multiset()) == v@.to_multiset(),
            spec_sorted_fields(out@),
            forall|a: int, k: int|
                #![trigger out@[a], rem@[k]]
                0 <= a < out@.len() && 0 <= k < rem@.len() ==> out@[a].order <= rem@[k].order,
        decreases rem@.len(),
    {
        let n = rem.len();
        let mut m: usize = 0;
        let mut k: usize = 1;
        while k < n
            invariant
                n == rem@.len(),
                m < n,
                k <= n,
                forall|t: int| 0 <= t < k ==> rem@[m as int].order <= #[trigger] rem@[t].order,
            decreases n - k,
        {
            if rem[k].order < rem[m].order {
                m = k;
            }
            k = k + 1;
        }
        let ghost old_out = out@;
        let ghost old_rem = rem@;
        let x = rem.remove(m);
        out.push(x);
        proof {
            broadcast use vstd::seq_lib::group_to_multiset_ensures;

            assert(out@ =~= old_out.push(x));
            assert(rem@ =~= old_rem.remove(m as int));
            assert(old_out.push(x).to_multiset() =~= old_out.to_multiset().insert(x));
            assert(old_rem.contains(x)) by {
                assert(old_rem[m as int] == x);
            }
            assert(old_rem.to_multiset().count(x) > 0);
            assert(old_rem.remove(m as int).to_multiset() =~= old_rem.to_multiset().remove(x));
            assert(out@.to_multiset().add(rem@.to_multiset()) =~= v@.to_multiset());
            assert(spec_sorted_fields(out@)) by {
                assert(forall|i: int| 0 <= i < old_out.len() ==> out@[i] == old_out[i]);
                assert(out@[out@.len() - 1] == old_rem[m as int]);
            }
            assert forall|a: int, kk: int|
                #![trigger out@[a], rem@[kk]]
                0 <= a < out@.len() && 0 <= kk < rem@.len() implies out@[a].order
                <= rem@[kk].order by {
                let orig_kk = if kk < m { kk } else { kk + 1 };
                assert(rem@[kk] == old_rem[orig_kk]);
                if a < out@.len() - 1 {
                    assert(out@[a].order <= old_rem[orig_kk].order);
                } else {
                    assert(out@[a] == old_rem[m as int]);
                }
            }
        }
    }
    proof {
        broadcast use vstd::seq_lib::group_to_multiset_ensures;

        assert(rem@.to_multiset().len() == 0);
        assert(out@.to_multiset() =~= v@.to_multiset());
    }
    out
}

/// The argument name a field contributes: its declared one, or two
/// dashes and its lowercased name.
pub open spec fn spec_arg_name(f: &Field) -> Seq<char> {
    match f.arg {
        Some(a) => a@,
        None => "--"@ + crate::strutil::spec_lower(f.name@),
    }
}

/// The argument list a form submission yields, from field `i` on:
/// normalize each input in order; the first failure aborts with its
/// field index and message; each non-omitted value contributes its
/// argument name and the value.
pub open spec fn spec_build_args_from(fields: Seq<Field>, inputs: Seq<Seq<char>>, i: int) -> Result<Seq<Seq<char>>, (int, Seq<char>)>
    decreases fields.len() - i,
{
    if i < 0 || i >= fields.len() {
        Ok(Seq::empty())
    } else {
        let input = if i < inputs.len() {
            inputs[i]
        } else {
            Seq::empty()
        };
        match crate::domain::spec_normalize(&fields[i], input) {
            Err(m) => Err((i, m)),
            Ok(None) => spec_build_args_from(fields, inputs, i + 1),
            Ok(Some(v)) => match spec_build_args_from(fields, inputs, i + 1) {
                Err(e) => Err(e),
                Ok(rest) => Ok(seq![spec_arg_name(&fields[i]), v] + rest),
            },
        }
    }
}

pub open spec fn spec_build_args(fields: Seq<Field>, inputs: Seq<Seq<char>>) -> Result<Seq<Seq<char>>, (int, Seq<char>)> {
    spec_build_args_from(fields, inputs, 0)
}

/// Build the ordered argument list of a submission, or say which field
/// failed and why.
pub fn build_args(fields: &Vec<Field>, inputs: &Vec<String>) -> (r: Result<Vec<String>, (usize, String)>)
    ensures
        r matches Ok(a) ==> spec_build_args(fields@, inputs.deep_view()) == Ok::<Seq<Seq<char>>, (int, Seq<char>)>(a.deep_view()),
        r matches Err(e) ==> spec_build_args(fields@, inputs.deep_view()) == Err::<Seq<Seq<char>>, (int, Seq<char>)>((e.0 as int, e.1@)) && e.0 < fields@.len(),
{
    let n = fields.len();
    let mut out: Vec<String> = Vec::new();
    let mut i: usize = 0;
    while i < n
        invariant
            n == fields@.len(),
            i <= n,
            spec_build_args(fields@, inputs.deep_view()) == (match spec_build_args_from(fields@, inputs.deep_view(), i as int) {
                Ok(rest) => Ok::<Seq<Seq<char>>, (int, Seq<char>)>(out.deep_view() + rest),
                Err(e) => Err::<Seq<Seq<char>>, (int, Seq<char>)>(e),
            }),
        decreases n - i,
    {
        let ghost prev = out.deep_view();
        let empty_input = String::new();
        let input: &String = if i < inputs.len() {
            &inputs[i]
        } else {
            &empty_input
        };
        proof {
            if i < inputs@.len() {
                assert(inputs.deep_view()[i as int] == inputs@[i as int]@);
            }
        }
        let ghost dv = inputs.deep_view();
        let ghost input_v = if i < dv.len() {
            dv[i as int]
        } else {
            Seq::<char>::empty()
        };
        proof {
            assert(input@ == input_v);
        }
        match crate::domain::normalize_input(&fields[i], input.as_str()) {
            Err(m) => {
                proof {
                    assert(spec_build_args_from(fields@, dv, i as int) == Err::<Seq<Seq<char>>, (int, Seq<char>)>((i as int, m@)));
                }
                return Err((i, m));
            },
            Ok(None) => {
                proof {
                    assert(spec_build_args_from(fields@, dv, i as int) == spec_build_args_from(fields@, dv, i + 1));
                }
            },
            Ok(Some(v)) => {
                let name = match &fields[i].arg {
                    Some(a) => a.clone(),
                    None => {
                        let mut nm = crate::strutil::str_to_chars("--");
                        crate::strutil::append_chars(
                            &mut nm,
                            &crate::strutil::lower_chars(
                                &crate::strutil::str_to_chars(fields[i].name.as_str()),
                            ),
                        );
                        crate::strutil::chars_to_string(&nm)
                    },
                };
                let ghost nv = name@;
                let ghost vv = v@;
                proof {
                    assert(nv == spec_arg_name(&fields@[i as int]));
                }
                out.push(name);
                out.push(v);
                proof {
                    assert(out.deep_view() =~~= prev + seq![nv, vv]);
                    let cur = spec_build_args_from(fields@, dv, i as int);
                    let nxt = spec_build_args_from(fields@, dv, i + 1);
                    match nxt {
                        Ok(rest) => {
                            assert(cur == Ok::<Seq<Seq<char>>, (int, Seq<char>)>(seq![nv, vv] + rest));
                            assert(out.deep_view() + rest =~~= prev + (seq![nv, vv] + rest));
                        },
                        Err(e) => {
                            assert(cur == Err::<Seq<Seq<char>>, (int, Seq<char>)>(e));
                        },
                    }
                }
            },
        }
        i = i + 1;
    }
    proof {
        assert(out.deep_view() + Seq::<Seq<char>>::empty() =~~= out.deep_view());
    }
    Ok(out)
}

} // verus!

verus! {

/// What the schema pane shows of one field.
#[derive(Debug)]
pub struct SchemaFieldPreview {
    pub name: String,
    pub prompt: Option<String>,
    pub kind: String,
    pub required: bool,
}

/// What the schema pane shows of one output.
#[derive(Debug)]
pub struct SchemaOutputPreview {
    pub name: String,
    pub kind: String,
}

#[derive(Debug)]
pub struct MatrixPreview {
    pub name: String,
    pub values: Vec<String>,
}

#[derive(Debug)]
pub struct QueueCaseValuePreview {
    pub name: String,
    pub value: String,
}

#[derive(Debug)]
pub struct QueueCasePreview {
    pub name: Option<String>,
    pub values: Vec<QueueCaseValuePreview>,
}

/// What the schema pane shows of a queue declaration.
#[derive(Debug)]
pub enum QueuePreview {
    Matrix { values: Vec<MatrixPreview> },
    Cases { cases: Vec<QueueCasePreview> },
}

/// What the schema pane shows of a whole schema.
#[derive(Debug)]
pub struct SchemaPreview {
    pub name: String,
    pub description: Option<String>,
    pub tags: Vec<String>,
    pub fields: Vec<SchemaFieldPreview>,
    pub outputs: Vec<SchemaOutputPreview>,
    pub queue: Option<QueuePreview>,
}

/// Whether a preview faithfully shows a schema: same name, description
/// and tags, each field reduced to name, prompt, kind and requiredness,
/// each output to name and kind, and the queue to its matrix or cases.
pub open spec fn preview_matches(p: &SchemaPreview, s: &Schema) -> bool {
    &&& p.name@ == s.name@
    &&& p.description == s.description
    &&& (match s.tags {
        Some(t) => p.tags@ == t@,
        None => p.tags@.len() == 0,
    })
    &&& p.fields@.len() == s.fields@.len()
    &&& (forall|i: int| 0 <= i < s.fields@.len() ==> {
        &&& (#[trigger] p.fields@[i]).name@ == s.fields@[i].name@
        &&& p.fields@[i].prompt == s.fields@[i].prompt
        &&& p.fields@[i].kind@ == s.fields@[i].kind@
        &&& p.fields@[i].required == (s.fields@[i].required == Some(true))
    })
    &&& (match s.outputs {
        Some(os) => p.outputs@.len() == os@.len() && (forall|i: int| 0 <= i < os@.len() ==> (#[trigger] p.outputs@[i]).name@ == os@[i].name@ && p.outputs@[i].kind@ == os@[i].kind@),
        None => p.outputs@.len() == 0,
    })
    &&& (match s.queue {
        None => p.queue is None,
        Some(q) => match q.matrix {
            Some(m) => p.queue matches Some(QueuePreview::Matrix { values }) && values@.len() == m@.len() && (forall|i: int| 0 <= i < m@.len() ==> (#[trigger] values@[i]).name@ == m@[i].name@ && values@[i].values@ == m@[i].values@),
            None => match q.cases {
                Some(cs) => p.queue matches Some(QueuePreview::Cases { cases }) && cases@.len() == cs@.len() && (forall|i: int| 0 <= i < cs@.len() ==> (#[trigger] cases@[i]).name == cs@[i].name && cases@[i].values@.len() == cs@[i].values@.len() && (forall|j: int| 0 <= j < cs@[i].values@.len() ==> (#[trigger] cases@[i].values@[j]).name@ == cs@[i].values@[j].name@ && cases@[i].values@[j].value@ == cs@[i].values@[j].value@)),
                None => p.queue matches Some(QueuePreview::Cases { cases }) && cases@.len() == 0,
            },
        },
    })
}

/// Reduce a schema to what its preview pane shows.
pub fn schema_to_preview(schema: &Schema) -> (p: SchemaPreview)
    ensures
        preview_matches(&p, schema),
{
    let tags: Vec<String> = match &schema.tags {
        Some(t) => crate::strutil::clone_strings(t),
        None => Vec::new(),
    };
    let mut fields: Vec<SchemaFieldPreview> = Vec::new();
    let mut i: usize = 0;
    while i < schema.fields.len()
        invariant
            i <= schema.fields@.len(),
            fields@.len() == i,
            forall|k: int| 0 <= k < i ==> {
                &&& (#[trigger] fields@[k]).name@ == schema.fields@[k].name@
                &&& fields@[k].prompt == schema.fields@[k].prompt
                &&& fields@[k].kind@ == schema.fields@[k].kind@
                &&& fields@[k].required == (schema.fields@[k].required == Some(true))
            },
        decreases schema.fields@.len() - i,
    {
        let f = &schema.fields[i];
        let required = match f.required {
            Some(b) => b,
            None => false,
        };
        fields.push(SchemaFieldPreview {
            name: f.name.clone(),
            prompt: crate::store::clone_opt_string(&f.prompt),
            kind: f.kind.clone(),
            required,
        });
        i = i + 1;
    }
    let mut outputs: Vec<SchemaOutputPreview> = Vec::new();
    if let Some(os) = &schema.outputs {
        let mut j: usize = 0;
        while j < os.len()
            invariant
                j <= os@.len(),
                outputs@.len() == j,
                forall|k: int| 0 <= k < j ==> (#[trigger] outputs@[k]).name@ == os@[k].name@ && outputs@[k].kind@ == os@[k].kind@,
            decreases os@.len() - j,
        {
            outputs.push(SchemaOutputPreview {
                name: os[j].name.clone(),
                kind: os[j].kind.clone(),
            });
            j = j + 1;
        }
    }
    let queue: Option<QueuePreview> = match &schema.queue {
        None => None,
        Some(q) => {
            if let Some(m) = &q.matrix {
                let mut values: Vec<MatrixPreview> = Vec::new();
                let mut j: usize = 0;
                while j < m.len()
                    invariant
                        j <= m@.len(),
                        values@.len() == j,
                        forall|k: int| 0 <= k < j ==> (#[trigger] values@[k]).name@ == m@[k].name@ && values@[k].values@ == m@[k].values@,
                    decreases m@.len() - j,
                {
                    values.push(MatrixPreview {
                        name: m[j].name.clone(),
                        values: crate::strutil::clone_strings(&m[j].values),
                    });
                    j = j + 1;
                }
                Some(QueuePreview::Matrix { values })
            } else if let Some(cs) = &q.cases {
                let mut cases: Vec<QueueCasePreview> = Vec::new();
                let mut j: usize = 0;
                while j < cs.len()
                    invariant
                        j <= cs@.len(),
                        cases@.len() == j,
                        forall|k: int| 0 <= k < j ==> (#[trigger] cases@[k]).name == cs@[k].name && cases@[k].values@.len() == cs@[k].values@.len() && (forall|l: int| 0 <= l < cs@[k].values@.len() ==> (#[trigger] cases@[k].values@[l]).name@ == cs@[k].values@[l].name@ && cases@[k].values@[l].value@ == cs@[k].values@[l].value@),
                    decreases cs@.len() - j,
                {
                    let case = &cs[j];
                    let mut vals: Vec<QueueCaseValuePreview> = Vec::new();
                    let mut l: usize = 0;
                    while l < case.values.len()
                        invariant
                            l <= case.values@.len(),
                            vals@.len() == l,
                            forall|t: int| 0 <= t < l ==> (#[trigger] vals@[t]).name@ == case.values@[t].name@ && vals@[t].value@ == case.values@[t].value@,
                        decreases case.values@.len() - l,
                    {
                        vals.push(QueueCaseValuePreview {
                            name: case.values[l].name.clone(),
                            value: case.values[l].value.clone(),
                        });
                        l = l + 1;
                    }
                    cases.push(QueueCasePreview {
                        name: crate::store::clone_opt_string(&case.name),
                        values: vals,
                    });
                    j = j + 1;
                }
                Some(QueuePreview::Cases { cases })
            } else {
                Some(QueuePreview::Cases { cases: Vec::new() })
            }
        },
    };
    SchemaPreview {
        name: schema.name.clone(),
        description: crate::store::clone_opt_string(&schema.description),
        tags,
        fields,
        outputs,
        queue,
    }
}

/// The input buffer a field starts with: the active environment's
/// default under the field's lowercased name, or empty.
pub open spec fn spec_seed_input(env: &Option<EnvironmentConfig>, f: &Field) -> Seq<char> {
    match env {
        Some(c) => match spec_lookup_pairs(c.defaults.deep_view(), crate::strutil::spec_lower(f.name@)) {
            Some(v) => v,
            None => Seq::empty(),
        },
        None => Seq::empty(),
    }
}

/// Seed every field's input buffer from the active environment's
/// defaults.
pub fn build_field_inputs(env: &Option<EnvironmentConfig>, fields: &Vec<Field>) -> (r: Vec<String>)
    ensures
        r@.len() == fields@.len(),
        forall|i: int| 0 <= i < fields@.len() ==> (#[trigger] r@[i])@ == spec_seed_input(env, &fields@[i]),
{
    let mut out: Vec<String> = Vec::new();
    let mut i: usize = 0;
    while i < fields.len()
        invariant
            i <= fields@.len(),
            out@.len() == i,
            forall|k: int| 0 <= k < i ==> (#[trigger] out@[k])@ == spec_seed_input(env, &fields@[k]),
        decreases fields@.len() - i,
    {
        let seed: String = match env {
            Some(c) => {
                let lk = crate::strutil::lower_str(fields[i].name.as_str());
                match c.default_for(lk.as_str()) {
                    Some(v) => v,
                    None => String::new(),
                }
            },
            None => String::new(),
        };
        out.push(seed);
        i = i + 1;
    }
    out
}

impl Session {
    /// The selected entry's kind and path, for the caller to descend or
    /// load.
    pub fn enter_selected(&self) -> (r: Option<(WorkspaceEntryKind, String)>)
        ensures
            self.selection < self.entries@.len() ==> (r matches Some(e) && e.0 == self.entries@[self.selection as int].kind && e.1@ == self.entries@[self.selection as int].path@),
            self.selection >= self.entries@.len() ==> r is None,
    {
        if self.selection < self.entries.len() {
            let e = &self.entries[self.selection];
            Some((e.kind, e.path.clone()))
        } else {
            None
        }
    }

    /// Step to the parent directory, unless already at the root; says
    /// whether anything changed.
    pub fn navigate_up(&mut self, root: &str) -> (changed: bool)
        ensures
            !changed ==> *final(self) == *old(self),
            changed ==> old(self).current_dir@ != root@ && crate::runtime::spec_rfind(old(self).current_dir@, '/') >= 0 && *final(self) == (Session { current_dir: final(self).current_dir, ..*old(self) }) && final(self).current_dir@ == old(self).current_dir@.take(crate::runtime::spec_rfind(old(self).current_dir@, '/')),
    {
        let cur = crate::strutil::str_to_chars(self.current_dir.as_str());
        if crate::strutil::chars_eq(&cur, &crate::strutil::str_to_chars(root)) {
            return false;
        }
        proof {
            crate::runtime::lemma_rfind_bounds(cur@, '/');
        }
        match crate::runtime::rfind_char(&cur, '/') {
            None => false,
            Some(cut) => {
                let parent = crate::strutil::subrange_vec(&cur, 0, cut);
                proof {
                    assert(parent@ =~= old(self).current_dir@.take(cut as int));
                }
                self.current_dir = crate::strutil::chars_to_string(&parent);
                true
            },
        }
    }

    /// The cached schema's script path, where one is cached.
    pub fn cached_schema_path(&self) -> (r: Option<String>)
        ensures
            match r {
                Some(p) => self.schema_cache matches Some(c) && p@ == c.0@,
                None => self.schema_cache is None,
            },
    {
        match &self.schema_cache {
            Some(c) => Some(c.0.clone()),
            None => None,
        }
    }

    /// Take in a loaded (or failed) schema for the selected script:
    /// order its fields, seed the form from the active environment, and
    /// either request an immediate run (no fields) or show the form.
    pub fn apply_schema_loaded(&mut self, script: String, r: Result<Schema, String>)
        ensures
            r matches Err(e) ==> *final(self) == (Session { error: Some(e), screen: Screen::ErrorScreen, ..*old(self) }),
            r matches Ok(sch) ==> {
                &&& (final(self).schema_name matches Some(n) && n@ == sch.name@)
                &&& final(self).schema_description == sch.description
                &&& spec_sorted_fields(final(self).fields@)
                &&& final(self).fields@.to_multiset() == sch.fields@.to_multiset()
                &&& final(self).field_index == 0
                &&& final(self).field_inputs@.len() == final(self).fields@.len()
                &&& (forall|i: int| 0 <= i < final(self).fields@.len() ==> (#[trigger] final(self).field_inputs@[i])@ == spec_seed_input(&old(self).env, &final(self).fields@[i]))
                &&& final(self).args@.len() == 0
                &&& final(self).error is None
                &&& (final(self).selected_script matches Some(sc) && sc@ == script@)
                &&& (final(self).schema_cache matches Some(c) && c.0@ == script@)
                &&& (sch.fields@.len() == 0 ==> (final(self).run_request matches Some(rq) && rq.0@ == script@ && rq.1@.len() == 0) && final(self).screen == old(self).screen)
                &&& (sch.fields@.len() > 0 ==> final(self).screen == Screen::FieldInput && final(self).run_request == old(self).run_request)
                &&& final(self).env == old(self).env
                &&& final(self).history == old(self).history
                &&& final(self).entries == old(self).entries
                &&& final(self).search_results == old(self).search_results
            },
    {
        match r {
            Err(e) => {
                self.error = Some(e);
                self.screen = Screen::ErrorScreen;
            },
            Ok(sch) => {
                let Schema { name, description, tags, fields, outputs, queue } = sch;
                let ghost origf = fields@;
                let sorted = sort_fields(fields);
                proof {
                    broadcast use vstd::seq_lib::group_to_multiset_ensures;

                    assert(sorted@.to_multiset().len() == origf.to_multiset().len());
                    assert(sorted@.len() == origf.len());
                }
                let inputs = build_field_inputs(&self.env, &sorted);
                let no_fields = sorted.len() == 0;
                self.schema_name = Some(name.clone());
                self.schema_description = crate::store::clone_opt_string(&description);
                self.field_index = 0;
                self.field_inputs = inputs;
                self.args = Vec::new();
                self.error = None;
                self.selected_script = Some(script.clone());
                let cached = Schema {
                    name,
                    description,
                    tags,
                    fields: clone_fields(&sorted),
                    outputs,
                    queue,
                };
                self.fields = sorted;
                self.schema_cache = Some((script.clone(), cached));
                if no_fields {
                    self.run_request = Some((script, Vec::new()));
                } else {
                    self.screen = Screen::FieldInput;
                }
            },
        }
    }

    /// Move the form cursor, wrapping around the fields, and clear the
    /// shown error.
    pub fn move_field_selection(&mut self, delta: isize)
        requires
            old(self).fields@.len() == 0 || old(self).field_index < old(self).fields@.len(),
        ensures
            old(self).fields@.len() == 0 ==> *final(self) == (Session { error: None, ..*old(self) }),
            old(self).fields@.len() > 0 ==> *final(self) == (Session { field_index: spec_wrap_sel(old(self).field_index + delta, old(self).fields@.len() as int) as usize, error: None, ..*old(self) }),
    {
        let len = self.fields.len();
        self.field_index = wrap_move(self.field_index, delta, len);
        self.error = None;
    }

    /// Add one typed character to the focused field's buffer.
    pub fn append_field_char(&mut self, ch: char)
        ensures
            old(self).field_index >= old(self).field_inputs@.len() ==> *final(self) == *old(self),
            old(self).field_index < old(self).field_inputs@.len() ==> {
                &&& *final(self) == (Session { field_inputs: final(self).field_inputs, error: None, ..*old(self) })
                &&& final(self).field_inputs@.len() == old(self).field_inputs@.len()
                &&& (final(self).field_inputs@[old(self).field_index as int])@ == (old(self).field_inputs@[old(self).field_index as int])@.push(ch)
                &&& (forall|i: int| 0 <= i < old(self).field_inputs@.len() && i != old(self).field_index ==> final(self).field_inputs@[i] == #[trigger] old(self).field_inputs@[i])
            },
    {
        if self.field_index < self.field_inputs.len() {
            let mut cs = crate::strutil::str_to_chars(self.field_inputs[self.field_index].as_str());
            cs.push(ch);
            let updated = crate::strutil::chars_to_string(&cs);
            self.field_inputs.set(self.field_index, updated);
            self.error = None;
        }
    }

    /// Remove the last character of the focused field's buffer.
    pub fn pop_field_char(&mut self)
        ensures
            old(self).field_index >= old(self).field_inputs@.len() ==> *final(self) == *old(self),
            old(self).field_index < old(self).field_inputs@.len() ==> {
                &&& *final(self) == (Session { field_inputs: final(self).field_inputs, error: None, ..*old(self) })
                &&& final(self).field_inputs@.len() == old(self).field_inputs@.len()
                &&& (final(self).field_inputs@[old(self).field_index as int])@ == (if (old(self).field_inputs@[old(self).field_index as int])@.len() == 0 { Seq::<char>::empty() } else { (old(self).field_inputs@[old(self).field_index as int])@.drop_last() })
                &&& (forall|i: int| 0 <= i < old(self).field_inputs@.len() && i != old(self).field_index ==> final(self).field_inputs@[i] == #[trigger] old(self).field_inputs@[i])
            },
    {
        if self.field_index < self.field_inputs.len() {
            let mut cs = crate::strutil::str_to_chars(self.field_inputs[self.field_index].as_str());
            if cs.len() > 0 {
                let _ = cs.pop();
            }
            let updated = crate::strutil::chars_to_string(&cs);
            self.field_inputs.set(self.field_index, updated);
            self.error = None;
        }
    }

    /// Hand off the selected script and arguments as a run request, or
    /// quit when no script is selected.
    fn finish(&mut self)
        ensures
            old(self).selected_script matches Some(s) ==> *final(self) == (Session { run_request: final(self).run_request, ..*old(self) }) && (final(self).run_request matches Some(rq) && rq.0@ == s@ && rq.1@ == old(self).args@),
            old(self).selected_script is None ==> *final(self) == (Session { should_quit: true, ..*old(self) }),
    {
        match &self.selected_script {
            Some(s) => {
                let script = s.clone();
                let args = crate::strutil::clone_strings(&self.args);
                self.run_request = Some((script, args));
            },
            None => {
                self.should_quit = true;
            },
        }
    }

    /// Submit the form: normalize every field in declared order; the
    /// first failure keeps the form open and focuses the failing field;
    /// success yields the argument list and hands off the run request.
    pub fn submit_form(&mut self)
        ensures
            old(self).fields@.len() == 0 ==> submit_finish_post(*old(self), *final(self), old(self).args@),
            old(self).fields@.len() > 0 ==> match spec_build_args(old(self).fields@, old(self).field_inputs.deep_view()) {
                Err(e) => (*final(self) == (Session { error: final(self).error, field_index: e.0 as usize, ..*old(self) }) && (final(self).error matches Some(m) && m@ == old(self).fields@[e.0].name@ + ": "@ + e.1)),
                Ok(a) => final(self).args.deep_view() == a && final(self).error is None && submit_finish_post(*old(self), *final(self), final(self).args@),
            },
    {
        if self.fields.len() == 0 {
            self.finish();
            return;
        }
        match build_args(&self.fields, &self.field_inputs) {
            Err((idx, msg)) => {
                let mut m = crate::strutil::str_to_chars(self.fields[idx].name.as_str());
                crate::strutil::append_chars(&mut m, &crate::strutil::str_to_chars(": "));
                crate::strutil::append_chars(&mut m, &crate::strutil::str_to_chars(msg.as_str()));
                self.error = Some(crate::strutil::chars_to_string(&m));
                self.field_index = idx;
            },
            Ok(args) => {
                self.args = args;
                self.error = None;
                self.finish();
            },
        }
    }

    /// Note that the runner has returned: record the outcome first in
    /// history and show the result screen.
    pub fn finish_run(&mut self, entry: HistoryEntry)
        ensures
            final(self).history@ == seq![entry] + old(self).history@,
            final(self).history_selection == 0,
            final(self).screen == Screen::RunResult,
            final(self).run_request is None,
            final(self).run_output_scroll == 0,
            *final(self) == (Session { history: final(self).history, history_selection: 0, screen: Screen::RunResult, run_request: None, run_output_scroll: 0, ..*old(self) }),
    {
        self.history.insert(0, entry);
        self.history_selection = 0;
        self.screen = Screen::RunResult;
        self.run_request = None;
        self.run_output_scroll = 0;
        proof {
            assert(self.history@ =~= seq![entry] + old(self).history@);
        }
    }
}

/// How `finish` leaves the session: the run request carries the selected
/// script and the given arguments, or the session quits when nothing is
/// selected.
pub open spec fn submit_finish_post(pre: Session, post: Session, args: Seq<String>) -> bool {
    match pre.selected_script {
        Some(s) => post.run_request matches Some(rq) && rq.0@ == s@ && rq.1@ == args && !post.should_quit == !pre.should_quit,
        None => post.should_quit,
    }
}

} // verus!

verus! {

/// The first index of an environment file with the name, or the count.
pub open spec fn spec_find_env(s: Seq<EnvFile>, name: Seq<char>) -> int
    decreases s.len(),
{
    if s.len() == 0 {
        0
    } else if s[0].name@ == name {
        0
    } else {
        1 + spec_find_env(s.drop_first(), name)
    }
}

pub proof fn lemma_find_env_bounds(s: Seq<EnvFile>, name: Seq<char>)
    ensures
        0 <= spec_find_env(s, name) <= s.len(),
    decreases s.len(),
{
    if s.len() > 0 && s[0].name@ != name {
        lemma_find_env_bounds(s.drop_first(), name);
    }
}

fn find_env(s: &Vec<EnvFile>, name: &str) -> (r: usize)
    ensures
        r == spec_find_env(s@, name@),
        r <= s@.len(),
    decreases s@.len(),
{
    proof {
        assert(s@.skip(0) =~= s@);
    }
    find_env_from(s, name, 0)
}

fn find_env_from(s: &Vec<EnvFile>, name: &str, i: usize) -> (r: usize)
    requires
        i <= s@.len(),
    ensures
        r - i == spec_find_env(s@.skip(i as int), name@),
        i <= r <= s@.len(),
    decreases s@.len() - i,
{
    if i == s.len() {
        proof {
            assert(s@.skip(i as int) =~= Seq::<EnvFile>::empty());
        }
        i
    } else {
        proof {
            assert(s@.skip(i as int)[0] == s@[i as int]);
            assert(s@.skip(i as int).drop_first() =~= s@.skip(i + 1));
        }
        if crate::strutil::chars_eq(
            &crate::strutil::str_to_chars(s[i].name.as_str()),
            &crate::strutil::str_to_chars(name),
        ) {
            i
        } else {
            find_env_from(s, name, i + 1)
        }
    }
}

/// The cursor position the environments pane shows after a reload: the
/// active file where it is listed, else the old position clamped.
pub open spec fn spec_env_cursor(entries: Seq<EnvFile>, active: &Option<String>, old_sel: int) -> int {
    if entries.len() == 0 {
        0
    } else {
        match active {
            Some(name) => {
                if spec_find_env(entries, name@) < entries.len() {
                    spec_find_env(entries, name@)
                } else {
                    0
                }
            },
            None => {
                if old_sel < entries.len() {
                    if old_sel < 0 {
                        0
                    } else {
                        old_sel
                    }
                } else {
                    entries.len() - 1
                }
            },
        }
    }
}

impl Session {
    /// Take in a reloaded environment configuration and file listing:
    /// errors show without clearing the other side, and the cursor
    /// follows the active file.
    pub fn apply_env_config(&mut self, config: Result<EnvironmentConfig, String>, files: Result<Vec<EnvFile>, String>)
        ensures
            final(self).env_error is None <==> (config is Ok && files is Ok),
            config matches Ok(c) ==> final(self).env matches Some(c2) && c2 == c,
            config matches Err(e) ==> final(self).env is None && (final(self).env_error matches Some(m) && m@ == e@),
            files matches Ok(fs) ==> final(self).env_entries@ == fs@,
            files matches Err(e2) ==> final(self).env_entries@.len() == 0,
            final(self).env_selection as int == spec_env_cursor(final(self).env_entries@, &(match &final(self).env { Some(c) => c.active, None => None::<String> }), old(self).env_selection as int),
            final(self).env_selection == 0 || final(self).env_selection < final(self).env_entries@.len(),
            *final(self) == (Session { env: final(self).env, env_error: final(self).env_error, env_entries: final(self).env_entries, env_selection: final(self).env_selection, ..*old(self) }),
    {
        let mut env_error: Option<String> = None;
        let env: Option<EnvironmentConfig> = match config {
            Ok(c) => Some(c),
            Err(e) => {
                env_error = Some(e);
                None
            },
        };
        let env_entries: Vec<EnvFile> = match files {
            Ok(fs) => fs,
            Err(e2) => {
                if env_error.is_none() {
                    env_error = Some(e2);
                } else {
                    let _ = e2;
                }
                Vec::new()
            },
        };
        let selected: usize = if env_entries.len() == 0 {
            0
        } else {
            let active_name: Option<String> = match &env {
                Some(c) => match &c.active {
                    Some(n) => Some(n.clone()),
                    None => None,
                },
                None => None,
            };
            match active_name {
                Some(name) => {
                    let pos = find_env(&env_entries, name.as_str());
                    if pos < env_entries.len() {
                        pos
                    } else {
                        0
                    }
                },
                None => {
                    if self.env_selection < env_entries.len() {
                        self.env_selection
                    } else {
                        env_entries.len() - 1
                    }
                },
            }
        };
        self.env = env;
        self.env_error = env_error;
        self.env_entries = env_entries;
        self.env_selection = selected;
    }

    /// Take in a freshly loaded environment-file preview.
    pub fn apply_env_preview(&mut self, r: Result<Vec<(String, String)>, String>)
        ensures
            r matches Ok(rows) ==> *final(self) == (Session { env_preview: rows, env_preview_error: None, env_preview_scroll: 0, ..*old(self) }),
            r matches Err(e) ==> (final(self).env_preview@.len() == 0 && *final(self) == (Session { env_preview: final(self).env_preview, env_preview_error: Some(e), env_preview_scroll: 0, ..*old(self) })),
    {
        match r {
            Ok(rows) => {
                self.env_preview = rows;
                self.env_preview_error = None;
            },
            Err(e) => {
                self.env_preview = Vec::new();
                self.env_preview_error = Some(e);
            },
        }
        self.env_preview_scroll = 0;
    }

    /// Clear the preview pane when nothing is selected.
    pub fn clear_env_preview(&mut self)
        ensures
            final(self).env_preview@.len() == 0,
            *final(self) == (Session { env_preview: final(self).env_preview, env_preview_error: None, env_preview_scroll: 0, ..*old(self) }),
    {
        self.env_preview = Vec::new();
        self.env_preview_error = None;
        self.env_preview_scroll = 0;
    }

    /// The script whose schema the preview pane should show: the
    /// selected catalog entry where it is a script.
    pub fn preview_target(&self) -> (r: Option<String>)
        ensures
            match r {
                Some(p) => self.selection < self.entries@.len() && self.entries@[self.selection as int].kind == WorkspaceEntryKind::Script && p@ == self.entries@[self.selection as int].path@,
                None => self.selection >= self.entries@.len() || self.entries@[self.selection as int].kind != WorkspaceEntryKind::Script,
            },
    {
        if self.selection < self.entries.len() {
            let e = &self.entries[self.selection];
            match e.kind {
                WorkspaceEntryKind::Script => Some(e.path.clone()),
                WorkspaceEntryKind::Directory => None,
            }
        } else {
            None
        }
    }

    /// Take in a loaded (or failed) schema for the preview pane; the
    /// pane remembers which script it shows either way.
    pub fn apply_schema_preview(&mut self, script: String, r: Result<Schema, String>)
        ensures
            r matches Ok(sch) ==> {
                &&& (final(self).schema_preview matches Some(p) && preview_matches(&p, &sch))
                &&& final(self).schema_preview_error is None
                &&& (final(self).preview_script matches Some(ps) && ps@ == script@)
                &&& (final(self).schema_cache matches Some(c) && c.0@ == script@)
                &&& *final(self) == (Session { schema_preview: final(self).schema_preview, schema_preview_error: None, preview_script: final(self).preview_script, schema_cache: final(self).schema_cache, ..*old(self) })
            },
            r matches Err(e) ==> final(self).schema_preview is None && (final(self).schema_preview_error matches Some(m) && m@ == e@) && (final(self).preview_script matches Some(ps) && ps@ == script@) && *final(self) == (Session { schema_preview: None, schema_preview_error: final(self).schema_preview_error, preview_script: final(self).preview_script, ..*old(self) }),
    {
        match r {
            Ok(sch) => {
                let preview = schema_to_preview(&sch);
                self.schema_preview = Some(preview);
                self.schema_preview_error = None;
                self.preview_script = Some(script.clone());
                self.schema_cache = Some((script, sch));
            },
            Err(e) => {
                self.schema_preview = None;
                self.schema_preview_error = Some(e);
                self.preview_script = Some(script);
            },
        }
    }

    /// Clear the preview pane when no script is selected.
    pub fn clear_schema_preview(&mut self)
        ensures
            *final(self) == (Session { schema_preview: None, schema_preview_error: None, preview_script: None, ..*old(self) }),
    {
        self.schema_preview = None;
        self.schema_preview_error = None;
        self.preview_script = None;
    }

    /// Show the history screen.
    pub fn enter_history(&mut self)
        ensures
            *final(self) == (Session { screen: Screen::History, history_focus: HistoryFocus::List, ..*old(self) }),
    {
        self.screen = Screen::History;
        self.history_focus = HistoryFocus::List;
    }

    /// Switch the history focus between list and output.
    pub fn set_history_focus(&mut self, focus: HistoryFocus)
        ensures
            *final(self) == (Session { history_focus: focus, ..*old(self) }),
    {
        self.history_focus = focus;
    }

    /// Note that a run request has been taken up and is executing.
    pub fn set_running(&mut self)
        ensures
            *final(self) == (Session { screen: Screen::Running, ..*old(self) }),
    {
        self.screen = Screen::Running;
    }

    /// Ask the session to end.
    pub fn quit(&mut self)
        ensures
            *final(self) == (Session { should_quit: true, ..*old(self) }),
    {
        self.should_quit = true;
    }
}

} // verus!
