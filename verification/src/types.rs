//! The types that the application state is made of.

use crate::text::{
    concat, decimal, from_chars, number, opt_clone, skip, take, to_chars,
};
use vstd::prelude::*;
use vstd::string::*;
use vstd::utf8::{char_is_scalar, encode_scalar, encode_utf8};

verus! {

// ---------- input buffer ----------

/// The number of bytes of a character in UTF-8.
pub open spec fn width(c: char) -> nat {
    if c as int <= 0x7f {
        1
    } else if c as int <= 0x7ff {
        2
    } else if c as int <= 0xffff {
        3
    } else {
        4
    }
}

/// The number of bytes of a text in UTF-8.
pub open spec fn byte_len(s: Seq<char>) -> nat
    decreases s.len(),
{
    if s.len() == 0 {
        0
    } else {
        width(s[0]) + byte_len(s.drop_first())
    }
}

/// How many characters at the start of a text fit into a number of bytes.
pub open spec fn chars_within(s: Seq<char>, bytes: int) -> int
    decreases s.len(),
{
    if s.len() == 0 || bytes < width(s[0]) {
        0
    } else {
        1 + chars_within(s.drop_first(), bytes - width(s[0]))
    }
}

proof fn lemma_width(c: char)
    ensures
        encode_scalar(c as u32).len() == width(c),
{
    char_is_scalar(c);
}

proof fn lemma_byte_len(s: Seq<char>)
    ensures
        byte_len(s) == encode_utf8(s).len(),
    decreases s.len(),
{
    if s.len() > 0 {
        lemma_width(s[0]);
        lemma_byte_len(s.drop_first());
    }
}

proof fn lemma_byte_len_push(s: Seq<char>, c: char)
    ensures
        byte_len(s.push(c)) == byte_len(s) + width(c),
    decreases s.len(),
{
    if s.len() > 0 {
        assert(s.push(c).drop_first() =~= s.drop_first().push(c));
        lemma_byte_len_push(s.drop_first(), c);
    } else {
        assert(s.push(c).drop_first() =~= Seq::empty());
        assert(byte_len(s.push(c)) == width(c) + byte_len(Seq::empty()));
    }
}

/// The characters before a cursor are those that fit into its offset.
proof fn lemma_chars_within(before: Seq<char>, after: Seq<char>)
    ensures
        chars_within(before + after, byte_len(before) as int) == before.len(),
    decreases before.len(),
{
    let s = before + after;
    if before.len() == 0 {
        assert(s =~= after);
    } else {
        assert(s.drop_first() =~= before.drop_first() + after);
        lemma_chars_within(before.drop_first(), after);
    }
}

/// The number of bytes of a text in UTF-8.
pub fn bytes_of(s: &str) -> (r: usize)
    ensures
        r == byte_len(s@),
{
    proof {
        lemma_byte_len(s@);
    }
    s.as_bytes().len()
}

/// The text input of the input modes. `cursor` counts bytes.
#[derive(Debug)]
pub struct InputBuffer {
    pub text: String,
    pub cursor: usize,
}

/// An input buffer as the text before its cursor and the text behind it.
pub struct InputView {
    pub before: Seq<char>,
    pub after: Seq<char>,
}

impl View for InputBuffer {
    type V = InputView;

    open spec fn view(&self) -> InputView {
        let n = chars_within(self.text@, self.cursor as int);
        InputView { before: self.text@.take(n), after: self.text@.skip(n) }
    }
}

/// An empty input buffer.
pub open spec fn empty_input() -> InputView {
    InputView { before: Seq::empty(), after: Seq::empty() }
}

proof fn lemma_within_bounds(s: Seq<char>, bytes: int)
    ensures
        0 <= chars_within(s, bytes) <= s.len(),
    decreases s.len(),
{
    if s.len() > 0 && bytes >= width(s[0]) {
        lemma_within_bounds(s.drop_first(), bytes - width(s[0]));
    }
}

impl InputBuffer {
    /// Whether the cursor stands between two characters.
    pub open spec fn wf(&self) -> bool {
        byte_len(self@.before) == self.cursor
    }

    /// An empty buffer.
    pub fn new() -> (r: InputBuffer)
        ensures
            r.wf(),
            r@ == empty_input(),
            r.text@ == Seq::<char>::empty(),
            r.cursor == 0,
    {
        let r = InputBuffer { text: String::new(), cursor: 0 };
        assert(r@.before =~= Seq::empty());
        assert(r@.after =~= Seq::empty());
        r
    }

    /// Puts a text before the cursor and a text behind it.
    fn put(&mut self, before: &Vec<char>, after: &Vec<char>)
        ensures
            final(self).wf(),
            final(self)@ == (InputView { before: before@, after: after@ }),
            final(self).text@ == before@ + after@,
            final(self).cursor == byte_len(before@),
    {
        let left = from_chars(before);
        let right = from_chars(after);
        self.cursor = bytes_of(left.as_str());
        self.text = concat(left.as_str(), right.as_str());
        proof {
            lemma_chars_within(before@, after@);
            assert((before@ + after@).take(before@.len() as int) =~= before@);
            assert((before@ + after@).skip(before@.len() as int) =~= after@);
        }
    }

    /// The text before the cursor and the text behind it.
    fn halves(&self) -> (r: (Vec<char>, Vec<char>))
        ensures
            r.0@ == self@.before,
            r.1@ == self@.after,
            r.0@ + r.1@ == self.text@,
    {
        let v = to_chars(self.text.as_str());
        let mut n: usize = 0;
        let mut left: usize = self.cursor;
        assert(v@.skip(0) =~= v@);
        while n < v.len() && left >= char_width(v[n])
            invariant
                n <= v@.len(),
                chars_within(v@, self.cursor as int) == n + chars_within(
                    v@.skip(n as int),
                    left as int,
                ),
            decreases v@.len() - n,
        {
            assert(v@.skip(n as int).drop_first() =~= v@.skip(n + 1));
            left = left - char_width(v[n]);
            n = n + 1;
        }
        assert(v@ =~= v@.take(n as int) + v@.skip(n as int));
        (take(&v, n), skip(&v, n))
    }

    /// Empties the buffer.
    pub fn clear(&mut self)
        ensures
            final(self).wf(),
            final(self)@ == empty_input(),
            final(self).text@ == Seq::<char>::empty(),
            final(self).cursor == 0,
    {
        let fresh = InputBuffer::new();
        self.text = fresh.text;
        self.cursor = 0;
    }

    /// Replaces the text and puts the cursor at its end.
    pub fn set_text(&mut self, text: String)
        ensures
            final(self).wf(),
            final(self)@ == (InputView { before: text@, after: Seq::empty() }),
            final(self).text == text,
    {
        self.cursor = bytes_of(text.as_str());
        self.text = text;
        proof {
            lemma_chars_within(text@, Seq::empty());
            assert(text@ + Seq::<char>::empty() =~= text@);
            assert(text@.take(text@.len() as int) =~= text@);
            assert(text@.skip(text@.len() as int) =~= Seq::empty());
        }
    }

    /// Types a character at the cursor.
    pub fn push_char(&mut self, c: char)
        requires
            old(self).wf(),
        ensures
            final(self).wf(),
            final(self)@ == (InputView { before: old(self)@.before.push(c), ..old(self)@ }),
            final(self).text@ == old(self)@.before.push(c) + old(self)@.after,
            final(self).cursor == old(self).cursor + width(c),
    {
        let (mut before, after) = self.halves();
        proof {
            lemma_byte_len_push(before@, c);
        }
        before.push(c);
        self.put(&before, &after);
    }

    /// Deletes the character before the cursor, if there is one.
    pub fn backspace(&mut self)
        requires
            old(self).wf(),
        ensures
            final(self).wf(),
            final(self)@ == (if old(self)@.before.len() > 0 {
                InputView { before: old(self)@.before.drop_last(), ..old(self)@ }
            } else {
                old(self)@
            }),
            final(self).text@ == final(self)@.before + final(self)@.after,
    {
        let (before, after) = self.halves();
        if before.len() > 0 {
            let shorter = take(&before, before.len() - 1);
            self.put(&shorter, &after);
        }
    }

    /// Moves the cursor one character to the left, if there is one.
    pub fn move_left(&mut self)
        requires
            old(self).wf(),
        ensures
            final(self).wf(),
            final(self)@ == (if old(self)@.before.len() > 0 {
                InputView {
                    before: old(self)@.before.drop_last(),
                    after: seq![old(self)@.before.last()] + old(self)@.after,
                }
            } else {
                old(self)@
            }),
            final(self).text@ == old(self).text@,
    {
        let (before, after) = self.halves();
        if before.len() > 0 {
            let n: usize = before.len() - 1;
            let v = to_chars(self.text.as_str());
            let left = take(&v, n);
            let right = skip(&v, n);
            proof {
                assert(left@ =~= before@.drop_last());
                assert(right@ =~= seq![before@.last()] + after@);
                assert(left@ + right@ =~= v@);
            }
            self.put(&left, &right);
        }
    }

    /// Moves the cursor one character to the right, if there is one.
    pub fn move_right(&mut self)
        requires
            old(self).wf(),
        ensures
            final(self).wf(),
            final(self)@ == (if old(self)@.after.len() > 0 {
                InputView {
                    before: old(self)@.before.push(old(self)@.after[0]),
                    after: old(self)@.after.skip(1),
                }
            } else {
                old(self)@
            }),
            final(self).text@ == old(self).text@,
    {
        let (before, after) = self.halves();
        if after.len() > 0 {
            let mut left = take(&before, before.len());
            assert(left@ =~= before@);
            left.push(after[0]);
            let right = skip(&after, 1);
            assert(left@ + right@ =~= before@ + after@);
            self.put(&left, &right);
        }
    }

    /// Moves the cursor to the start.
    pub fn move_start(&mut self)
        ensures
            final(self).wf(),
            final(self)@ == (InputView { before: Seq::empty(), after: old(self).text@ }),
            final(self).text == old(self).text,
            final(self).cursor == 0,
    {
        self.cursor = 0;
        proof {
            lemma_chars_within(Seq::empty(), self.text@);
            assert(Seq::<char>::empty() + self.text@ =~= self.text@);
            assert(self.text@.take(0) =~= Seq::empty());
            assert(self.text@.skip(0) =~= self.text@);
        }
    }

    /// Moves the cursor to the end.
    pub fn move_end(&mut self)
        ensures
            final(self).wf(),
            final(self)@ == (InputView { before: old(self).text@, after: Seq::empty() }),
            final(self).text@ == old(self).text@,
            final(self).cursor == byte_len(old(self).text@),
    {
        let t = self.text.clone();
        self.set_text(t);
    }
}

impl Default for InputBuffer {
    fn default() -> (r: InputBuffer)
        ensures
            r.wf(),
            r@ == empty_input(),
    {
        InputBuffer::new()
    }
}

fn char_width(c: char) -> (r: usize)
    ensures
        r == width(c),
{
    let n: u32 = c as u32;
    if n <= 0x7f {
        1
    } else if n <= 0x7ff {
        2
    } else if n <= 0xffff {
        3
    } else {
        4
    }
}

/// The two halves of a buffer are its text.
pub proof fn law_halves_are_the_text(b: InputBuffer)
    ensures
        b@.before + b@.after == b.text@,
{
    lemma_within_bounds(b.text@, b.cursor as int);
    let n = chars_within(b.text@, b.cursor as int);
    assert(b.text@.take(n) + b.text@.skip(n) =~= b.text@);
}

// ---------- time ----------

/// How often the sync runs, in seconds.
pub const SYNC_INTERVAL: u64 = 300;

/// A span of seconds in the words of the status bar.
pub open spec fn ago(secs: nat) -> Seq<char> {
    if secs < 60 {
        "just now"@
    } else if secs < 3600 {
        decimal(secs / 60) + "m ago"@
    } else {
        decimal(secs / 3600) + "h ago"@
    }
}

/// The time since an event, for the status bar. `elapsed` is in seconds.
pub fn format_ago(elapsed: u64) -> (r: String)
    ensures
        r@ == ago(elapsed as nat),
{
    if elapsed < 60 {
        "just now".to_string()
    } else if elapsed < 3600 {
        concat(number(elapsed / 60).as_str(), "m ago")
    } else {
        concat(number(elapsed / 3600).as_str(), "h ago")
    }
}

// ---------- plugins ----------

/// What the manifest of a plugin says, as far as the host decides by it.
#[derive(Debug)]
pub struct Manifest {
    pub name: String,
    pub version: String,
    pub description: String,
    pub provider: bool,
    pub tool: bool,
    pub agent: bool,
    pub theme: bool,
    pub command: bool,
    pub is_lua: bool,
    /// Path of the built binary, and whether it is there.
    pub binary: String,
    pub binary_exists: bool,
    /// The models that a provider section lists; `None` without such a section.
    pub models: Option<Vec<String>>,
    pub ui: Option<UiSpec>,
    pub help: Vec<HelpSection>,
    /// The command of the service section, if there is one.
    pub service_cmd: Option<String>,
}

/// A help section of a manifest.
#[derive(Debug)]
pub struct HelpSection {
    pub title: String,
    pub text: String,
}

/// A field of a settings form.
#[derive(Debug)]
pub struct UiField {
    pub key: String,
    pub label: String,
    /// `text`, `secret`, `number`, `select`, ...
    pub kind: String,
    pub required: bool,
    pub default: Option<String>,
    pub options: Vec<String>,
}

/// A settings form.
#[derive(Debug)]
pub struct UiSpec {
    pub fields: Vec<UiField>,
}

/// A dialog that a plugin asks for.
#[derive(Debug)]
pub enum UiRequest {
    Input { title: String, placeholder: Option<String> },
    Confirm { title: String, message: String },
    Pick { title: String, items: Vec<String> },
    MultiSelect { title: String, items: Vec<String>, preselected: Vec<usize> },
    Text { title: String, placeholder: Option<String>, prefill: Option<String> },
}

impl UiRequest {
    /// The title of the dialog.
    pub open spec fn title_spec(self) -> Seq<char> {
        match self {
            UiRequest::Input { title, .. } => title@,
            UiRequest::Confirm { title, .. } => title@,
            UiRequest::Pick { title, .. } => title@,
            UiRequest::MultiSelect { title, .. } => title@,
            UiRequest::Text { title, .. } => title@,
        }
    }

    /// The title of the dialog.
    pub fn title(&self) -> (r: &str)
        ensures
            r@ == self.title_spec(),
    {
        match self {
            UiRequest::Input { title, .. } => title.as_str(),
            UiRequest::Confirm { title, .. } => title.as_str(),
            UiRequest::Pick { title, .. } => title.as_str(),
            UiRequest::MultiSelect { title, .. } => title.as_str(),
            UiRequest::Text { title, .. } => title.as_str(),
        }
    }
}

/// The answer to a dialog.
#[derive(Debug)]
pub enum UiResponse {
    Text(Option<String>),
    Confirmed(bool),
    Choice(Option<usize>),
    Choices(Option<Vec<usize>>),
    Refused(String),
}

/// How grave a notification is.
#[derive(Clone, Copy, Debug, PartialEq, Eq, Structural)]
pub enum UiLevel {
    Info,
    Warn,
    Error,
}

/// The state of an open dialog.
#[allow(inconsistent_fields)]
#[derive(Debug)]
pub enum PluginModalKind {
    Input { buffer: String, placeholder: Option<String> },
    Confirm,
    Pick { selected: usize },
    /// Flags per item and a cursor. Enter submits the set, Esc cancels.
    MultiSelect { selected: Vec<bool>, cursor: usize },
    TextEditor { buffer: String, placeholder: Option<String> },
}

/// The open dialog of a plugin.
#[derive(Debug)]
pub struct ActivePluginModal {
    pub request: UiRequest,
    pub kind: PluginModalKind,
}

/// A tree of widgets that a plugin draws.
#[derive(Debug)]
pub enum Widget {
    Text { content: String, fg: Option<String>, bold: bool },
    List { items: Vec<String>, highlight: Option<usize> },
    Column { children: Vec<Widget> },
    Row { children: Vec<Widget> },
}

/// A command that a plugin registered.
#[derive(Debug)]
pub struct PluginCommand {
    pub plugin_name: String,
    pub name: String,
    pub desc: String,
}

impl Clone for PluginCommand {
    fn clone(&self) -> (r: PluginCommand)
        ensures
            r == *self,
    {
        PluginCommand {
            plugin_name: self.plugin_name.clone(),
            name: self.name.clone(),
            desc: self.desc.clone(),
        }
    }
}

/// One tab of the help page. The first one lists the key bindings.
#[derive(Debug)]
pub struct HelpTab {
    pub title: String,
    /// The plugin that the tab belongs to; `None` for the key bindings.
    pub plugin: Option<String>,
    pub text: String,
}

/// What a worker calls on a plugin.
#[derive(Debug)]
pub enum PluginCall {
    Command(String),
    Configure,
}

/// One choice of the agent picker.
#[derive(Debug)]
pub struct AgentChoice {
    pub plugin: String,
    pub model: Option<String>,
    pub binary: String,
    pub is_lua: bool,
    /// The settings of the plugin as JSON.
    pub config: Option<String>,
}

impl Clone for AgentChoice {
    fn clone(&self) -> (r: AgentChoice)
        ensures
            r == *self,
    {
        AgentChoice {
            plugin: self.plugin.clone(),
            model: opt_clone(&self.model),
            binary: self.binary.clone(),
            is_lua: self.is_lua,
            config: opt_clone(&self.config),
        }
    }
}

/// The pane of the plugin manager that has the focus.
#[derive(Clone, Copy, Debug, PartialEq, Eq, Structural)]
pub enum PluginPane {
    /// The list of installed plugins.
    List,
    /// The install input.
    Install,
}

// ---------- agents ----------

/// Tokens that a completion used.
#[derive(Clone, Copy, Debug, PartialEq, Eq, Structural)]
pub struct Usage {
    pub prompt_tokens: u32,
    pub completion_tokens: u32,
    pub total_tokens: Option<u32>,
}

/// A file that an agent wrote.
#[derive(Debug)]
pub struct AgentFile {
    pub path: String,
    pub content: Option<String>,
}

/// What an agent run ended with.
#[derive(Debug)]
pub struct AgentResult {
    pub content: String,
    pub files: Vec<AgentFile>,
    pub usage: Option<Usage>,
}

/// What an agent run is given. `config` is the JSON text of the settings of the plugin.
#[derive(Debug)]
pub struct AgentRunConfig {
    pub task_id: String,
    pub title: String,
    pub description: Option<String>,
    pub model: Option<String>,
    pub config: Option<String>,
}

/// What an agent run reports.
#[derive(Debug)]
pub enum AgentEvent {
    Progress { message: String, detail: Option<String> },
    Result(AgentResult),
    Error { message: String, detail: Option<String> },
}

// ---------- sync ----------

/// The state of the sync. Times are seconds of a clock that never goes back.
#[derive(Debug)]
pub enum SyncStatus {
    /// No credentials are configured.
    NotConfigured,
    /// A sync is running.
    Syncing,
    /// The last sync succeeded.
    Synced { at: u64 },
    /// The last sync failed.
    Failed { at: u64, error: String },
}

impl Default for SyncStatus {
    fn default() -> (r: SyncStatus)
        ensures
            r is NotConfigured,
    {
        SyncStatus::NotConfigured
    }
}

// ---------- modes ----------

/// What the application is doing; it decides how keys are handled.
#[derive(Debug)]
pub enum Mode {
    Normal,
    /// Adding a goal, below a parent or at the root.
    AddGoal { parent_id: Option<String> },
    EditTitle { goal_id: String },
    EditDescription { goal_id: String },
    EditDue { goal_id: String },
    EditReminder { goal_id: String },
    EditRepeat { goal_id: String },
    ConfirmDelete { goal_id: String },
    /// The question before all data is deleted.
    ConfirmPurge,
    Help,
    PluginManager { pane: PluginPane },
    PluginHelp,
    PluginConfigure { plugin: String },
    AgentPicker { goal_id: String },
    AgentRunning { goal_id: String },
    /// Input of a range of goals to assign to an agent.
    AssignRange,
    MovePicker { goal_id: String },
    SheetPicker,
    AddSheet,
    ConfirmDeleteSheet { sheet_id: String },
    PluginModal,
    PluginPanel,
    Command,
    GlobalConfig,
    Stats,
    FullResult { goal_id: String, scroll: usize },
}

impl Clone for Mode {
    fn clone(&self) -> (r: Mode)
        ensures
            r == *self,
    {
        match self {
            Mode::Normal => Mode::Normal,
            Mode::AddGoal { parent_id } => Mode::AddGoal { parent_id: opt_clone(parent_id) },
            Mode::EditTitle { goal_id } => Mode::EditTitle { goal_id: goal_id.clone() },
            Mode::EditDescription { goal_id } => Mode::EditDescription { goal_id: goal_id.clone() },
            Mode::EditDue { goal_id } => Mode::EditDue { goal_id: goal_id.clone() },
            Mode::EditReminder { goal_id } => Mode::EditReminder { goal_id: goal_id.clone() },
            Mode::EditRepeat { goal_id } => Mode::EditRepeat { goal_id: goal_id.clone() },
            Mode::ConfirmDelete { goal_id } => Mode::ConfirmDelete { goal_id: goal_id.clone() },
            Mode::ConfirmPurge => Mode::ConfirmPurge,
            Mode::Help => Mode::Help,
            Mode::PluginManager { pane } => Mode::PluginManager { pane: *pane },
            Mode::PluginHelp => Mode::PluginHelp,
            Mode::PluginConfigure { plugin } => Mode::PluginConfigure { plugin: plugin.clone() },
            Mode::AgentPicker { goal_id } => Mode::AgentPicker { goal_id: goal_id.clone() },
            Mode::AgentRunning { goal_id } => Mode::AgentRunning { goal_id: goal_id.clone() },
            Mode::AssignRange => Mode::AssignRange,
            Mode::MovePicker { goal_id } => Mode::MovePicker { goal_id: goal_id.clone() },
            Mode::SheetPicker => Mode::SheetPicker,
            Mode::AddSheet => Mode::AddSheet,
            Mode::ConfirmDeleteSheet { sheet_id } => Mode::ConfirmDeleteSheet {
                sheet_id: sheet_id.clone(),
            },
            Mode::PluginModal => Mode::PluginModal,
            Mode::PluginPanel => Mode::PluginPanel,
            Mode::Command => Mode::Command,
            Mode::GlobalConfig => Mode::GlobalConfig,
            Mode::Stats => Mode::Stats,
            Mode::FullResult { goal_id, scroll } => Mode::FullResult {
                goal_id: goal_id.clone(),
                scroll: *scroll,
            },
        }
    }
}

/// Texts take as many bytes as their parts together, and each character one to four.
pub proof fn law_bytes_add_up(a: Seq<char>, b: Seq<char>, c: char)
    ensures
        byte_len(a + b) == byte_len(a) + byte_len(b),
        byte_len(seq![c]) == (if (c as int) < 128 {
            1int
        } else if (c as int) < 2048 {
            2
        } else if (c as int) < 65536 {
            3
        } else {
            4
        }),
    decreases a.len(),
{
    let one = seq![c];
    assert(one.drop_first() =~= Seq::empty());
    assert(byte_len(one.drop_first()) == 0);
    assert(one[0] == c);
    if a.len() > 0 {
        law_bytes_add_up(a.drop_first(), b, c);
        assert((a + b).drop_first() =~= a.drop_first() + b);
    } else {
        assert(a + b =~= b);
    }
}

/// As many characters fit into a number of bytes as take no more of them, and one more
/// would not fit.
pub proof fn law_as_many_characters_as_fit(s: Seq<char>, bytes: int)
    requires
        bytes >= 0,
    ensures
        0 <= chars_within(s, bytes) <= s.len(),
        byte_len(s.take(chars_within(s, bytes))) <= bytes,
        chars_within(s, bytes) < s.len() ==> byte_len(s.take(chars_within(s, bytes) + 1)) > bytes,
    decreases s.len(),
{
    if s.len() == 0 || bytes < width(s[0]) {
        assert(s.take(0) =~= Seq::empty());
        if s.len() > 0 {
            let one = s.take(1);
            assert(one[0] == s[0]);
            assert(byte_len(one) >= width(s[0]));
        }
    } else {
        let t = s.drop_first();
        let k = chars_within(t, bytes - width(s[0]));
        law_as_many_characters_as_fit(t, bytes - width(s[0]));
        assert(s.take(k + 1).drop_first() =~= t.take(k));
        assert(s.take(k + 1)[0] == s[0]);
        if k < t.len() {
            assert(s.take(k + 2).drop_first() =~= t.take(k + 1));
            assert(s.take(k + 2)[0] == s[0]);
        }
    }
}

/// A span of time is told in whole minutes from the first one on, and in whole hours from
/// the first one on.
pub proof fn law_time_is_told_in_whole_units(minutes: nat, hours: nat, rest: nat)
    ensures
        rest < 60 ==> ago(rest) == "just now"@,
        0 < minutes < 60 && rest < 60 ==> ago(minutes * 60 + rest) == decimal(minutes) + "m ago"@,
        0 < hours && rest < 3600 ==> ago(hours * 3600 + rest) == decimal(hours) + "h ago"@,
{
}

} // verus!
