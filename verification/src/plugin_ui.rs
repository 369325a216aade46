//! What plugins put in front of the user: dialogs, notifications and panels.

use crate::app::{says, App};
use crate::text::{concat, from_chars, opt, opt_clone, take, to_chars, trim, trim_back, trim_end, trimmed};
use crate::types::{
    empty_input, ActivePluginModal, Mode, PluginModalKind, UiLevel, UiRequest, UiResponse,
};
use vstd::prelude::*;

verus! {

/// What a plugin asks the user or tells them.
#[derive(Debug)]
pub enum PluginUiEvent {
    /// A dialog that awaits an answer.
    Modal(UiRequest),
    /// A message that nobody waits for.
    Notify { level: UiLevel, message: String },
}

/// What a plugin does with its panel.
#[derive(Debug)]
pub enum PanelCommand {
    /// Opens a panel with a title.
    Open(String),
    Close,
}

/// The queues between the plugins and the user: what comes first leaves first.
#[derive(Debug)]
pub struct PluginUiBridge {
    pub events: Vec<PluginUiEvent>,
    pub panels: Vec<PanelCommand>,
}

impl PluginUiBridge {
    /// Empty queues.
    pub fn new() -> (r: PluginUiBridge)
        ensures
            r.events@.len() == 0,
            r.panels@.len() == 0,
    {
        PluginUiBridge { events: Vec::new(), panels: Vec::new() }
    }

    /// Queues a dialog.
    pub fn submit(&mut self, request: UiRequest)
        ensures
            final(self).events@ == old(self).events@.push(PluginUiEvent::Modal(request)),
            final(self).panels == old(self).panels,
    {
        self.events.push(PluginUiEvent::Modal(request));
    }

    /// Queues a notification.
    pub fn notify(&mut self, level: UiLevel, message: String)
        ensures
            final(self).events@ == old(self).events@.push(
                (PluginUiEvent::Notify { level, message }),
            ),
            final(self).panels == old(self).panels,
    {
        self.events.push(PluginUiEvent::Notify { level, message });
    }

    /// Takes the event that was queued first, if there is one.
    pub fn try_take_event(&mut self) -> (r: Option<PluginUiEvent>)
        ensures
            final(self).panels == old(self).panels,
            match r {
                Some(e) => old(self).events@ == seq![e] + final(self).events@,
                None => old(self).events@.len() == 0 && final(self).events@.len() == 0,
            },
    {
        if self.events.len() == 0 {
            None
        } else {
            let e = self.events.remove(0);
            assert(old(self).events@ =~= seq![e] + self.events@);
            Some(e)
        }
    }

    /// Queues the opening of a panel.
    pub fn open_panel(&mut self, title: String)
        ensures
            final(self).panels@ == old(self).panels@.push(PanelCommand::Open(title)),
            final(self).events == old(self).events,
    {
        self.panels.push(PanelCommand::Open(title));
    }

    /// Queues the closing of the panel.
    pub fn close_panel(&mut self)
        ensures
            final(self).panels@ == old(self).panels@.push(PanelCommand::Close),
            final(self).events == old(self).events,
    {
        self.panels.push(PanelCommand::Close);
    }

    /// Takes the panel command that was queued first, if there is one.
    pub fn try_take_panel_command(&mut self) -> (r: Option<PanelCommand>)
        ensures
            final(self).events == old(self).events,
            match r {
                Some(c) => old(self).panels@ == seq![c] + final(self).panels@,
                None => old(self).panels@.len() == 0 && final(self).panels@.len() == 0,
            },
    {
        if self.panels.len() == 0 {
            None
        } else {
            let c = self.panels.remove(0);
            assert(old(self).panels@ =~= seq![c] + self.panels@);
            Some(c)
        }
    }
}

impl Default for PluginUiBridge {
    fn default() -> (r: PluginUiBridge)
        ensures
            r.events@.len() == 0,
            r.panels@.len() == 0,
    {
        PluginUiBridge::new()
    }
}

// ---------- opening ----------

/// Whether a dialog of this state is what a request opens.
pub open spec fn opens(kind: PluginModalKind, request: UiRequest) -> bool {
    match request {
        UiRequest::Input { placeholder, .. } => kind matches PluginModalKind::Input {
            buffer,
            placeholder: p,
        } && buffer@.len() == 0 && p == placeholder,
        UiRequest::Confirm { .. } => kind is Confirm,
        UiRequest::Pick { .. } => kind matches PluginModalKind::Pick { selected } && selected == 0,
        UiRequest::MultiSelect { items, preselected, .. } => kind
            matches PluginModalKind::MultiSelect { selected, cursor } && cursor == 0 && selected@
            == flags(items@.len(), preselected@),
        UiRequest::Text { placeholder, prefill, .. } => kind matches PluginModalKind::TextEditor {
            buffer,
            placeholder: p,
        } && buffer@ == crate::text::opt_or_empty(prefill) && p == placeholder,
    }
}

/// A flag for each of `n` items: whether it is preselected.
pub open spec fn flags(n: nat, preselected: Seq<usize>) -> Seq<bool> {
    Seq::new(n, |i: int| preselected.contains(i as usize))
}

fn is_preselected(preselected: &Vec<usize>, i: usize) -> (r: bool)
    ensures
        r == preselected@.contains(i),
{
    let mut k: usize = 0;
    while k < preselected.len()
        invariant
            k <= preselected@.len(),
            forall|j: int| 0 <= j < k ==> preselected@[j] != i,
        decreases preselected@.len() - k,
    {
        if preselected[k] == i {
            assert(preselected@[k as int] == i);
            return true;
        }
        k = k + 1;
    }
    false
}

/// The state of the dialog that a request opens.
pub fn open_modal(request: &UiRequest) -> (r: PluginModalKind)
    ensures
        opens(r, *request),
{
    match request {
        UiRequest::Input { placeholder, .. } => {
            let buffer = String::new();
            assert(buffer@.len() == 0);
            PluginModalKind::Input { buffer, placeholder: opt_clone(placeholder) }
        },
        UiRequest::Confirm { .. } => PluginModalKind::Confirm,
        UiRequest::Pick { .. } => PluginModalKind::Pick { selected: 0 },
        UiRequest::MultiSelect { items, preselected, .. } => {
            let n: usize = items.len();
            let mut selected: Vec<bool> = Vec::new();
            let mut i: usize = 0;
            while i < n
                invariant
                    i <= n,
                    selected@.len() == i,
                    forall|j: int|
                        0 <= j < i ==> selected@[j] == preselected@.contains(#[trigger] (j as usize)),
                decreases n - i,
            {
                selected.push(is_preselected(preselected, i));
                i = i + 1;
            }
            assert(selected@ =~= flags(items@.len(), preselected@));
            PluginModalKind::MultiSelect { selected, cursor: 0 }
        },
        UiRequest::Text { placeholder, prefill, .. } => PluginModalKind::TextEditor {
            buffer: crate::text::opt_text(prefill),
            placeholder: opt_clone(placeholder),
        },
    }
}

/// What becomes of an event of a plugin.
#[derive(Debug)]
pub enum UiStep {
    /// It was a notification: log this warning or error, if one is given, and take
    /// the next event.
    Next { error: Option<String> },
    /// It was a dialog and is refused with this answer.
    Refuse(UiResponse),
    /// It was a dialog and is open.
    Opened,
}

/// A notification on the status line.
pub open spec fn notification(level: UiLevel, message: Seq<char>) -> Seq<char> {
    match level {
        UiLevel::Info => message,
        UiLevel::Warn => "⚠ "@ + message,
        UiLevel::Error => "✖ "@ + message,
    }
}

// ---------- editing ----------

/// The text of an open dialog that takes one.
pub open spec fn modal_text(modal: Option<ActivePluginModal>) -> Option<Seq<char>> {
    match modal {
        Some(m) => match m.kind {
            PluginModalKind::Input { buffer, .. } => Some(buffer@),
            PluginModalKind::TextEditor { buffer, .. } => Some(buffer@),
            _ => None,
        },
        None => None,
    }
}

/// Whether a dialog is another one with its text replaced.
pub open spec fn with_text(
    after: Option<ActivePluginModal>,
    before: Option<ActivePluginModal>,
    text: Seq<char>,
) -> bool {
    match (before, after) {
        (Some(b), Some(a)) => a.request == b.request && (match (b.kind, a.kind) {
            (
                PluginModalKind::Input { placeholder: p, .. },
                PluginModalKind::Input { buffer, placeholder: q },
            ) => buffer@ == text && p == q,
            (
                PluginModalKind::TextEditor { placeholder: p, .. },
                PluginModalKind::TextEditor { buffer, placeholder: q },
            ) => buffer@ == text && p == q,
            _ => false,
        }),
        _ => false,
    }
}

/// The number of items of a dialog that lists some.
pub open spec fn item_count(request: UiRequest) -> Option<nat> {
    match request {
        UiRequest::Pick { items, .. } => Some(items@.len()),
        UiRequest::MultiSelect { items, .. } => Some(items@.len()),
        _ => None,
    }
}

/// A position moved by some steps, within the list. In an empty list it stays.
pub open spec fn stepped(pos: int, delta: int, len: int) -> int {
    if len <= 0 {
        pos
    } else if pos + delta < 0 {
        0
    } else if pos + delta > len - 1 {
        len - 1
    } else {
        pos + delta
    }
}

/// Moves a position by some steps, within the list.
pub fn step_within(pos: usize, delta: i32, len: usize) -> (r: usize)
    ensures
        r == stepped(pos as int, delta as int, len as int),
        len > 0 ==> r < len,
{
    if len == 0 {
        return pos;
    }
    let p: i128 = pos as i128 + delta as i128;
    let last: i128 = len as i128 - 1;
    if p < 0 {
        0
    } else if p > last {
        len - 1
    } else {
        p as usize
    }
}

/// The positions whose flag is set, in order.
pub open spec fn set_positions(s: Seq<bool>) -> Seq<usize>
    decreases s.len(),
{
    if s.len() == 0 {
        Seq::empty()
    } else {
        let before = set_positions(s.drop_last());
        if s.last() {
            before.push((s.len() - 1) as usize)
        } else {
            before
        }
    }
}

fn chosen_positions(s: &Vec<bool>) -> (r: Vec<usize>)
    ensures
        r@ == set_positions(s@),
{
    let mut out: Vec<usize> = Vec::new();
    assert(s@.take(0) =~= Seq::empty());
    for i in 0..s.len()
        invariant
            out@ == set_positions(s@.take(i as int)),
    {
        assert(s@.take(i + 1).drop_last() =~= s@.take(i as int));
        if s[i] {
            out.push(i);
        }
    }
    assert(s@.take(s@.len() as int) =~= s@);
    out
}

/// The positions that a submitted multiple choice gives are those of the flags
/// that are set, in increasing order.
pub proof fn law_choices_are_the_flags(s: Seq<bool>)
    requires
        s.len() <= usize::MAX,
    ensures
        forall|i: int|
            0 <= i < s.len() ==> (s[i] <==> #[trigger] set_positions(s).contains(i as usize)),
        forall|i: int, j: int|
            0 <= i < j < set_positions(s).len() ==> set_positions(s)[i] < set_positions(s)[j],
        forall|i: int| 0 <= i < set_positions(s).len() ==> (#[trigger] set_positions(s)[i]) < s.len(),
    decreases s.len(),
{
    if s.len() > 0 {
        let t = s.drop_last();
        law_choices_are_the_flags(t);
        let before = set_positions(t);
        let all = set_positions(s);
        assert forall|i: int| 0 <= i < s.len() implies (s[i] <==> #[trigger] all.contains(
            i as usize,
        )) by {
            if i < t.len() {
                assert(t[i] == s[i]);
                assert(t[i] <==> before.contains(i as usize));
                if before.contains(i as usize) {
                    let k = choose|k: int| 0 <= k < before.len() && before[k] == i as usize;
                    assert(all[k] == i as usize);
                }
                if all.contains(i as usize) {
                    let k = choose|k: int| 0 <= k < all.len() && all[k] == i as usize;
                    assert(k < before.len());
                    assert(before[k] == i as usize);
                }
            } else {
                if s.last() {
                    assert(all.last() == i as usize);
                }
                if all.contains(i as usize) {
                    let k = choose|k: int| 0 <= k < all.len() && all[k] == i as usize;
                    if k < before.len() {
                        assert(before[k] < t.len());
                    }
                }
            }
        }
    }
}

/// Whether an answer is what submitting a dialog gives.
pub open spec fn answers(r: UiResponse, kind: PluginModalKind) -> bool {
    match kind {
        PluginModalKind::Input { buffer, .. } => r matches UiResponse::Text(t) && opt(t) == (
        if trimmed(buffer@).len() == 0 {
            None
        } else {
            Some(trimmed(buffer@))
        }),
        PluginModalKind::Confirm => r matches UiResponse::Confirmed(yes) && yes,
        PluginModalKind::Pick { selected } => r matches UiResponse::Choice(c) && c == Some(selected),
        PluginModalKind::MultiSelect { selected, .. } => r matches UiResponse::Choices(c) && c
            is Some && c->0@ == set_positions(selected@),
        PluginModalKind::TextEditor { buffer, .. } => r matches UiResponse::Text(t) && opt(t)
            == Some(trim_back(buffer@)),
    }
}

/// The answer that submitting a dialog gives.
pub fn submitted(kind: &PluginModalKind) -> (r: UiResponse)
    ensures
        answers(r, *kind),
{
    match kind {
        PluginModalKind::Input { buffer, .. } => {
            let text = trim(buffer.as_str());
            if text.as_str().is_empty() {
                UiResponse::Text(None)
            } else {
                UiResponse::Text(Some(text))
            }
        },
        PluginModalKind::Confirm => UiResponse::Confirmed(true),
        PluginModalKind::Pick { selected } => UiResponse::Choice(Some(*selected)),
        PluginModalKind::MultiSelect { selected, .. } => UiResponse::Choices(
            Some(chosen_positions(selected)),
        ),
        PluginModalKind::TextEditor { buffer, .. } => UiResponse::Text(
            Some(trim_end(buffer.as_str())),
        ),
    }
}

/// The answer of a dialog that is left without one.
pub open spec fn declined(modal: Option<ActivePluginModal>) -> UiResponse {
    match modal {
        Some(m) => match m.kind {
            PluginModalKind::Confirm => UiResponse::Confirmed(false),
            PluginModalKind::MultiSelect { .. } => UiResponse::Choices(None),
            _ => UiResponse::Text(None),
        },
        None => UiResponse::Text(None),
    }
}

fn set_modal_text(modal: &mut Option<ActivePluginModal>, text: String)
    requires
        modal_text(*old(modal)) is Some,
    ensures
        with_text(*final(modal), *old(modal), text@),
{
    if let Some(m) = modal.take() {
        let kind = match m.kind {
            PluginModalKind::Input { placeholder, .. } => PluginModalKind::Input {
                buffer: text,
                placeholder,
            },
            PluginModalKind::TextEditor { placeholder, .. } => PluginModalKind::TextEditor {
                buffer: text,
                placeholder,
            },
            k => k,
        };
        *modal = Some(ActivePluginModal { request: m.request, kind });
    }
}

impl App {
    /// Takes in an event of a plugin. A dialog opens over the goal list only.
    pub fn poll_plugin_ui_requests(&mut self, event: PluginUiEvent) -> (r: UiStep)
        requires
            old(self).wf(),
        ensures
            final(self).wf(),
            match event {
                PluginUiEvent::Notify { level, message } => *final(self) == (App {
                    message: final(self).message,
                    ..*old(self)
                }) && says(final(self).message, notification(level, message@)) && (
                r matches UiStep::Next { error } && opt(error) == (if level == UiLevel::Info {
                    None
                } else {
                    Some(message@)
                })),
                PluginUiEvent::Modal(request) => if !(old(self).mode is Normal) || old(
                    self,
                ).plugin_modal is Some {
                    *final(self) == *old(self) && (r matches UiStep::Refuse(UiResponse::Refused(why))
                        && why@ == "another dialog is open"@)
                } else {
                    *final(self) == (App {
                        plugin_modal: final(self).plugin_modal,
                        mode: Mode::PluginModal,
                        ..*old(self)
                    }) && r is Opened && final(self).plugin_modal is Some
                        && final(self).plugin_modal->0.request == request && opens(
                        final(self).plugin_modal->0.kind,
                        request,
                    )
                },
            },
    {
        match event {
            PluginUiEvent::Notify { level, message } => {
                let text = match level {
                    UiLevel::Info => message.clone(),
                    UiLevel::Warn => concat("⚠ ", message.as_str()),
                    UiLevel::Error => concat("✖ ", message.as_str()),
                };
                self.set_message(text.as_str());
                if level == UiLevel::Info {
                    UiStep::Next { error: None }
                } else {
                    UiStep::Next { error: Some(message) }
                }
            },
            PluginUiEvent::Modal(request) => {
                let normal = match &self.mode {
                    Mode::Normal => true,
                    _ => false,
                };
                if !normal || self.plugin_modal.is_some() {
                    return UiStep::Refuse(
                        UiResponse::Refused("another dialog is open".to_string()),
                    );
                }
                let kind = open_modal(&request);
                self.plugin_modal = Some(ActivePluginModal { request, kind });
                self.mode = Mode::PluginModal;
                UiStep::Opened
            },
        }
    }

    /// Closes the dialog with an answer, which is to be delivered if a dialog was
    /// open.
    pub fn answer_plugin_modal(&mut self, response: UiResponse) -> (r: Option<UiResponse>)
        requires
            old(self).wf(),
        ensures
            final(self).wf(),
            final(self).closed_modal(*old(self)),
            r == (if old(self).plugin_modal is Some {
                Some(response)
            } else {
                None
            }),
    {
        let open = self.plugin_modal.is_some();
        self.plugin_modal = None;
        let modal = match &self.mode {
            Mode::PluginModal => true,
            _ => false,
        };
        if modal {
            self.cancel();
        }
        if open {
            Some(response)
        } else {
            None
        }
    }

    /// Whether the dialog of a state was closed, and the goal list is shown again
    /// where the dialog was.
    pub open spec fn closed_modal(&self, before: App) -> bool {
        if before.mode is PluginModal {
            *self == (App {
                plugin_modal: None,
                mode: Mode::Normal,
                input: self.input,
                ..before
            }) && self.input@ == empty_input()
        } else {
            *self == (App { plugin_modal: None, ..before })
        }
    }

    /// The text of the open dialog, if it takes one.
    pub fn plugin_modal_text(&self) -> (r: Option<&str>)
        ensures
            match r {
                Some(t) => modal_text(self.plugin_modal) == Some(t@),
                None => modal_text(self.plugin_modal) is None,
            },
    {
        match &self.plugin_modal {
            Some(m) => match &m.kind {
                PluginModalKind::Input { buffer, .. } => Some(buffer.as_str()),
                PluginModalKind::TextEditor { buffer, .. } => Some(buffer.as_str()),
                _ => None,
            },
            None => None,
        }
    }

    fn modal_chars(&self) -> (r: Option<Vec<char>>)
        ensures
            match r {
                Some(v) => modal_text(self.plugin_modal) == Some(v@),
                None => modal_text(self.plugin_modal) is None,
            },
    {
        match self.plugin_modal_text() {
            Some(t) => Some(to_chars(t)),
            None => None,
        }
    }

    /// Appends a character to the text of the dialog.
    pub fn plugin_modal_push_char(&mut self, c: char)
        requires
            old(self).wf(),
        ensures
            final(self).wf(),
            *final(self) == (App { plugin_modal: final(self).plugin_modal, ..*old(self) }),
            match modal_text(old(self).plugin_modal) {
                Some(t) => with_text(final(self).plugin_modal, old(self).plugin_modal, t.push(c)),
                None => final(self).plugin_modal == old(self).plugin_modal,
            },
    {
        if let Some(mut v) = self.modal_chars() {
            v.push(c);
            let text = from_chars(&v);
            set_modal_text(&mut self.plugin_modal, text);
        }
    }

    /// Removes the last character of the text of the dialog.
    pub fn plugin_modal_backspace(&mut self)
        requires
            old(self).wf(),
        ensures
            final(self).wf(),
            *final(self) == (App { plugin_modal: final(self).plugin_modal, ..*old(self) }),
            match modal_text(old(self).plugin_modal) {
                Some(t) => with_text(
                    final(self).plugin_modal,
                    old(self).plugin_modal,
                    if t.len() > 0 {
                        t.drop_last()
                    } else {
                        t
                    },
                ),
                None => final(self).plugin_modal == old(self).plugin_modal,
            },
    {
        if let Some(v) = self.modal_chars() {
            let n: usize = if v.len() > 0 {
                v.len() - 1
            } else {
                0
            };
            let shorter = take(&v, n);
            assert(shorter@ =~= (if v@.len() > 0 {
                v@.drop_last()
            } else {
                v@
            }));
            let text = from_chars(&shorter);
            set_modal_text(&mut self.plugin_modal, text);
        }
    }

    /// Moves the cursor of a dialog that lists items.
    pub fn plugin_modal_move_selection(&mut self, delta: i32)
        requires
            old(self).wf(),
        ensures
            final(self).wf(),
            *final(self) == (App { plugin_modal: final(self).plugin_modal, ..*old(self) }),
            moved_cursor(final(self).plugin_modal, old(self).plugin_modal, delta as int),
    {
        let len: usize = match &self.plugin_modal {
            Some(m) => match &m.request {
                UiRequest::Pick { items, .. } => items.len(),
                UiRequest::MultiSelect { items, .. } => items.len(),
                _ => {
                    return;
                },
            },
            None => {
                return;
            },
        };
        if let Some(m) = self.plugin_modal.take() {
            let kind = match m.kind {
                PluginModalKind::Pick { selected } => PluginModalKind::Pick {
                    selected: step_within(selected, delta, len),
                },
                PluginModalKind::MultiSelect { selected, cursor } => PluginModalKind::MultiSelect {
                    selected,
                    cursor: step_within(cursor, delta, len),
                },
                k => k,
            };
            self.plugin_modal = Some(ActivePluginModal { request: m.request, kind });
        }
    }

    /// Flips the flag under the cursor of a multiple choice.
    pub fn plugin_modal_toggle_current(&mut self)
        requires
            old(self).wf(),
        ensures
            final(self).wf(),
            *final(self) == (App { plugin_modal: final(self).plugin_modal, ..*old(self) }),
            toggled(final(self).plugin_modal, old(self).plugin_modal),
    {
        if let Some(m) = self.plugin_modal.take() {
            let kind = match m.kind {
                PluginModalKind::MultiSelect { selected, cursor } => {
                    let mut selected = selected;
                    if cursor < selected.len() {
                        let flag = !selected[cursor];
                        selected.set(cursor, flag);
                    }
                    PluginModalKind::MultiSelect { selected, cursor }
                },
                k => k,
            };
            self.plugin_modal = Some(ActivePluginModal { request: m.request, kind });
        }
    }

    /// Appends a line break to the text of a dialog of several lines.
    pub fn plugin_modal_newline(&mut self)
        requires
            old(self).wf(),
        ensures
            final(self).wf(),
            *final(self) == (App { plugin_modal: final(self).plugin_modal, ..*old(self) }),
            match old(self).plugin_modal {
                Some(m) => if m.kind is TextEditor {
                    with_text(
                        final(self).plugin_modal,
                        old(self).plugin_modal,
                        modal_text(old(self).plugin_modal)->0.push('\n'),
                    )
                } else {
                    final(self).plugin_modal == old(self).plugin_modal
                },
                None => final(self).plugin_modal is None,
            },
    {
        let editor = match &self.plugin_modal {
            Some(m) => match &m.kind {
                PluginModalKind::TextEditor { .. } => true,
                _ => false,
            },
            None => false,
        };
        if editor {
            self.plugin_modal_push_char('\n');
        }
    }

    /// Submits the dialog: gives the answer that is to be delivered.
    pub fn submit_plugin_modal(&mut self) -> (r: Option<UiResponse>)
        requires
            old(self).wf(),
        ensures
            final(self).wf(),
            match old(self).plugin_modal {
                Some(m) => final(self).closed_modal(*old(self)) && r is Some && answers(r->0, m.kind),
                None => *final(self) == *old(self) && r is None,
            },
    {
        let response = match &self.plugin_modal {
            Some(m) => submitted(&m.kind),
            None => {
                return None;
            },
        };
        self.answer_plugin_modal(response)
    }

    /// Leaves the dialog without an answer: gives what is to be delivered.
    pub fn cancel_plugin_modal(&mut self) -> (r: Option<UiResponse>)
        requires
            old(self).wf(),
        ensures
            final(self).wf(),
            final(self).closed_modal(*old(self)),
            r == (if old(self).plugin_modal is Some {
                Some(declined(old(self).plugin_modal))
            } else {
                None
            }),
    {
        let response = match &self.plugin_modal {
            Some(m) => match &m.kind {
                PluginModalKind::Confirm => UiResponse::Confirmed(false),
                PluginModalKind::MultiSelect { .. } => UiResponse::Choices(None),
                _ => UiResponse::Text(None),
            },
            None => UiResponse::Text(None),
        };
        self.answer_plugin_modal(response)
    }

    /// Carries out what a plugin does with its panel; a second panel replaces the
    /// first.
    pub fn poll_plugin_panel(&mut self, command: Option<PanelCommand>)
        requires
            old(self).wf(),
        ensures
            final(self).wf(),
            match command {
                Some(PanelCommand::Open(title)) => *final(self) == (App {
                    plugin_panel: Some(title),
                    mode: Mode::PluginPanel,
                    ..*old(self)
                }),
                Some(PanelCommand::Close) => final(self).closed_panel(*old(self)),
                None => *final(self) == *old(self),
            },
    {
        match command {
            Some(PanelCommand::Open(title)) => {
                self.plugin_panel = Some(title);
                self.mode = Mode::PluginPanel;
            },
            Some(PanelCommand::Close) => {
                self.close_plugin_panel();
            },
            None => {},
        }
    }

    /// Closes the panel.
    pub fn close_plugin_panel(&mut self)
        requires
            old(self).wf(),
        ensures
            final(self).wf(),
            final(self).closed_panel(*old(self)),
    {
        self.plugin_panel = None;
        let panel = match &self.mode {
            Mode::PluginPanel => true,
            _ => false,
        };
        if panel {
            self.cancel();
        }
    }

    /// Whether the panel of a state was closed, and the goal list is shown again
    /// where the panel was.
    pub open spec fn closed_panel(&self, before: App) -> bool {
        if before.mode is PluginPanel {
            *self == (App {
                plugin_panel: None,
                mode: Mode::Normal,
                input: self.input,
                ..before
            }) && self.input@ == empty_input()
        } else {
            *self == (App { plugin_panel: None, ..before })
        }
    }
}

/// Whether a dialog is another one with its cursor moved by some steps.
pub open spec fn moved_cursor(
    after: Option<ActivePluginModal>,
    before: Option<ActivePluginModal>,
    delta: int,
) -> bool {
    match before {
        Some(b) => match item_count(b.request) {
            Some(n) => after is Some && after->0.request == b.request && (match (
                b.kind,
                after->0.kind,
            ) {
                (PluginModalKind::Pick { selected: s }, k) => k matches PluginModalKind::Pick {
                    selected: t,
                } && t == stepped(s as int, delta, n as int),
                (PluginModalKind::MultiSelect { selected: f, cursor: s }, k) => k
                    matches PluginModalKind::MultiSelect { selected: g, cursor: t } && f == g && t
                    == stepped(s as int, delta, n as int),
                (j, k) => j == k,
            }),
            None => after == before,
        },
        None => after is None,
    }
}

/// Whether a dialog is another one with the flag under its cursor flipped.
pub open spec fn toggled(
    after: Option<ActivePluginModal>,
    before: Option<ActivePluginModal>,
) -> bool {
    match before {
        Some(b) => after is Some && after->0.request == b.request && (match (
            b.kind,
            after->0.kind,
        ) {
            (PluginModalKind::MultiSelect { selected: f, cursor: c }, k) => k
                matches PluginModalKind::MultiSelect { selected: g, cursor: d } && c == d && g@ == (
            if c < f@.len() {
                f@.update(c as int, !f@[c as int])
            } else {
                f@
            }),
            (j, k) => j == k,
        }),
        None => after is None,
    }
}

/// Flipping a flag twice changes nothing.
pub proof fn law_toggling_twice_is_nothing(
    a: Option<ActivePluginModal>,
    b: Option<ActivePluginModal>,
    c: Option<ActivePluginModal>,
)
    requires
        toggled(b, a),
        toggled(c, b),
        a is Some,
    ensures
        c is Some,
        c->0.request == a->0.request,
        match (a->0.kind, c->0.kind) {
            (PluginModalKind::MultiSelect { selected: f, cursor: i }, k) => k
                matches PluginModalKind::MultiSelect { selected: g, cursor: j } && i == j && f@ == g@,
            (j, k) => j == k,
        },
{
    match (a->0.kind, b->0.kind, c->0.kind) {
        (
            PluginModalKind::MultiSelect { selected: f, .. },
            PluginModalKind::MultiSelect { selected: g, .. },
            PluginModalKind::MultiSelect { selected: h, .. },
        ) => {
            assert(f@ =~= h@);
        },
        _ => {},
    }
}

/// A position that is moved stays in its list and moves by as many steps as there is room
/// for.
pub proof fn law_steps_stay_in_the_list(pos: int, delta: int, len: int)
    requires
        0 <= pos < len,
    ensures
        0 <= stepped(pos, delta, len) < len,
        0 <= pos + delta < len ==> stepped(pos, delta, len) == pos + delta,
        pos + delta < 0 ==> stepped(pos, delta, len) == 0,
        pos + delta >= len ==> stepped(pos, delta, len) == len - 1,
{
}

/// An item is chosen from the start exactly where it is preselected.
pub proof fn law_preselected_items_are_chosen(n: nat, preselected: Seq<usize>, i: int)
    requires
        0 <= i < n <= usize::MAX,
    ensures
        flags(n, preselected).len() == n,
        flags(n, preselected)[i] <==> exists|j: int|
            0 <= j < preselected.len() && #[trigger] preselected[j] == i,
{
}

/// A dialog opens in the form that was asked for: empty, on its first item, with the
/// preselected items chosen, or with the given text.
pub proof fn law_dialogs_open_as_asked(kind: PluginModalKind, request: UiRequest)
    requires
        opens(kind, request),
    ensures
        request is Input ==> kind is Input && kind->Input_buffer@.len() == 0
            && kind->Input_placeholder == request->Input_placeholder,
        request is Confirm ==> kind is Confirm,
        request is Pick ==> kind is Pick && kind->Pick_selected == 0,
        request is MultiSelect ==> kind is MultiSelect && kind->MultiSelect_cursor == 0
            && kind->MultiSelect_selected@.len() == request->MultiSelect_items@.len(),
        request is Text ==> kind is TextEditor && kind->TextEditor_placeholder
            == request->Text_placeholder && (request->Text_prefill is Some
            ==> kind->TextEditor_buffer@ == request->Text_prefill->0@) && (
        request->Text_prefill is None ==> kind->TextEditor_buffer@.len() == 0),
{
}

/// Submitting a dialog answers with what it holds: the entered line without the white space
/// around it, if anything is left, a yes, the selected item, the chosen items or the text.
pub proof fn law_dialogs_answer_with_what_they_hold(r: UiResponse, kind: PluginModalKind, i: int)
    requires
        answers(r, kind),
    ensures
        kind is Input ==> r is Text && (r->Text_0 is None <==> trimmed(kind->Input_buffer@).len()
            == 0) && (r->Text_0 is Some ==> r->Text_0->0@ == trimmed(kind->Input_buffer@)),
        kind is TextEditor ==> r is Text && r->Text_0 is Some,
        kind is Confirm ==> r == UiResponse::Confirmed(true),
        kind is Pick ==> r == UiResponse::Choice(Some(kind->Pick_selected)),
        kind is MultiSelect && kind->MultiSelect_selected@.len() <= usize::MAX && 0 <= i
            < kind->MultiSelect_selected@.len() ==> r is Choices && r->Choices_0 is Some && (
        r->Choices_0->0@.contains(i as usize) <==> kind->MultiSelect_selected@[i]),
{
    if kind is MultiSelect && kind->MultiSelect_selected@.len() <= usize::MAX {
        law_choices_are_the_flags(kind->MultiSelect_selected@);
    }
}

/// A dialog that is left never confirms and never chooses.
pub proof fn law_leaving_a_dialog_declines(modal: Option<ActivePluginModal>)
    ensures
        modal is Some && modal->0.kind is Confirm ==> declined(modal) == UiResponse::Confirmed(false),
        modal is Some && modal->0.kind is MultiSelect ==> declined(modal) == UiResponse::Choices(
            None,
        ),
        modal is None || !(modal->0.kind is Confirm || modal->0.kind is MultiSelect) ==> declined(
            modal,
        ) == UiResponse::Text(None),
{
}

/// Replacing the text of a dialog changes what it holds to this text and keeps its request.
pub proof fn law_text_is_replaced(
    after: Option<ActivePluginModal>,
    before: Option<ActivePluginModal>,
    text: Seq<char>,
)
    requires
        with_text(after, before, text),
    ensures
        modal_text(before) is Some,
        modal_text(after) == Some(text),
        after->0.request == before->0.request,
{
}

/// Moving in a dialog keeps what is chosen and stays on its items.
pub proof fn law_the_cursor_stays_on_the_items(
    after: Option<ActivePluginModal>,
    before: ActivePluginModal,
    delta: int,
)
    requires
        moved_cursor(after, Some(before), delta),
    ensures
        before.request is Pick && before.kind is Pick && before.kind->Pick_selected
            < before.request->Pick_items@.len() ==> after is Some && after->0.kind is Pick
            && after->0.kind->Pick_selected < before.request->Pick_items@.len(),
        before.request is Pick && before.kind is Pick && 0 <= before.kind->Pick_selected + delta
            < before.request->Pick_items@.len() ==> after is Some && after->0.kind is Pick
            && after->0.kind->Pick_selected == before.kind->Pick_selected + delta,
        before.request is MultiSelect && before.kind is MultiSelect ==> after is Some
            && after->0.kind is MultiSelect && after->0.kind->MultiSelect_selected
            == before.kind->MultiSelect_selected,
        before.request is MultiSelect && before.kind is MultiSelect && 0
            <= before.kind->MultiSelect_cursor + delta < before.request->MultiSelect_items@.len()
            ==> after->0.kind->MultiSelect_cursor == before.kind->MultiSelect_cursor + delta,
{
}

/// Closing a dialog or a panel shows the goal list where it was shown itself, and keeps the
/// rest.
pub proof fn law_closing_shows_the_goal_list(after: App, before: App)
    ensures
        after.closed_modal(before) ==> after.plugin_modal is None && after.plugin_panel
            == before.plugin_panel && after.goals == before.goals && after.mode == (
        if before.mode is PluginModal {
            Mode::Normal
        } else {
            before.mode
        }),
        after.closed_panel(before) ==> after.plugin_panel is None && after.plugin_modal
            == before.plugin_modal && after.goals == before.goals && after.mode == (
        if before.mode is PluginPanel {
            Mode::Normal
        } else {
            before.mode
        }),
{
}

/// A notification ends with its message, and a mark tells how serious it is.
pub proof fn law_notifications_end_with_the_message(message: Seq<char>)
    ensures
        notification(UiLevel::Info, message) == message,
        notification(UiLevel::Warn, message) == seq!['⚠', ' '] + message,
        notification(UiLevel::Error, message) == seq!['✖', ' '] + message,
{
    reveal_strlit("⚠ ");
    reveal_strlit("✖ ");
    assert("⚠ "@ =~= seq!['⚠', ' ']);
    assert("✖ "@ =~= seq!['✖', ' ']);
}

} // verus!
