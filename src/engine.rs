use vstd::prelude::*;

use crate::model::{Backend, Config, Match, RenderResult};
use crate::text::{
    chars_of, extract_cursor_hint, first_hint, normalize, normalize_newlines, string_of,
    without_hint,
};
use crate::Platform;

verus! {

/// The kind of an entry of the tray menu.
#[derive(Clone, Copy, PartialEq, Eq, Structural, Debug)]
pub enum MenuItemType {
    Button,
    Separator,
}

/// An entry of the tray menu.
#[derive(Debug, PartialEq, Eq)]
pub struct MenuItem {
    pub item_type: MenuItemType,
    pub item_name: String,
    pub item_id: i32,
}

/// The events of the tray.
#[derive(Clone, Copy, PartialEq, Eq, Structural, Debug)]
pub enum ActionType {
    Noop,
    Toggle,
    Exit,
    IconClick,
}

/// The stable identifier of an action kind in the tray menu.
pub open spec fn spec_action_id(a: ActionType) -> i32 {
    match a {
        ActionType::Noop => 0,
        ActionType::Toggle => 1,
        ActionType::Exit => 2,
        ActionType::IconClick => 3,
    }
}

impl ActionType {
    /// The action kind's identifier in the tray menu.
    pub fn id(&self) -> (r: i32)
        ensures
            r == spec_action_id(*self),
    {
        match self {
            ActionType::Noop => 0,
            ActionType::Toggle => 1,
            ActionType::Exit => 2,
            ActionType::IconClick => 3,
        }
    }

    /// The action kind with identifier `id`, if any.
    pub fn from_id(id: i32) -> (r: Option<ActionType>)
        ensures
            r matches Some(a) ==> spec_action_id(a) == id,
            r is None ==> forall|a: ActionType| spec_action_id(a) != id,
    {
        if id == 0 {
            Some(ActionType::Noop)
        } else if id == 1 {
            Some(ActionType::Toggle)
        } else if id == 2 {
            Some(ActionType::Exit)
        } else if id == 3 {
            Some(ActionType::IconClick)
        } else {
            None
        }
    }
}

/// A side effect that the engine asks of the platform, in the abstract.
pub enum Step {
    Delete(nat),
    Type(Seq<char>),
    Enter,
    Left(nat),
    SaveClipboard,
    SetClipboard(Seq<char>),
    SetClipboardImage(Seq<char>),
    Paste(Seq<char>),
    Copy,
    Sleep(nat),
    RestoreClipboard(nat),
    Notify(Seq<char>),
    ShowMenu(Seq<(MenuItemType, Seq<char>, i32)>),
    Cleanup,
    Exit,
}

/// A side effect that the engine asks of the platform; they are carried out
/// in order.
#[derive(Debug, PartialEq, Eq)]
pub enum Action {
    /// Delete this many characters before the cursor.
    DeleteChars(usize),
    /// Type the text.
    SendString(String),
    /// Press Enter.
    SendEnter,
    /// Move the cursor this many characters to the left.
    MoveCursorLeft(usize),
    /// Read the clipboard's text and keep it.
    SaveClipboard,
    SetClipboard(String),
    /// Put the image at this path on the clipboard.
    SetClipboardImage(String),
    /// Press the paste shortcut.
    TriggerPaste(String),
    /// Press the copy shortcut.
    TriggerCopy,
    /// Wait this many milliseconds.
    Sleep(u64),
    /// Where a text was kept, wait this many milliseconds, then write it back
    /// to the clipboard.
    RestoreClipboard(u64),
    Notify(String),
    ShowMenu(Vec<MenuItem>),
    /// Release the user interface.
    Cleanup,
    /// End the process.
    Exit,
}

/// The abstract entries of a menu.
pub open spec fn menu_view(items: Seq<MenuItem>) -> Seq<(MenuItemType, Seq<char>, i32)> {
    items.map_values(|m: MenuItem| (m.item_type, m.item_name@, m.item_id))
}

impl View for Action {
    type V = Step;

    open spec fn view(&self) -> Step {
        match self {
            Action::DeleteChars(n) => Step::Delete(*n as nat),
            Action::SendString(s) => Step::Type(s@),
            Action::SendEnter => Step::Enter,
            Action::MoveCursorLeft(n) => Step::Left(*n as nat),
            Action::SaveClipboard => Step::SaveClipboard,
            Action::SetClipboard(s) => Step::SetClipboard(s@),
            Action::SetClipboardImage(p) => Step::SetClipboardImage(p@),
            Action::TriggerPaste(k) => Step::Paste(k@),
            Action::TriggerCopy => Step::Copy,
            Action::Sleep(ms) => Step::Sleep(*ms as nat),
            Action::RestoreClipboard(ms) => Step::RestoreClipboard(*ms as nat),
            Action::Notify(m) => Step::Notify(m@),
            Action::ShowMenu(items) => Step::ShowMenu(menu_view(items@)),
            Action::Cleanup => Step::Cleanup,
            Action::Exit => Step::Exit,
        }
    }
}

/// The abstract steps of a list of actions.
pub open spec fn steps(actions: Seq<Action>) -> Seq<Step> {
    actions.map_values(|a: Action| a@)
}

} // verus!

verus! {

/// The text typed back for a trailing separator: a carriage return comes
/// back as a newline.
pub open spec fn sep_text(sep: Option<char>) -> Seq<char> {
    match sep {
        None => seq![],
        Some(c) => if c == '\r' {
            seq!['\n']
        } else {
            seq![c]
        },
    }
}

/// The rendered text with the separator typed back and newlines normalized,
/// before its cursor hint is taken out.
pub open spec fn raw_payload(s: Seq<char>, sep: Option<char>) -> Seq<char> {
    normalize_newlines(s + sep_text(sep))
}

/// The text that is injected for the rendered text `s`.
pub open spec fn payload(s: Seq<char>, sep: Option<char>) -> Seq<char> {
    let n = raw_payload(s, sep);
    match first_hint(n) {
        Some(i) => without_hint(n, i),
        None => n,
    }
}

/// How far the cursor moves back after the text for `s` is injected.
pub open spec fn rewind(s: Seq<char>, sep: Option<char>) -> nat {
    let n = raw_payload(s, sep);
    match first_hint(n) {
        Some(i) => (n.len() - i - 3) as nat,
        None => 0,
    }
}

/// The number of characters a match deletes: its trigger and its separator.
pub open spec fn delete_count(trigger_len: nat, sep: Option<char>) -> nat {
    trigger_len + if sep is Some { 1nat } else { 0nat }
}

/// The steps that type `t[i..]` one line at a time, pressing Enter for each
/// newline; `cur` is the part of the current line already read.
pub open spec fn line_steps_from(t: Seq<char>, i: int, cur: Seq<char>) -> Seq<Step>
    decreases t.len() - i,
{
    if i < 0 || i >= t.len() {
        seq![Step::Type(cur)]
    } else if t[i] == '\n' {
        seq![Step::Type(cur), Step::Enter] + line_steps_from(t, i + 1, seq![])
    } else {
        line_steps_from(t, i + 1, cur.push(t[i]))
    }
}

/// The steps that type `t`, one line at a time.
pub open spec fn line_steps(t: Seq<char>) -> Seq<Step> {
    line_steps_from(t, 0, seq![])
}

/// Whether an expansion with this configuration goes through the clipboard
/// and keeps the user's clipboard.
pub open spec fn saves_clipboard(preserve: bool, active: Config, image: bool) -> bool {
    preserve && (image || active.backend == Backend::Clipboard)
}

/// The step that saves the clipboard, where one is due.
pub open spec fn save_steps(preserve: bool, active: Config, image: bool) -> Seq<Step> {
    if saves_clipboard(preserve, active, image) {
        seq![Step::SaveClipboard]
    } else {
        seq![]
    }
}

/// The step that restores the clipboard, where one is due.
pub open spec fn restore_steps(preserve: bool, active: Config, image: bool) -> Seq<Step> {
    if saves_clipboard(preserve, active, image) {
        seq![Step::RestoreClipboard(active.restore_clipboard_delay as nat)]
    } else {
        seq![]
    }
}

/// The steps that deliver the text `t`.
pub open spec fn delivery_steps(t: Seq<char>, preserve: bool, active: Config, platform: Platform) -> Seq<Step> {
    if active.backend == Backend::Inject {
        if platform == Platform::Linux {
            seq![Step::Type(t)]
        } else {
            line_steps(t)
        }
    } else {
        save_steps(preserve, active, false) + seq![Step::SetClipboard(t), Step::Paste(active.paste_shortcut@)]
    }
}

/// The steps of an expansion of a match whose trigger has `trigger_len`
/// characters, typed with the separator `sep`, once it rendered to `rendered`.
pub open spec fn match_plan(
    trigger_len: nat,
    sep: Option<char>,
    rendered: RenderResult,
    preserve: bool,
    active: Config,
    platform: Platform,
) -> Seq<Step> {
    let del = seq![Step::Delete(delete_count(trigger_len, sep))];
    match rendered {
        RenderResult::Text(s) => {
            let back = rewind(s@, sep);
            del + delivery_steps(payload(s@, sep), preserve, active, platform) + (if back > 0 {
                seq![Step::Left(back)]
            } else {
                seq![]
            }) + restore_steps(preserve, active, false)
        },
        RenderResult::Image(p) => del + save_steps(preserve, active, true) + seq![
            Step::SetClipboardImage(p@),
            Step::Paste(active.paste_shortcut@),
        ] + restore_steps(preserve, active, true),
        RenderResult::Error => seq![],
    }
}

/// Whether an action at `now` comes too soon after the last honored one, at
/// `last`. A clock that went back blocks nothing.
pub open spec fn guard_blocks(last: u64, interval: u64, now: u64) -> bool {
    last <= now && now - last < interval
}

/// The expansion engine: what it decides between the events it is handed.
pub struct Engine {
    pub enabled: bool,
    /// When the last honored action came, in milliseconds.
    pub last_action_time: u64,
    pub action_noop_interval: u64,
    /// Whether clipboard expansions save and restore the user's clipboard,
    /// as the default configuration says.
    pub preserve_clipboard: bool,
    pub platform: Platform,
}

impl Engine {
    /// An enabled engine, with `now` as the time of its last action.
    pub fn new(default_config: &Config, platform: Platform, now: u64) -> (r: Engine)
        ensures
            r.enabled,
            r.last_action_time == now,
            r.action_noop_interval == default_config.action_noop_interval,
            r.preserve_clipboard == default_config.preserve_clipboard,
            r.platform == platform,
    {
        Engine {
            enabled: true,
            last_action_time: now,
            action_noop_interval: default_config.action_noop_interval,
            preserve_clipboard: default_config.preserve_clipboard,
            platform,
        }
    }

    /// Whether an action at `now` is blocked, for coming less than
    /// `interval` milliseconds after the last honored one; where it is not,
    /// it becomes the last honored one.
    pub fn check_last_action_and_set(&mut self, interval: u64, now: u64) -> (blocked: bool)
        ensures
            blocked == guard_blocks(old(self).last_action_time, interval, now),
            final(self).last_action_time == (if blocked {
                old(self).last_action_time
            } else {
                now
            }),
            final(self).enabled == old(self).enabled,
            final(self).action_noop_interval == old(self).action_noop_interval,
            final(self).preserve_clipboard == old(self).preserve_clipboard,
            final(self).platform == old(self).platform,
    {
        if self.last_action_time <= now && now - self.last_action_time < interval {
            return true;
        }
        self.last_action_time = now;
        false
    }

    /// Whether a match found at `now` is to be expanded: the active
    /// configuration allows matches and the self-echo guard lets it pass.
    pub fn on_match(&mut self, active: &Config, now: u64) -> (proceed: bool)
        ensures
            proceed == (active.enable_active && !guard_blocks(
                old(self).last_action_time,
                old(self).action_noop_interval,
                now,
            )),
            final(self).last_action_time == (if proceed {
                now
            } else {
                old(self).last_action_time
            }),
            final(self).enabled == old(self).enabled,
            final(self).action_noop_interval == old(self).action_noop_interval,
            final(self).preserve_clipboard == old(self).preserve_clipboard,
            final(self).platform == old(self).platform,
    {
        if !active.enable_active {
            return false;
        }
        let interval = self.action_noop_interval;
        !self.check_last_action_and_set(interval, now)
    }
}

} // verus!

verus! {

proof fn lemma_steps_push(v: Seq<Action>, a: Action)
    ensures
        steps(v.push(a)) == steps(v).push(a@),
{
    assert(steps(v.push(a)) =~= steps(v).push(a@));
}

/// Appends the actions that type `t` one line at a time.
fn push_lines(t: &Vec<char>, out: &mut Vec<Action>)
    ensures
        steps(final(out)@) == steps(old(out)@) + line_steps(t@),
{
    let n = t.len();
    let mut cur: Vec<char> = Vec::new();
    let mut i: usize = 0;
    assert(steps(out@) + line_steps_from(t@, 0, cur@) =~= steps(old(out)@) + line_steps(t@));
    while i < n
        invariant
            n == t@.len(),
            i <= n,
            steps(out@) + line_steps_from(t@, i as int, cur@) == steps(old(out)@) + line_steps(t@),
        decreases n - i,
    {
        if t[i] == '\n' {
            let line = string_of(&cur);
            proof {
                lemma_steps_push(out@, Action::SendString(line));
            }
            out.push(Action::SendString(line));
            proof {
                lemma_steps_push(out@, Action::SendEnter);
            }
            out.push(Action::SendEnter);
            cur = Vec::new();
            assert(steps(out@) + line_steps_from(t@, i + 1, cur@) =~= steps(old(out)@) + line_steps(t@));
        } else {
            cur.push(t[i]);
        }
        i = i + 1;
    }
    let line = string_of(&cur);
    proof {
        lemma_steps_push(out@, Action::SendString(line));
    }
    out.push(Action::SendString(line));
    assert(steps(out@) =~= steps(old(out)@) + line_steps(t@));
}

/// The text to inject for the rendered text `s` and the separator `sep`,
/// and how far the cursor moves back afterwards.
pub fn prepare_payload(s: &String, sep: Option<char>) -> (r: (Vec<char>, usize))
    ensures
        r.0@ == payload(s@, sep),
        r.1 == rewind(s@, sep),
{
    let mut cs = chars_of(s.as_str());
    match sep {
        Some(c) => {
            if c == '\r' {
                cs.push('\n');
            } else {
                cs.push(c);
            }
        },
        None => {},
    }
    assert(cs@ =~= s@ + sep_text(sep));
    let n = normalize(&cs);
    match extract_cursor_hint(&n) {
        Some((t, back)) => (t, back),
        None => (n, 0),
    }
}

impl Engine {
    /// The actions of the expansion of `m`, found with the separator `sep`,
    /// once it rendered to `rendered`. A failed rendering deletes nothing.
    pub fn match_actions(&self, m: &Match, sep: Option<char>, rendered: &RenderResult, active: &Config) -> (r: Vec<Action>)
        requires
            m.trigger@.len() < usize::MAX,
        ensures
            steps(r@) == match_plan(m.trigger@.len(), sep, *rendered, self.preserve_clipboard, *active, self.platform),
    {
        let mut out: Vec<Action> = Vec::new();
        let trigger = chars_of(m.trigger.as_str());
        let del: usize = if sep.is_some() {
            trigger.len() + 1
        } else {
            trigger.len()
        };
        let ghost image = rendered is Image;
        let preserve = self.preserve_clipboard;
        match rendered {
            RenderResult::Error => {
                assert(steps(out@) =~= Seq::<Step>::empty());
                return out;
            },
            RenderResult::Text(s) => {
                out.push(Action::DeleteChars(del));
                let (text, back) = prepare_payload(s, sep);
                let mut saved = false;
                match active.backend {
                    Backend::Inject => {
                        if self.platform == Platform::Linux {
                            out.push(Action::SendString(string_of(&text)));
                        } else {
                            push_lines(&text, &mut out);
                        }
                    },
                    Backend::Clipboard => {
                        if preserve {
                            out.push(Action::SaveClipboard);
                            saved = true;
                        }
                        out.push(Action::SetClipboard(string_of(&text)));
                        out.push(Action::TriggerPaste(active.paste_shortcut.clone()));
                    },
                }
                assert(steps(out@) =~= seq![Step::Delete(delete_count(m.trigger@.len(), sep))]
                    + delivery_steps(payload(s@, sep), self.preserve_clipboard, *active, self.platform));
                if back > 0 {
                    out.push(Action::MoveCursorLeft(back));
                }
                assert(steps(out@) =~= seq![Step::Delete(delete_count(m.trigger@.len(), sep))]
                    + delivery_steps(payload(s@, sep), self.preserve_clipboard, *active, self.platform) + (if back > 0 {
                    seq![Step::Left(back as nat)]
                } else {
                    seq![]
                }));
                if saved {
                    out.push(Action::RestoreClipboard(active.restore_clipboard_delay));
                }
            },
            RenderResult::Image(p) => {
                out.push(Action::DeleteChars(del));
                if preserve {
                    out.push(Action::SaveClipboard);
                }
                out.push(Action::SetClipboardImage(p.clone()));
                out.push(Action::TriggerPaste(active.paste_shortcut.clone()));
                if preserve {
                    out.push(Action::RestoreClipboard(active.restore_clipboard_delay));
                }
            },
        }
        assert(steps(out@) =~= match_plan(m.trigger@.len(), sep, *rendered, self.preserve_clipboard, *active, self.platform));
        out
    }
}

} // verus!

verus! {

/// How long the passive mode waits for the copy, and for the paste, in milliseconds.
pub const PASSIVE_DELAY_MS: u64 = 100;

/// The notification for a change of the enabled state.
pub open spec fn enable_message(status: bool) -> Seq<char> {
    if status {
        "espanso enabled"@
    } else {
        "espanso disabled"@
    }
}

/// The entries of the tray menu while the engine's enabled state is `enabled`.
pub open spec fn menu_entries(enabled: bool) -> Seq<(MenuItemType, Seq<char>, i32)> {
    seq![
        (MenuItemType::Button, if enabled { "Disable"@ } else { "Enable"@ }, spec_action_id(ActionType::Toggle)),
        (MenuItemType::Separator, ""@, 999i32),
        (MenuItemType::Button, "Exit"@, spec_action_id(ActionType::Exit)),
    ]
}

impl Engine {
    /// The tray menu: a button that toggles the enabled state, a separator,
    /// and a button that ends the daemon.
    pub fn build_menu(&self) -> (r: Vec<MenuItem>)
        ensures
            menu_view(r@) == menu_entries(self.enabled),
    {
        let mut menu: Vec<MenuItem> = Vec::new();
        let toggle_text = if self.enabled {
            "Disable".to_owned()
        } else {
            "Enable".to_owned()
        };
        menu.push(MenuItem { item_type: MenuItemType::Button, item_name: toggle_text, item_id: ActionType::Toggle.id() });
        menu.push(MenuItem { item_type: MenuItemType::Separator, item_name: "".to_owned(), item_id: 999 });
        menu.push(MenuItem { item_type: MenuItemType::Button, item_name: "Exit".to_owned(), item_id: ActionType::Exit.id() });
        assert(menu_view(menu@) =~= menu_entries(self.enabled));
        menu
    }

    /// Sets the enabled state to `status` and notifies the user, unless the
    /// self-echo guard blocks the request at `now`.
    pub fn on_enable_update(&mut self, status: bool, now: u64) -> (r: Vec<Action>)
        ensures
            ({
                let blocked = guard_blocks(old(self).last_action_time, old(self).action_noop_interval, now);
                &&& blocked ==> *final(self) == *old(self) && steps(r@) == Seq::<Step>::empty()
                &&& !blocked ==> final(self).enabled == status && final(self).last_action_time == now
                    && steps(r@) == seq![Step::Notify(enable_message(status))]
            }),
            final(self).action_noop_interval == old(self).action_noop_interval,
            final(self).preserve_clipboard == old(self).preserve_clipboard,
            final(self).platform == old(self).platform,
    {
        let interval = self.action_noop_interval;
        let mut out: Vec<Action> = Vec::new();
        if self.check_last_action_and_set(interval, now) {
            assert(steps(out@) =~= Seq::<Step>::empty());
            return out;
        }
        let message = if status {
            "espanso enabled".to_owned()
        } else {
            "espanso disabled".to_owned()
        };
        self.enabled = status;
        out.push(Action::Notify(message));
        assert(steps(out@) =~= seq![Step::Notify(enable_message(status))]);
        out
    }

    /// The first actions of the passive mode at `now`: copy the selection and
    /// wait for it. Nothing where the guard blocks the request or the active
    /// configuration disables the passive mode.
    pub fn on_passive(&mut self, active: &Config, now: u64) -> (r: Vec<Action>)
        ensures
            ({
                let blocked = guard_blocks(old(self).last_action_time, old(self).action_noop_interval, now);
                &&& final(self).last_action_time == (if blocked { old(self).last_action_time } else { now })
                &&& steps(r@) == (if !blocked && active.enable_passive {
                    seq![Step::Copy, Step::Sleep(PASSIVE_DELAY_MS as nat)]
                } else {
                    Seq::<Step>::empty()
                })
            }),
            final(self).enabled == old(self).enabled,
            final(self).action_noop_interval == old(self).action_noop_interval,
            final(self).preserve_clipboard == old(self).preserve_clipboard,
            final(self).platform == old(self).platform,
    {
        let interval = self.action_noop_interval;
        let mut out: Vec<Action> = Vec::new();
        if self.check_last_action_and_set(interval, now) || !active.enable_passive {
            assert(steps(out@) =~= Seq::<Step>::empty());
            return out;
        }
        out.push(Action::TriggerCopy);
        out.push(Action::Sleep(PASSIVE_DELAY_MS));
        assert(steps(out@) =~= seq![Step::Copy, Step::Sleep(PASSIVE_DELAY_MS as nat)]);
        out
    }

    /// The last actions of the passive mode, once the copied text rendered
    /// to `rendered`: paste a rendered text back; nothing otherwise.
    pub fn passive_actions(&self, rendered: &RenderResult, active: &Config) -> (r: Vec<Action>)
        ensures
            steps(r@) == (match *rendered {
                RenderResult::Text(p) => seq![
                    Step::SetClipboard(p@),
                    Step::Sleep(PASSIVE_DELAY_MS as nat),
                    Step::Paste(active.paste_shortcut@),
                ],
                _ => Seq::<Step>::empty(),
            }),
    {
        let mut out: Vec<Action> = Vec::new();
        match rendered {
            RenderResult::Text(p) => {
                out.push(Action::SetClipboard(p.clone()));
                out.push(Action::Sleep(PASSIVE_DELAY_MS));
                out.push(Action::TriggerPaste(active.paste_shortcut.clone()));
            },
            _ => {},
        }
        assert(steps(out@) =~= (match *rendered {
            RenderResult::Text(p) => seq![
                Step::SetClipboard(p@),
                Step::Sleep(PASSIVE_DELAY_MS as nat),
                Step::Paste(active.paste_shortcut@),
            ],
            _ => Seq::<Step>::empty(),
        }));
        out
    }

    /// The actions for a tray event: a click on the icon shows the menu,
    /// `Exit` releases the interface and ends the process, `Toggle` flips the
    /// enabled state and notifies the user. Tray events come from the user,
    /// never from the daemon's own key presses, so no guard applies.
    pub fn on_action_event(&mut self, e: ActionType) -> (r: Vec<Action>)
        ensures
            e == ActionType::IconClick ==> *final(self) == *old(self) && steps(r@) == seq![
                Step::ShowMenu(menu_entries(old(self).enabled)),
            ],
            e == ActionType::Exit ==> *final(self) == *old(self) && steps(r@) == seq![Step::Cleanup, Step::Exit],
            e == ActionType::Noop ==> *final(self) == *old(self) && steps(r@) == Seq::<Step>::empty(),
            e == ActionType::Toggle ==> final(self).enabled == !old(self).enabled
                && final(self).last_action_time == old(self).last_action_time
                && steps(r@) == seq![Step::Notify(enable_message(!old(self).enabled))],
            final(self).action_noop_interval == old(self).action_noop_interval,
            final(self).preserve_clipboard == old(self).preserve_clipboard,
            final(self).platform == old(self).platform,
    {
        let mut out: Vec<Action> = Vec::new();
        match e {
            ActionType::IconClick => {
                let menu = self.build_menu();
                out.push(Action::ShowMenu(menu));
                assert(steps(out@) =~= seq![Step::ShowMenu(menu_entries(self.enabled))]);
            },
            ActionType::Exit => {
                out.push(Action::Cleanup);
                out.push(Action::Exit);
                assert(steps(out@) =~= seq![Step::Cleanup, Step::Exit]);
            },
            ActionType::Toggle => {
                let status = !self.enabled;
                let message = if status {
                    "espanso enabled".to_owned()
                } else {
                    "espanso disabled".to_owned()
                };
                self.enabled = status;
                out.push(Action::Notify(message));
                assert(steps(out@) =~= seq![Step::Notify(enable_message(status))]);
            },
            ActionType::Noop => {
                assert(steps(out@) =~= Seq::<Step>::empty());
            },
        }
        out
    }
}

} // verus!
