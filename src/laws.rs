use vstd::prelude::*;

use crate::engine::{
    delete_count, guard_blocks, line_steps_from, match_plan, payload, raw_payload, restore_steps,
    rewind, save_steps, Step,
};
use crate::text::{first_hint, lemma_hint_search_first};
use crate::model::{Backend, Config, RenderResult};
use crate::Platform;

verus! {

/// What a step does to the number of characters before the cursor.
pub open spec fn step_keys(s: Step) -> int {
    match s {
        Step::Delete(n) => -n,
        Step::Type(t) => t.len() as int,
        Step::Enter => 1,
        _ => 0,
    }
}

/// What a list of steps does to the number of characters before the cursor.
pub open spec fn keystrokes(ss: Seq<Step>) -> int
    decreases ss.len(),
{
    if ss.len() == 0 {
        0
    } else {
        keystrokes(ss.drop_last()) + step_keys(ss.last())
    }
}

/// The number of paste shortcuts among the steps.
pub open spec fn pastes(ss: Seq<Step>) -> int
    decreases ss.len(),
{
    if ss.len() == 0 {
        0
    } else {
        pastes(ss.drop_last()) + if ss.last() is Paste { 1int } else { 0int }
    }
}

proof fn lemma_count_concat(a: Seq<Step>, b: Seq<Step>)
    ensures
        keystrokes(a + b) == keystrokes(a) + keystrokes(b),
        pastes(a + b) == pastes(a) + pastes(b),
    decreases b.len(),
{
    if b.len() == 0 {
        assert(a + b =~= a);
    } else {
        assert((a + b).drop_last() =~= a + b.drop_last());
        lemma_count_concat(a, b.drop_last());
    }
}

proof fn lemma_count_line_steps(t: Seq<char>, i: int, cur: Seq<char>)
    requires
        0 <= i <= t.len(),
    ensures
        keystrokes(line_steps_from(t, i, cur)) == cur.len() + t.len() - i,
        pastes(line_steps_from(t, i, cur)) == 0,
    decreases t.len() - i,
{
    if i == t.len() {
        lemma_count_one(Step::Type(cur));
    } else if t[i] == '\n' {
        lemma_count_line_steps(t, i + 1, seq![]);
        let head = seq![Step::Type(cur), Step::Enter];
        lemma_count_two(Step::Type(cur), Step::Enter);
        lemma_count_concat(head, line_steps_from(t, i + 1, seq![]));
    } else {
        lemma_count_line_steps(t, i + 1, cur.push(t[i]));
    }
}

proof fn lemma_count_one(s: Step)
    ensures
        keystrokes(seq![s]) == step_keys(s),
        pastes(seq![s]) == if s is Paste { 1int } else { 0int },
{
    let e = Seq::<Step>::empty();
    assert(seq![s].drop_last() =~= e);
    assert(keystrokes(e) == 0);
    assert(pastes(e) == 0);
    assert(seq![s].last() == s);
}

proof fn lemma_count_two(s: Step, t: Step)
    ensures
        keystrokes(seq![s, t]) == step_keys(s) + step_keys(t),
        pastes(seq![s, t]) == (if s is Paste { 1int } else { 0int }) + (if t is Paste { 1int } else { 0int }),
{
    assert(seq![s, t] =~= seq![s] + seq![t]);
    lemma_count_concat(seq![s], seq![t]);
    lemma_count_one(s);
    lemma_count_one(t);
}

/// Keystroke balance: an expansion that renders to a text first deletes the
/// trigger and its separator; with the Inject backend it then types exactly
/// the payload, with the Clipboard backend it types nothing and pastes once.
/// An image is pasted once as well.
pub proof fn lemma_keystroke_balance(
    trigger_len: nat,
    sep: Option<char>,
    rendered: RenderResult,
    preserve: bool,
    active: Config,
    platform: Platform,
)
    ensures
        ({
            let plan = match_plan(trigger_len, sep, rendered, preserve, active, platform);
            let del = delete_count(trigger_len, sep) as int;
            match rendered {
                RenderResult::Text(s) => {
                    &&& active.backend == Backend::Inject ==> keystrokes(plan) == payload(s@, sep).len() - del
                        && pastes(plan) == 0
                    &&& active.backend == Backend::Clipboard ==> keystrokes(plan) == -del && pastes(plan) == 1
                },
                RenderResult::Image(_) => keystrokes(plan) == -del && pastes(plan) == 1,
                RenderResult::Error => plan.len() == 0,
            }
        }),
{
    let del = seq![Step::Delete(delete_count(trigger_len, sep))];
    lemma_count_one(Step::Delete(delete_count(trigger_len, sep)));
    let paste = Step::Paste(active.paste_shortcut@);
    match rendered {
        RenderResult::Text(s) => {
            let t = payload(s@, sep);
            let back = rewind(s@, sep);
            let left: Seq<Step> = if back > 0 { seq![Step::Left(back)] } else { seq![] };
            assert(keystrokes(left) == 0 && pastes(left) == 0) by {
                if back > 0 {
                    lemma_count_one(Step::Left(back));
                }
            }
            let restore = restore_steps(preserve, active, false);
            assert(keystrokes(restore) == 0 && pastes(restore) == 0) by {
                lemma_count_one(Step::RestoreClipboard(active.restore_clipboard_delay as nat));
            }
            let save = save_steps(preserve, active, false);
            assert(keystrokes(save) == 0 && pastes(save) == 0) by {
                lemma_count_one(Step::SaveClipboard);
            }
            let delivery = crate::engine::delivery_steps(t, preserve, active, platform);
            if active.backend == Backend::Inject {
                if platform == Platform::Linux {
                    lemma_count_one(Step::Type(t));
                } else {
                    lemma_count_line_steps(t, 0, seq![]);
                }
            } else {
                lemma_count_two(Step::SetClipboard(t), paste);
                lemma_count_concat(save, seq![Step::SetClipboard(t), paste]);
            }
            lemma_count_concat(del, delivery);
            lemma_count_concat(del + delivery, left);
            lemma_count_concat(del + delivery + left, restore);
        },
        RenderResult::Image(p) => {
            let save = save_steps(preserve, active, true);
            assert(keystrokes(save) == 0 && pastes(save) == 0) by {
                lemma_count_one(Step::SaveClipboard);
            }
            let restore = restore_steps(preserve, active, true);
            assert(keystrokes(restore) == 0 && pastes(restore) == 0) by {
                lemma_count_one(Step::RestoreClipboard(active.restore_clipboard_delay as nat));
            }
            let body = seq![Step::SetClipboardImage(p@), paste];
            lemma_count_two(Step::SetClipboardImage(p@), paste);
            lemma_count_concat(del, save);
            lemma_count_concat(del + save, body);
            lemma_count_concat(del + save + body, restore);
        },
        RenderResult::Error => {},
    }
}

} // verus!

verus! {

/// What a step does to the clipboard's text (`None` where it holds no text)
/// and to the text kept aside.
pub open spec fn clip_step(s: Step, clip: Option<Seq<char>>, saved: Option<Seq<char>>) -> (Option<Seq<char>>, Option<Seq<char>>) {
    match s {
        Step::SaveClipboard => (clip, clip),
        Step::SetClipboard(t) => (Some(t), saved),
        Step::SetClipboardImage(_) => (None, saved),
        Step::RestoreClipboard(_) => (if saved is Some { saved } else { clip }, saved),
        _ => (clip, saved),
    }
}

/// The clipboard's text and the text kept aside after the steps.
pub open spec fn clip_run(ss: Seq<Step>, clip: Option<Seq<char>>, saved: Option<Seq<char>>) -> (Option<Seq<char>>, Option<Seq<char>>)
    decreases ss.len(),
{
    if ss.len() == 0 {
        (clip, saved)
    } else {
        let prev = clip_run(ss.drop_last(), clip, saved);
        clip_step(ss.last(), prev.0, prev.1)
    }
}

proof fn lemma_clip_concat(a: Seq<Step>, b: Seq<Step>, clip: Option<Seq<char>>, saved: Option<Seq<char>>)
    ensures
        clip_run(a + b, clip, saved) == clip_run(b, clip_run(a, clip, saved).0, clip_run(a, clip, saved).1),
    decreases b.len(),
{
    if b.len() == 0 {
        assert(a + b =~= a);
    } else {
        assert((a + b).drop_last() =~= a + b.drop_last());
        lemma_clip_concat(a, b.drop_last(), clip, saved);
    }
}

proof fn lemma_clip_one(s: Step, clip: Option<Seq<char>>, saved: Option<Seq<char>>)
    ensures
        clip_run(seq![s], clip, saved) == clip_step(s, clip, saved),
{
    let e = Seq::<Step>::empty();
    assert(seq![s].drop_last() =~= e);
    assert(clip_run(e, clip, saved) == (clip, saved));
    assert(seq![s].last() == s);
}

proof fn lemma_clip_two(s: Step, t: Step, clip: Option<Seq<char>>, saved: Option<Seq<char>>)
    ensures
        clip_run(seq![s, t], clip, saved) == clip_step(t, clip_step(s, clip, saved).0, clip_step(s, clip, saved).1),
{
    assert(seq![s, t] =~= seq![s] + seq![t]);
    lemma_clip_concat(seq![s], seq![t], clip, saved);
    lemma_clip_one(s, clip, saved);
    lemma_clip_one(t, clip_step(s, clip, saved).0, clip_step(s, clip, saved).1);
}

/// Clipboard preservation: where clipboard expansions preserve the clipboard
/// (`preserve`, which the engine takes from the default configuration),
/// an expansion through the clipboard (a text with the Clipboard backend, or
/// an image) leaves on it the text that it held before. A clipboard that
/// held no text cannot be saved, so this is stated of one that held text.
pub proof fn lemma_clipboard_restored(
    trigger_len: nat,
    sep: Option<char>,
    rendered: RenderResult,
    preserve: bool,
    active: Config,
    platform: Platform,
    before: Seq<char>,
)
    requires
        preserve,
        rendered is Image || (rendered is Text && active.backend == Backend::Clipboard),
    ensures
        clip_run(match_plan(trigger_len, sep, rendered, preserve, active, platform), Some(before), None).0 == Some(before),
{
    let del = seq![Step::Delete(delete_count(trigger_len, sep))];
    let paste = Step::Paste(active.paste_shortcut@);
    let restore = seq![Step::RestoreClipboard(active.restore_clipboard_delay as nat)];
    lemma_clip_one(Step::Delete(delete_count(trigger_len, sep)), Some(before), None);
    lemma_clip_one(Step::SaveClipboard, Some(before), None);
    match rendered {
        RenderResult::Text(s) => {
            let t = payload(s@, sep);
            let back = rewind(s@, sep);
            let left: Seq<Step> = if back > 0 { seq![Step::Left(back)] } else { seq![] };
            let delivery = seq![Step::SaveClipboard] + seq![Step::SetClipboard(t), paste];
            lemma_clip_two(Step::SetClipboard(t), paste, Some(before), Some(before));
            lemma_clip_concat(seq![Step::SaveClipboard], seq![Step::SetClipboard(t), paste], Some(before), None);
            lemma_clip_concat(del, delivery, Some(before), None);
            let mid = clip_run(del + delivery, Some(before), None);
            assert(mid == (Some(t), Some(before)));
            if back > 0 {
                lemma_clip_one(Step::Left(back), Some(t), Some(before));
            }
            assert(clip_run(left, Some(t), Some(before)).1 == Some(before));
            lemma_clip_concat(del + delivery, left, Some(before), None);
            let mid2 = clip_run(del + delivery + left, Some(before), None);
            lemma_clip_one(Step::RestoreClipboard(active.restore_clipboard_delay as nat), mid2.0, mid2.1);
            lemma_clip_concat(del + delivery + left, restore, Some(before), None);
        },
        RenderResult::Image(p) => {
            let save = seq![Step::SaveClipboard];
            let body = seq![Step::SetClipboardImage(p@), paste];
            lemma_clip_concat(del, save, Some(before), None);
            lemma_clip_two(Step::SetClipboardImage(p@), paste, Some(before), Some(before));
            lemma_clip_concat(del + save, body, Some(before), None);
            lemma_clip_one(Step::RestoreClipboard(active.restore_clipboard_delay as nat), None, Some(before));
            lemma_clip_concat(del + save + body, restore, Some(before), None);
        },
        RenderResult::Error => {},
    }
}

/// The time of the last honored action after actions at `times`, the
/// last honored one before them being at `last`.
pub open spec fn guard_last(last: u64, interval: u64, times: Seq<u64>) -> u64
    decreases times.len(),
{
    if times.len() == 0 {
        last
    } else {
        let l = guard_last(last, interval, times.drop_last());
        if guard_blocks(l, interval, times.last()) {
            l
        } else {
            times.last()
        }
    }
}

/// Whether the guard honors the action at `times[k]`.
pub open spec fn guard_honors(last: u64, interval: u64, times: Seq<u64>, k: int) -> bool {
    !guard_blocks(guard_last(last, interval, times.subrange(0, k)), interval, times[k])
}

proof fn lemma_guard_last_stays(last: u64, interval: u64, times: Seq<u64>, j: int, m: int)
    requires
        0 <= j < m <= times.len(),
        guard_honors(last, interval, times, j),
        forall|i: int| j < i < m ==> !#[trigger] guard_honors(last, interval, times, i),
    ensures
        guard_last(last, interval, times.subrange(0, m)) == times[j],
    decreases m - j,
{
    let pre = times.subrange(0, m);
    assert(pre.drop_last() =~= times.subrange(0, m - 1));
    assert(pre.last() == times[m - 1]);
    if m - 1 > j {
        lemma_guard_last_stays(last, interval, times, j, m - 1);
        assert(!guard_honors(last, interval, times, m - 1));
    }
}

/// Self-echo guard: with a clock that never goes back, two consecutive
/// actions that the guard honors are at least `interval` milliseconds apart.
pub proof fn lemma_honored_actions_spaced(last: u64, interval: u64, times: Seq<u64>, j: int, k: int)
    requires
        0 <= j < k < times.len(),
        forall|a: int, b: int| 0 <= a <= b < times.len() ==> times[a] <= times[b],
        guard_honors(last, interval, times, j),
        guard_honors(last, interval, times, k),
        forall|i: int| j < i < k ==> !#[trigger] guard_honors(last, interval, times, i),
    ensures
        times[k] - times[j] >= interval,
{
    lemma_guard_last_stays(last, interval, times, j, k);
}

} // verus!

verus! {

/// Cursor rewind: the cursor moves back over exactly the characters that
/// follow the hint's place in the injected text, and those are the
/// characters that followed the hint before it was taken out.
pub proof fn lemma_rewind_counts_after_hint(s: Seq<char>, sep: Option<char>)
    ensures
        ({
            let raw = raw_payload(s, sep);
            let text = payload(s, sep);
            match first_hint(raw) {
                Some(i) => rewind(s, sep) == text.len() - i && text.subrange(i, text.len() as int) == raw.subrange(
                    i + 3,
                    raw.len() as int,
                ),
                None => rewind(s, sep) == 0 && text == raw,
            }
        }),
{
    let raw = raw_payload(s, sep);
    lemma_hint_search_first(raw, 0);
    if let Some(i) = first_hint(raw) {
        let text = payload(s, sep);
        assert(text.subrange(i, text.len() as int) =~= raw.subrange(i + 3, raw.len() as int));
    }
}

} // verus!
