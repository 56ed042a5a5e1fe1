use vstd::prelude::*;

use crate::model::Match;
use crate::text::{chars_of, is_white_space, white_space};

verus! {

/// The control keys that the input tap reports.
#[derive(Clone, Copy, PartialEq, Eq, Structural, Debug)]
pub enum KeyModifier {
    Meta,
    Shift,
    Alt,
    Ctrl,
    Backspace,
    Enter,
    Esc,
    Tab,
    Left,
    Right,
    Up,
    Down,
}

/// An event of the input tap.
pub enum KeyEvent {
    /// The text of one printable key.
    Char(String),
    Modifier(KeyModifier),
}

/// Whether `c` ends a word: white space or ASCII punctuation.
pub open spec fn is_separator(c: char) -> bool {
    is_white_space(c) || ('!' <= c && c <= '/') || (':' <= c && c <= '@') || ('[' <= c && c <= '`')
        || ('{' <= c && c <= '~')
}

/// Whether `b` ends with `t`.
pub open spec fn ends_with(b: Seq<char>, t: Seq<char>) -> bool {
    t.len() <= b.len() && b.subrange(b.len() - t.len(), b.len() as int) == t
}

/// Whether the trigger `t` fires once the text typed is `b`: `b` ends with
/// it, or, for a word trigger, ends with it and one separator.
pub open spec fn fires(b: Seq<char>, t: Seq<char>, word: bool) -> bool {
    &&& t.len() > 0
    &&& if word {
        b.len() > 0 && is_separator(b.last()) && ends_with(b.drop_last(), t)
    } else {
        ends_with(b, t)
    }
}

/// Whether trigger `k` is the one chosen after the text `b`: it fires, and
/// every other that fires is shorter, or as long and declared later.
pub open spec fn chosen(b: Seq<char>, triggers: Seq<(Vec<char>, bool)>, k: int) -> bool {
    &&& 0 <= k < triggers.len()
    &&& fires(b, triggers[k].0@, triggers[k].1)
    &&& forall|j: int|
        0 <= j < triggers.len() && #[trigger] fires(b, triggers[j].0@, triggers[j].1) ==> triggers[j].0@.len()
            < triggers[k].0@.len() || (triggers[j].0@.len() == triggers[k].0@.len() && k <= j)
}

/// The recognizer of triggers in the stream of key events.
pub struct Matcher {
    /// Each trigger's characters and whether it needs a separator, in the
    /// order of declaration.
    pub triggers: Vec<(Vec<char>, bool)>,
    /// The characters typed since the last match or reset, at most `window` of them.
    pub buffer: Vec<char>,
    /// One more than the longest trigger.
    pub window: usize,
}

impl Matcher {
    /// Whether the window holds every trigger and its separator.
    pub open spec fn wf(&self) -> bool {
        &&& 1 <= self.window
        &&& self.buffer@.len() <= self.window
        &&& forall|k: int| 0 <= k < self.triggers@.len() ==> #[trigger] self.triggers@[k].0@.len() + 1 <= self.window
    }

    /// A matcher of the triggers of `matches`, with nothing typed yet.
    pub fn new(matches: &Vec<Match>) -> (r: Matcher)
        requires
            forall|k: int| 0 <= k < matches@.len() ==> #[trigger] matches@[k].trigger@.len() < usize::MAX,
        ensures
            r.wf(),
            r.buffer@.len() == 0,
            r.triggers@.len() == matches@.len(),
            forall|k: int| 0 <= k < matches@.len() ==> (#[trigger] r.triggers@[k]).0@ == matches@[k].trigger@,
            forall|k: int| 0 <= k < matches@.len() ==> (#[trigger] r.triggers@[k]).1 == matches@[k].word,
    {
        let mut triggers: Vec<(Vec<char>, bool)> = Vec::new();
        let mut window: usize = 1;
        let mut i: usize = 0;
        while i < matches.len()
            invariant
                i <= matches@.len(),
                forall|k: int| 0 <= k < matches@.len() ==> #[trigger] matches@[k].trigger@.len() < usize::MAX,
                triggers@.len() == i,
                window >= 1,
                forall|k: int| 0 <= k < i ==> (#[trigger] triggers@[k]).0@.len() + 1 <= window,
                forall|k: int| 0 <= k < i ==> (#[trigger] triggers@[k]).0@ == matches@[k].trigger@,
                forall|k: int| 0 <= k < i ==> (#[trigger] triggers@[k]).1 == matches@[k].word,
            decreases matches@.len() - i,
        {
            let t = chars_of(matches[i].trigger.as_str());
            if t.len() + 1 > window {
                window = t.len() + 1;
            }
            triggers.push((t, matches[i].word));
            i = i + 1;
        }
        Matcher { triggers, buffer: Vec::new(), window }
    }

    /// Whether trigger `k` fires once the text typed is `b`.
    fn trigger_fires(&self, b: &Vec<char>, k: usize) -> (r: bool)
        requires
            k < self.triggers@.len(),
        ensures
            r == fires(b@, self.triggers@[k as int].0@, self.triggers@[k as int].1),
    {
        let t = &self.triggers[k].0;
        let word = self.triggers[k].1;
        if t.len() == 0 {
            return false;
        }
        let n = b.len();
        let end: usize = if word {
            if n == 0 {
                return false;
            }
            let last = b[n - 1];
            let sep = white_space(last) || ('!' <= last && last <= '/') || (':' <= last && last <= '@')
                || ('[' <= last && last <= '`') || ('{' <= last && last <= '~');
            if !sep {
                return false;
            }
            n - 1
        } else {
            n
        };
        let ghost body = b@.subrange(0, end as int);
        assert(body =~= if word { b@.drop_last() } else { b@ });
        if t.len() > end {
            return false;
        }
        let start = end - t.len();
        let mut j: usize = 0;
        while j < t.len()
            invariant
                start + t@.len() == end,
                end <= b@.len(),
                body == b@.subrange(0, end as int),
                k < self.triggers@.len(),
                *t == self.triggers@[k as int].0,
                word == self.triggers@[k as int].1,
                t@.len() > 0,
                body == (if word { b@.drop_last() } else { b@ }),
                word ==> b@.len() > 0 && is_separator(b@.last()),
                j <= t@.len(),
                forall|m: int| 0 <= m < j ==> b@[start + m] == t@[m],
            decreases t@.len() - j,
        {
            if b[start + j] != t[j] {
                assert(body.subrange(start as int, end as int)[j as int] != t@[j as int]);
                return false;
            }
            j = j + 1;
        }
        assert(body.subrange(body.len() - t@.len(), body.len() as int) =~= t@);
        true
    }

    /// The trigger chosen once the text typed is `b`, if any fires.
    fn choose_trigger(&self, b: &Vec<char>) -> (r: Option<usize>)
        ensures
            r matches Some(k) ==> chosen(b@, self.triggers@, k as int),
            r is None ==> forall|j: int|
                0 <= j < self.triggers@.len() ==> !#[trigger] fires(b@, self.triggers@[j].0@, self.triggers@[j].1),
    {
        let mut best: Option<usize> = None;
        let mut k: usize = 0;
        while k < self.triggers.len()
            invariant
                k <= self.triggers@.len(),
                best matches Some(x) ==> x < k && fires(b@, self.triggers@[x as int].0@, self.triggers@[x as int].1),
                best matches Some(x) ==> forall|j: int|
                    0 <= j < k && #[trigger] fires(b@, self.triggers@[j].0@, self.triggers@[j].1) ==> self.triggers@[j].0@.len()
                        < self.triggers@[x as int].0@.len() || (self.triggers@[j].0@.len() == self.triggers@[x as int].0@.len()
                        && x <= j),
                best is None ==> forall|j: int|
                    0 <= j < k ==> !#[trigger] fires(b@, self.triggers@[j].0@, self.triggers@[j].1),
            decreases self.triggers@.len() - k,
        {
            if self.trigger_fires(b, k) {
                match best {
                    None => {
                        best = Some(k);
                    },
                    Some(x) => {
                        if self.triggers[k].0.len() > self.triggers[x].0.len() {
                            best = Some(k);
                        }
                    },
                }
            }
            k = k + 1;
        }
        best
    }

    /// Reads the typed character `c`: the trigger chosen once `c` is added
    /// to the text typed, and the separator that completed it (for a word
    /// trigger). After a match the text typed starts anew; otherwise `c`
    /// joins it, of which the last `window` characters are kept.
    pub fn on_char(&mut self, c: char) -> (r: Option<(usize, Option<char>)>)
        requires
            old(self).wf(),
        ensures
            final(self).wf(),
            final(self).triggers == old(self).triggers,
            final(self).window == old(self).window,
            ({
                let b = old(self).buffer@.push(c);
                let ts = old(self).triggers@;
                let w = old(self).window as int;
                &&& r matches Some((k, sep)) ==> chosen(b, ts, k as int)
                    && sep == (if ts[k as int].1 { Some(c) } else { None })
                    && final(self).buffer@.len() == 0
                &&& r is None ==> (forall|j: int| 0 <= j < ts.len() ==> !#[trigger] fires(b, ts[j].0@, ts[j].1))
                    && final(self).buffer@ == last_chars(b, w)
                &&& r is None <==> emitted(old(self).buffer@, c, ts) is None
                &&& r matches Some((k, sep)) ==> emitted(old(self).buffer@, c, ts) == Some((k as int, sep))
            }),
    {
        self.buffer.push(c);
        let found = self.choose_trigger(&self.buffer);
        proof {
            let b = old(self).buffer@.push(c);
            let ts = old(self).triggers@;
            match found {
                Some(k) => {
                    let k2 = choose|k2: int| chosen(b, ts, k2);
                    lemma_chosen_unique(b, ts, k as int, k2);
                },
                None => {
                    assert(!exists|k: int| chosen(b, ts, k));
                },
            }
        }
        match found {
            Some(k) => {
                self.buffer = Vec::new();
                let sep = if self.triggers[k].1 {
                    Some(c)
                } else {
                    None
                };
                Some((k, sep))
            },
            None => {
                if self.buffer.len() > self.window {
                    let ghost b = self.buffer@;
                    self.buffer.remove(0);
                    assert(self.buffer@ =~= b.subrange(b.len() - self.window, b.len() as int));
                } else {
                    assert(self.buffer@ =~= self.buffer@.subrange(0, self.buffer@.len() as int));
                }
                None
            },
        }
    }

    /// Reads a control key: Backspace takes back the last character typed,
    /// Shift and Meta change nothing, any other key starts the text typed anew.
    pub fn on_modifier(&mut self, m: KeyModifier)
        requires
            old(self).wf(),
        ensures
            final(self).wf(),
            final(self).triggers == old(self).triggers,
            final(self).window == old(self).window,
            m == KeyModifier::Backspace ==> final(self).buffer@ == (if old(self).buffer@.len() > 0 {
                old(self).buffer@.drop_last()
            } else {
                old(self).buffer@
            }),
            (m == KeyModifier::Shift || m == KeyModifier::Meta) ==> final(self).buffer@ == old(self).buffer@,
            m != KeyModifier::Backspace && m != KeyModifier::Shift && m != KeyModifier::Meta
                ==> final(self).buffer@.len() == 0,
    {
        match m {
            KeyModifier::Backspace => {
                if self.buffer.len() > 0 {
                    self.buffer.pop();
                }
            },
            KeyModifier::Shift | KeyModifier::Meta => {},
            _ => {
                self.buffer = Vec::new();
            },
        }
    }
}

} // verus!

verus! {

/// The last `w` characters of `h` (all of them where it has fewer).
pub open spec fn last_chars(h: Seq<char>, w: int) -> Seq<char> {
    if h.len() <= w {
        h
    } else {
        h.subrange(h.len() - w, h.len() as int)
    }
}

/// Matching on a window: where the window is longer than a trigger, the
/// trigger fires after the whole text typed since the last match or reset
/// exactly when it fires after the window's last characters of that text.
/// So the bounded buffer decides as a scan of all of that text would.
pub proof fn lemma_window_suffices(h: Seq<char>, t: Seq<char>, word: bool, w: int)
    requires
        t.len() + 1 <= w,
    ensures
        fires(h, t, word) == fires(last_chars(h, w), t, word),
{
    if h.len() > w {
        let s = last_chars(h, w);
        assert(s.subrange(s.len() - t.len(), s.len() as int) =~= h.subrange(h.len() - t.len(), h.len() as int));
        assert(s.last() == h.last());
        let sd = s.drop_last();
        let hd = h.drop_last();
        assert(sd.subrange(sd.len() - t.len(), sd.len() as int) =~= hd.subrange(hd.len() - t.len(), hd.len() as int));
    }
}

} // verus!

verus! {

/// The control key of an X11 key code, for the keys the matcher reads.
pub open spec fn spec_x11_modifier(code: i32) -> Option<KeyModifier> {
    if code == 133 {
        Some(KeyModifier::Meta)
    } else if code == 50 {
        Some(KeyModifier::Shift)
    } else if code == 64 {
        Some(KeyModifier::Alt)
    } else if code == 37 {
        Some(KeyModifier::Ctrl)
    } else if code == 22 {
        Some(KeyModifier::Backspace)
    } else {
        None
    }
}

/// The control key of an X11 key code, if it is one the matcher reads.
pub fn x11_modifier(code: i32) -> (r: Option<KeyModifier>)
    ensures
        r == spec_x11_modifier(code),
{
    if code == 133 {
        Some(KeyModifier::Meta)
    } else if code == 50 {
        Some(KeyModifier::Shift)
    } else if code == 64 {
        Some(KeyModifier::Alt)
    } else if code == 37 {
        Some(KeyModifier::Ctrl)
    } else if code == 22 {
        Some(KeyModifier::Backspace)
    } else {
        None
    }
}

/// The event for a key that the X11 tap reports: the decoded text of a
/// printable key (`None` where it was no valid UTF-8), or the control key of
/// `key_code`. Nothing for an undecodable text or an unknown key code.
pub fn x11_event(text: Option<String>, is_modifier: bool, key_code: i32) -> (r: Option<KeyEvent>)
    ensures
        !is_modifier ==> (r is Some <==> text is Some),
        !is_modifier ==> (r matches Some(KeyEvent::Char(s)) ==> text matches Some(t) && s@ == t@),
        !is_modifier ==> !(r matches Some(KeyEvent::Modifier(_))),
        is_modifier ==> (r is Some <==> spec_x11_modifier(key_code) is Some),
        is_modifier ==> (r matches Some(e) ==> e == KeyEvent::Modifier(spec_x11_modifier(key_code)->0)),
{
    if !is_modifier {
        match text {
            Some(t) => Some(KeyEvent::Char(t)),
            None => None,
        }
    } else {
        match x11_modifier(key_code) {
            Some(m) => Some(KeyEvent::Modifier(m)),
            None => None,
        }
    }
}

} // verus!

verus! {

/// What reading `c` after the text `h` emits: the chosen trigger and its
/// separator, if one fires.
pub open spec fn emitted(h: Seq<char>, c: char, ts: Seq<(Vec<char>, bool)>) -> Option<(int, Option<char>)> {
    let b = h.push(c);
    if exists|k: int| chosen(b, ts, k) {
        let k = choose|k: int| chosen(b, ts, k);
        Some((k, if ts[k].1 { Some(c) } else { None }))
    } else {
        None
    }
}

/// The matches a scan of the characters `s` emits, one entry per character,
/// where `h` is the text typed since the last match and `w` bounds what is
/// kept of it (`None`: all of it).
pub open spec fn scan(ts: Seq<(Vec<char>, bool)>, w: Option<int>, h: Seq<char>, s: Seq<char>) -> Seq<Option<(int, Option<char>)>>
    decreases s.len(),
{
    if s.len() == 0 {
        seq![]
    } else {
        let e = emitted(h, s[0], ts);
        let b = h.push(s[0]);
        let next = if e is Some {
            seq![]
        } else {
            match w {
                Some(n) => last_chars(b, n),
                None => b,
            }
        };
        seq![e] + scan(ts, w, next, s.subrange(1, s.len() as int))
    }
}

proof fn lemma_chosen_unique(b: Seq<char>, ts: Seq<(Vec<char>, bool)>, k1: int, k2: int)
    requires
        chosen(b, ts, k1),
        chosen(b, ts, k2),
    ensures
        k1 == k2,
{
    assert(fires(b, ts[k2].0@, ts[k2].1));
    assert(fires(b, ts[k1].0@, ts[k1].1));
}

proof fn lemma_emitted_on_window(h: Seq<char>, c: char, ts: Seq<(Vec<char>, bool)>, w: int)
    requires
        w >= 1,
        forall|k: int| 0 <= k < ts.len() ==> #[trigger] ts[k].0@.len() + 1 <= w,
    ensures
        emitted(h, c, ts) == emitted(last_chars(h, w), c, ts),
        last_chars(last_chars(h, w).push(c), w) == last_chars(h.push(c), w),
{
    let b = h.push(c);
    let bw = last_chars(h, w).push(c);
    if h.len() > w {
        assert(last_chars(bw, w) =~= last_chars(b, w));
    } else {
        assert(bw == b);
    }
    assert forall|j: int| 0 <= j < ts.len() implies fires(b, ts[j].0@, ts[j].1) == fires(bw, ts[j].0@, ts[j].1) by {
        assert(ts[j].0@.len() + 1 <= w);
        lemma_window_suffices(b, ts[j].0@, ts[j].1, w);
        lemma_window_suffices(bw, ts[j].0@, ts[j].1, w);
    }
    assert forall|k: int| chosen(b, ts, k) <==> chosen(bw, ts, k) by {
        if 0 <= k < ts.len() {
            assert(fires(b, ts[k].0@, ts[k].1) == fires(bw, ts[k].0@, ts[k].1));
        }
    }
    if exists|k: int| chosen(b, ts, k) {
        let k1 = choose|k: int| chosen(b, ts, k);
        let k2 = choose|k: int| chosen(bw, ts, k);
        lemma_chosen_unique(b, ts, k1, k2);
    }
}

/// The matcher decides as a naive scan: for every stream of typed characters
/// `s`, the matches emitted by a scan that keeps only the last `w`
/// characters typed (`w` longer than every trigger, as `Matcher::on_char`
/// keeps its buffer) are exactly those of a scan that keeps every character
/// typed since the last match. (Backspace is left out: once the window has
/// dropped characters, taking one back cannot bring them back.)
pub proof fn lemma_scan_matches_naive(ts: Seq<(Vec<char>, bool)>, w: int, h: Seq<char>, s: Seq<char>)
    requires
        w >= 1,
        forall|k: int| 0 <= k < ts.len() ==> #[trigger] ts[k].0@.len() + 1 <= w,
    ensures
        scan(ts, Some(w), last_chars(h, w), s) == scan(ts, None, h, s),
    decreases s.len(),
{
    if s.len() > 0 {
        let c = s[0];
        let rest = s.subrange(1, s.len() as int);
        lemma_emitted_on_window(h, c, ts, w);
        let e = emitted(h, c, ts);
        if e is None {
            lemma_scan_matches_naive(ts, w, h.push(c), rest);
        } else {
            assert(last_chars(Seq::<char>::empty(), w) =~= Seq::<char>::empty());
            lemma_scan_matches_naive(ts, w, Seq::<char>::empty(), rest);
        }
    }
}

} // verus!

verus! {

/// The text kept after a scan of `s` that starts after the text `h`.
pub open spec fn scan_rest(ts: Seq<(Vec<char>, bool)>, w: int, h: Seq<char>, s: Seq<char>) -> Seq<char>
    decreases s.len(),
{
    if s.len() == 0 {
        h
    } else {
        let next = if emitted(h, s[0], ts) is Some {
            seq![]
        } else {
            last_chars(h.push(s[0]), w)
        };
        scan_rest(ts, w, next, s.subrange(1, s.len() as int))
    }
}

/// A match as `emitted` speaks of it.
pub open spec fn as_emitted(r: Option<(usize, Option<char>)>) -> Option<(int, Option<char>)> {
    match r {
        Some((k, sep)) => Some((k as int, sep)),
        None => None,
    }
}

proof fn lemma_scan_len(ts: Seq<(Vec<char>, bool)>, w: Option<int>, h: Seq<char>, s: Seq<char>)
    ensures
        scan(ts, w, h, s).len() == s.len(),
    decreases s.len(),
{
    if s.len() > 0 {
        let e = emitted(h, s[0], ts);
        let b = h.push(s[0]);
        let next = if e is Some {
            seq![]
        } else {
            match w {
                Some(n) => last_chars(b, n),
                None => b,
            }
        };
        lemma_scan_len(ts, w, next, s.subrange(1, s.len() as int));
    }
}

impl Matcher {
    /// Reads an event of the tap. A printable key's characters are read in
    /// turn, each as `on_char` reads it, with one entry in the result for
    /// each: the match it completed, if any. A control key is read as
    /// `on_modifier` reads it, and completes no match.
    pub fn on_event(&mut self, e: &KeyEvent) -> (r: Vec<Option<(usize, Option<char>)>>)
        requires
            old(self).wf(),
        ensures
            final(self).wf(),
            final(self).triggers == old(self).triggers,
            final(self).window == old(self).window,
            forall|i: int| 0 <= i < r@.len() ==> (#[trigger] r@[i] matches Some((k, _)) ==> k < old(self).triggers@.len()),
            match *e {
                KeyEvent::Modifier(m) => {
                    &&& r@.len() == 0
                    &&& m == KeyModifier::Backspace ==> final(self).buffer@ == (if old(self).buffer@.len() > 0 {
                        old(self).buffer@.drop_last()
                    } else {
                        old(self).buffer@
                    })
                    &&& (m == KeyModifier::Shift || m == KeyModifier::Meta) ==> final(self).buffer@ == old(self).buffer@
                    &&& m != KeyModifier::Backspace && m != KeyModifier::Shift && m != KeyModifier::Meta
                        ==> final(self).buffer@.len() == 0
                },
                KeyEvent::Char(s) => {
                    let ts = old(self).triggers@;
                    let w = old(self).window as int;
                    let sc = scan(ts, Some(w), old(self).buffer@, s@);
                    &&& r@.len() == s@.len()
                    &&& forall|i: int| 0 <= i < r@.len() ==> as_emitted(#[trigger] r@[i]) == sc[i]
                    &&& final(self).buffer@ == scan_rest(ts, w, old(self).buffer@, s@)
                },
            },
    {
        let mut out: Vec<Option<(usize, Option<char>)>> = Vec::new();
        match e {
            KeyEvent::Modifier(m) => {
                self.on_modifier(*m);
                out
            },
            KeyEvent::Char(s) => {
                let cs = chars_of(s.as_str());
                let n = cs.len();
                let ghost ts = old(self).triggers@;
                let ghost w = old(self).window as int;
                let ghost h0 = old(self).buffer@;
                proof {
                    lemma_scan_len(ts, Some(w), h0, s@);
                    assert(s@.subrange(0, n as int) =~= s@);
                    assert(scan(ts, Some(w), h0, s@).subrange(0, n as int) =~= scan(ts, Some(w), h0, s@));
                }
                let mut i: usize = 0;
                while i < n
                    invariant
                        self.wf(),
                        self.triggers == old(self).triggers,
                        self.window == old(self).window,
                        ts == old(self).triggers@,
                        w == old(self).window as int,
                        h0 == old(self).buffer@,
                        n == cs@.len(),
                        cs@ == s@,
                        i <= n,
                        out@.len() == i,
                        scan(ts, Some(w), h0, s@).len() == n,
                        forall|j: int| 0 <= j < i ==> as_emitted(#[trigger] out@[j]) == scan(ts, Some(w), h0, s@)[j],
                        forall|j: int| 0 <= j < i ==> (#[trigger] out@[j] matches Some((k, _)) ==> k < ts.len()),
                        scan(ts, Some(w), h0, s@).subrange(i as int, n as int) == scan(ts, Some(w), self.buffer@, s@.subrange(i as int, n as int)),
                        scan_rest(ts, w, h0, s@) == scan_rest(ts, w, self.buffer@, s@.subrange(i as int, n as int)),
                    decreases n - i,
                {
                    let ghost before = self.buffer@;
                    let ghost rest = s@.subrange(i as int, n as int);
                    let c = cs[i];
                    assert(rest[0] == c);
                    assert(rest.subrange(1, rest.len() as int) =~= s@.subrange(i + 1, n as int));
                    let r = self.on_char(c);
                    proof {
                        let full = scan(ts, Some(w), h0, s@);
                        assert(full.subrange(i as int, n as int)[0] == full[i as int]);
                        assert(full.subrange(i as int, n as int).subrange(1, (n - i) as int) =~= full.subrange(i + 1, n as int));
                        if r is Some {
                            assert(self.buffer@ =~= Seq::<char>::empty());
                        }
                        let tail = scan(ts, Some(w), self.buffer@, s@.subrange(i + 1, n as int));
                        let e1 = emitted(before, c, ts);
                        assert(scan(ts, Some(w), before, rest) == seq![e1] + tail);
                        assert((seq![e1] + tail).subrange(1, (n - i) as int) =~= tail);
                    }
                    out.push(r);
                    i = i + 1;
                }
                proof {
                    assert(s@.subrange(n as int, n as int) =~= Seq::<char>::empty());
                }
                out
            },
        }
    }
}

} // verus!

