use vstd::prelude::*;

verus! {

/// Relies on `String::push`: the character is appended at the end.
pub assume_specification[ String::push ](s: &mut String, ch: char)
    ensures
        final(s)@ == old(s)@.push(ch),
;

/// The characters of `s`, in order.
pub fn chars_of(s: &str) -> (r: Vec<char>)
    ensures
        r@ == s@,
{
    let mut r: Vec<char> = Vec::new();
    for c in it: s.chars()
        invariant
            it.seq() == s@,
            r@ == it.seq().subrange(0, it.index() as int),
    {
        r.push(c);
    }
    r
}

/// A string holding the characters of `v`, in order.
pub fn string_of(v: &Vec<char>) -> (r: String)
    ensures
        r@ == v@,
{
    let mut r = String::new();
    let mut i: usize = 0;
    while i < v.len()
        invariant
            i <= v@.len(),
            r@ == v@.subrange(0, i as int),
        decreases v@.len() - i,
    {
        r.push(v[i]);
        i = i + 1;
    }
    assert(r@ =~= v@);
    r
}

} // verus!

verus! {

/// `s` with every `"\r\n"` pair, read left to right, turned into `'\n'`.
pub open spec fn normalize_newlines(s: Seq<char>) -> Seq<char>
    decreases s.len(),
{
    if s.len() == 0 {
        seq![]
    } else if s.len() >= 2 && s[0] == '\r' && s[1] == '\n' {
        seq!['\n'] + normalize_newlines(s.subrange(2, s.len() as int))
    } else {
        seq![s[0]] + normalize_newlines(s.subrange(1, s.len() as int))
    }
}

/// Whether `"\r\r\n"` starts at index `i` of `s`.
pub open spec fn cr_crlf_at(s: Seq<char>, i: int) -> bool {
    0 <= i && i + 2 < s.len() && s[i] == '\r' && s[i + 1] == '\r' && s[i + 2] == '\n'
}

/// Whether `s` holds a carriage return directly before a `"\r\n"` pair.
pub open spec fn has_cr_before_crlf(s: Seq<char>) -> bool {
    exists|i: int| #[trigger] cr_crlf_at(s, i)
}

/// Replaces each `"\r\n"` of `s` by `'\n'`.
pub fn normalize(s: &Vec<char>) -> (r: Vec<char>)
    ensures
        r@ == normalize_newlines(s@),
{
    let n = s.len();
    let mut r: Vec<char> = Vec::new();
    let mut i: usize = 0;
    assert(s@.subrange(0, n as int) =~= s@);
    assert(r@ + normalize_newlines(s@) =~= normalize_newlines(s@));
    while i < n
        invariant
            n == s@.len(),
            i <= n,
            r@ + normalize_newlines(s@.subrange(i as int, n as int)) == normalize_newlines(s@),
        decreases n - i,
    {
        let ghost rest = s@.subrange(i as int, n as int);
        if i + 1 < n && s[i] == '\r' && s[i + 1] == '\n' {
            assert(rest.subrange(2, rest.len() as int) =~= s@.subrange(i + 2, n as int));
            r.push('\n');
            i = i + 2;
        } else {
            assert(rest.subrange(1, rest.len() as int) =~= s@.subrange(i + 1, n as int));
            r.push(s[i]);
            i = i + 1;
        }
        assert(r@ + normalize_newlines(s@.subrange(i as int, n as int)) =~= normalize_newlines(s@));
    }
    assert(s@.subrange(n as int, n as int) =~= Seq::<char>::empty());
    assert(r@ + Seq::<char>::empty() =~= r@);
    r
}

proof fn lemma_normalize_head(s: Seq<char>)
    requires
        s.len() > 0,
        s[0] != '\n',
        !(s.len() >= 2 && s[0] == '\r' && s[1] == '\n'),
    ensures
        normalize_newlines(s).len() > 0,
        normalize_newlines(s)[0] == s[0],
{
}

/// Normalizing newlines a second time changes nothing, for every text
/// without a carriage return right before a `"\r\n"` pair (`"\r\r\n"`
/// normalizes to `"\r\n"`, which normalizes once more).
pub proof fn lemma_normalize_idempotent(s: Seq<char>)
    requires
        !has_cr_before_crlf(s),
    ensures
        normalize_newlines(normalize_newlines(s)) == normalize_newlines(s),
    decreases s.len(),
{
    if s.len() == 0 {
    } else {
        let t = if s.len() >= 2 && s[0] == '\r' && s[1] == '\n' {
            s.subrange(2, s.len() as int)
        } else {
            s.subrange(1, s.len() as int)
        };
        let off: int = if s.len() >= 2 && s[0] == '\r' && s[1] == '\n' { 2 } else { 1 };
        assert(!has_cr_before_crlf(t)) by {
            if has_cr_before_crlf(t) {
                let i = choose|i: int| #[trigger] cr_crlf_at(t, i);
                assert(cr_crlf_at(s, i + off));
            }
        }
        lemma_normalize_idempotent(t);
        let nt = normalize_newlines(t);
        let c = if off == 2 { '\n' } else { s[0] };
        let ns = seq![c] + nt;
        assert(normalize_newlines(s) == ns);
        assert(ns[0] == c);
        assert(ns.subrange(1, ns.len() as int) =~= nt);
        if c == '\r' && nt.len() > 0 {
            assert(t.len() > 0);
            assert(t[0] != '\n');
            if t.len() >= 2 && t[0] == '\r' && t[1] == '\n' {
                assert(cr_crlf_at(s, 0));
            }
            lemma_normalize_head(t);
        }
        assert(normalize_newlines(ns) =~= seq![c] + normalize_newlines(nt));
    }
}

/// Whether the cursor hint `$|$` starts at index `i` of `s`.
pub open spec fn hint_at(s: Seq<char>, i: int) -> bool {
    0 <= i && i + 3 <= s.len() && s[i] == '$' && s[i + 1] == '|' && s[i + 2] == '$'
}

/// The first index at or after `i` where the cursor hint starts.
pub open spec fn hint_search(s: Seq<char>, i: int) -> Option<int>
    decreases s.len() - i,
{
    if i < 0 || i + 3 > s.len() {
        None
    } else if hint_at(s, i) {
        Some(i)
    } else {
        hint_search(s, i + 1)
    }
}

/// The index of the first cursor hint of `s`, if any.
pub open spec fn first_hint(s: Seq<char>) -> Option<int> {
    hint_search(s, 0)
}

/// `s` without the three characters of the hint that starts at `i`.
pub open spec fn without_hint(s: Seq<char>, i: int) -> Seq<char> {
    s.subrange(0, i) + s.subrange(i + 3, s.len() as int)
}

/// `hint_search` finds the least index, at or after `i`, where a hint starts.
pub proof fn lemma_hint_search_first(s: Seq<char>, i: int)
    requires
        0 <= i,
    ensures
        hint_search(s, i) matches Some(k) ==> i <= k && hint_at(s, k) && forall|j: int|
            i <= j < k ==> !hint_at(s, j),
        hint_search(s, i) is None ==> forall|j: int| i <= j ==> !hint_at(s, j),
    decreases s.len() - i,
{
    if i + 3 <= s.len() && !hint_at(s, i) {
        lemma_hint_search_first(s, i + 1);
    }
}

/// Finds the first cursor hint; `first_hint` is the least index where one starts.
pub fn find_hint(s: &Vec<char>) -> (r: Option<usize>)
    ensures
        r matches Some(i) ==> first_hint(s@) == Some(i as int),
        r is None ==> first_hint(s@) is None,
        r matches Some(i) ==> hint_at(s@, i as int) && forall|j: int| 0 <= j < i ==> !hint_at(s@, j),
        r is None ==> forall|j: int| !hint_at(s@, j),
{
    proof {
        lemma_hint_search_first(s@, 0);
    }
    let n = s.len();
    let mut i: usize = 0;
    while i < n && n - i >= 3
        invariant
            n == s@.len(),
            i <= n,
            hint_search(s@, 0) == hint_search(s@, i as int),
        decreases n - i,
    {
        if s[i] == '$' && s[i + 1] == '|' && s[i + 2] == '$' {
            assert(hint_search(s@, i as int) == Some(i as int));
            proof {
                lemma_hint_search_first(s@, 0);
            }
            return Some(i);
        }
        i = i + 1;
    }
    None
}

/// The text with its first cursor hint removed, and the number of characters
/// that follow the hint's place in it: how far the cursor moves back once the
/// text is typed. `None` where the text holds no hint.
pub fn extract_cursor_hint(s: &Vec<char>) -> (r: Option<(Vec<char>, usize)>)
    ensures
        r is None <==> first_hint(s@) is None,
        r matches Some((t, back)) ==> ({
            let i = first_hint(s@)->0;
            &&& t@ == without_hint(s@, i)
            &&& back == t@.len() - i
            &&& back == s@.len() - i - 3
            &&& t@.subrange(i, t@.len() as int) == s@.subrange(i + 3, s@.len() as int)
        }),
{
    match find_hint(s) {
        None => None,
        Some(i) => {
            let n = s.len();
            let mut t: Vec<char> = Vec::new();
            let mut j: usize = 0;
            while j < n
                invariant
                    n == s@.len(),
                    i + 3 <= n,
                    j <= n,
                    j <= i ==> t@ == s@.subrange(0, j as int),
                    i < j ==> j >= i + 3 && t@ == s@.subrange(0, i as int) + s@.subrange(i + 3, j as int),
                decreases n - j,
            {
                if j == i {
                    j = j + 3;
                    assert(s@.subrange(i + 3, j as int) =~= Seq::<char>::empty());
                    assert(t@ =~= s@.subrange(0, i as int) + s@.subrange(i + 3, j as int));
                } else {
                    t.push(s[j]);
                    if j < i {
                        assert(t@ =~= s@.subrange(0, j + 1));
                    } else {
                        assert(t@ =~= s@.subrange(0, i as int) + s@.subrange(i + 3, j + 1));
                    }
                    j = j + 1;
                }
            }
            assert(t@ =~= without_hint(s@, i as int));
            assert(t@.subrange(i as int, t@.len() as int) =~= s@.subrange(i + 3, s@.len() as int));
            Some((t, n - i - 3))
        },
    }
}

} // verus!

verus! {

/// Whether `c` is an ASCII decimal digit.
pub open spec fn is_digit(c: char) -> bool {
    '0' <= c && c <= '9'
}

/// The value of the digit `c`.
pub open spec fn digit_value(c: char) -> nat {
    (c as int - '0' as int) as nat
}

/// The end of the run of digits of `s` that starts at `i`.
pub open spec fn digits_end(s: Seq<char>, i: int) -> int
    decreases s.len() - i,
{
    if 0 <= i < s.len() && is_digit(s[i]) {
        digits_end(s, i + 1)
    } else {
        i
    }
}

/// The number written, in decimal, by the digits `s[i..j]`.
pub open spec fn digits_value(s: Seq<char>, i: int, j: int) -> nat
    decreases j - i,
{
    if j <= i {
        0
    } else {
        digits_value(s, i, j - 1) * 10 + digit_value(s[j - 1])
    }
}

/// The positional argument `k`, or nothing where there is no such argument.
pub open spec fn arg_text(args: Seq<String>, k: nat) -> Seq<char> {
    if k < args.len() {
        args[k as int]@
    } else {
        seq![]
    }
}

/// `s[i..]` with each positional reference replaced by its argument. A
/// reference is `marker` followed by decimal digits; where `closing` holds,
/// one more `marker` right after the digits belongs to it too.
pub open spec fn positional_from(s: Seq<char>, i: int, args: Seq<String>, marker: char, closing: bool) -> Seq<char>
    decreases s.len() - i,
{
    if i < 0 || i >= s.len() {
        seq![]
    } else if s[i] == marker && i + 1 < s.len() && is_digit(s[i + 1]) {
        let k = digits_end(s, i + 1);
        let e = if closing && 0 <= k < s.len() && s[k] == marker { k + 1 } else { k };
        if i < e <= s.len() {
            arg_text(args, digits_value(s, i + 1, k)) + positional_from(s, e, args, marker, closing)
        } else {
            seq![]
        }
    } else {
        seq![s[i]] + positional_from(s, i + 1, args, marker, closing)
    }
}

/// `s` with each positional reference replaced by its argument.
pub open spec fn render_positional(s: Seq<char>, args: Seq<String>, marker: char, closing: bool) -> Seq<char> {
    positional_from(s, 0, args, marker, closing)
}

proof fn lemma_digits_end(s: Seq<char>, i: int)
    requires
        0 <= i <= s.len(),
    ensures
        i <= digits_end(s, i) <= s.len(),
    decreases s.len() - i,
{
    if i < s.len() && is_digit(s[i]) {
        lemma_digits_end(s, i + 1);
    }
}

/// Appends the characters of `s` to `out`.
pub fn push_str(out: &mut Vec<char>, s: &str)
    ensures
        final(out)@ == old(out)@ + s@,
{
    let cs = chars_of(s);
    let mut i: usize = 0;
    while i < cs.len()
        invariant
            cs@ == s@,
            i <= cs@.len(),
            out@ == old(out)@ + cs@.subrange(0, i as int),
        decreases cs@.len() - i,
    {
        out.push(cs[i]);
        i = i + 1;
        assert(out@ =~= old(out)@ + cs@.subrange(0, i as int));
    }
    assert(cs@.subrange(0, i as int) =~= cs@);
}

/// Replaces each positional reference of `s` by its argument (an empty
/// text for a position past the last argument).
pub fn substitute_positional(s: &Vec<char>, args: &Vec<String>, marker: char, closing: bool) -> (r: Vec<char>)
    ensures
        r@ == render_positional(s@, args@, marker, closing),
{
    let n = s.len();
    let cap = args.len();
    let mut out: Vec<char> = Vec::new();
    let mut i: usize = 0;
    assert(out@ + positional_from(s@, 0, args@, marker, closing) =~= positional_from(s@, 0, args@, marker, closing));
    while i < n
        invariant
            n == s@.len(),
            cap == args@.len(),
            i <= n,
            out@ + positional_from(s@, i as int, args@, marker, closing) == render_positional(s@, args@, marker, closing),
        decreases n - i,
    {
        if s[i] == marker && i + 1 < n && '0' <= s[i + 1] && s[i + 1] <= '9' {
            let mut j: usize = i + 1;
            let mut val: u128 = 0;
            let mut big = cap == 0;
            while j < n && '0' <= s[j] && s[j] <= '9'
                invariant
                    n == s@.len(),
                    cap == args@.len(),
                    i + 1 <= j <= n,
                    digits_end(s@, i + 1) == digits_end(s@, j as int),
                    big ==> digits_value(s@, i + 1, j as int) >= cap,
                    !big ==> val == digits_value(s@, i + 1, j as int) && val < cap,
                decreases n - j,
            {
                let d = (s[j] as u32 - '0' as u32) as u128;
                let ghost before = digits_value(s@, i + 1, j as int);
                assert(digits_value(s@, i + 1, j + 1) == before * 10 + digit_value(s@[j as int]));
                if big {
                    assert(before * 10 + digit_value(s@[j as int]) >= cap) by (nonlinear_arith)
                        requires
                            before >= cap,
                    ;
                } else {
                    let nv = val * 10 + d;
                    if nv < cap as u128 {
                        val = nv;
                    } else {
                        big = true;
                    }
                }
                j = j + 1;
            }
            proof {
                lemma_digits_end(s@, i + 1);
            }
            let k = j;
            if !big {
                push_str(&mut out, args[val as usize].as_str());
            }
            if closing && k < n && s[k] == marker {
                j = k + 1;
            }
            i = j;
        } else {
            out.push(s[i]);
            i = i + 1;
        }
        assert(out@ + positional_from(s@, i as int, args@, marker, closing) =~= render_positional(s@, args@, marker, closing));
    }
    assert(out@ + Seq::<char>::empty() =~= out@);
    out
}

} // verus!

verus! {

/// The characters with Unicode's `White_Space` property.
pub open spec fn is_white_space(c: char) -> bool {
    ('\t' <= c && c <= '\r') || c == ' ' || c == '\u{85}' || c == '\u{a0}' || c == '\u{1680}'
        || ('\u{2000}' <= c && c <= '\u{200a}') || c == '\u{2028}' || c == '\u{2029}'
        || c == '\u{202f}' || c == '\u{205f}' || c == '\u{3000}'
}

/// Whether `c` has Unicode's `White_Space` property.
pub fn white_space(c: char) -> (r: bool)
    ensures
        r == is_white_space(c),
{
    ('\t' <= c && c <= '\r') || c == ' ' || c == '\u{85}' || c == '\u{a0}' || c == '\u{1680}'
        || ('\u{2000}' <= c && c <= '\u{200a}') || c == '\u{2028}' || c == '\u{2029}'
        || c == '\u{202f}' || c == '\u{205f}' || c == '\u{3000}'
}

/// The first index at or after `i` that holds no white space.
pub open spec fn skip_white(s: Seq<char>, i: int) -> int
    decreases s.len() - i,
{
    if 0 <= i < s.len() && is_white_space(s[i]) {
        skip_white(s, i + 1)
    } else {
        i
    }
}

/// The last index at or before `j` whose predecessor holds no white space.
pub open spec fn skip_white_back(s: Seq<char>, j: int) -> int
    decreases j,
{
    if 0 < j <= s.len() && is_white_space(s[j - 1]) {
        skip_white_back(s, j - 1)
    } else {
        j
    }
}

/// `s` without white space at its start and at its end.
pub open spec fn trimmed(s: Seq<char>) -> Seq<char> {
    let a = skip_white(s, 0);
    if a >= s.len() {
        seq![]
    } else {
        s.subrange(a, skip_white_back(s, s.len() as int))
    }
}

proof fn lemma_skip_white(s: Seq<char>, i: int)
    requires
        0 <= i <= s.len(),
    ensures
        i <= skip_white(s, i) <= s.len(),
        forall|k: int| i <= k < skip_white(s, i) ==> is_white_space(s[k]),
    decreases s.len() - i,
{
    if i < s.len() && is_white_space(s[i]) {
        lemma_skip_white(s, i + 1);
    }
}

/// `s` without white space at its start and at its end.
pub fn trim(s: &Vec<char>) -> (r: Vec<char>)
    ensures
        r@ == trimmed(s@),
{
    let n = s.len();
    let mut a: usize = 0;
    while a < n && white_space(s[a])
        invariant
            n == s@.len(),
            a <= n,
            skip_white(s@, 0) == skip_white(s@, a as int),
        decreases n - a,
    {
        a = a + 1;
    }
    if a >= n {
        return Vec::new();
    }
    let mut b: usize = n;
    while b > a + 1 && white_space(s[b - 1])
        invariant
            n == s@.len(),
            a < n,
            !is_white_space(s@[a as int]),
            a < b <= n,
            skip_white_back(s@, n as int) == skip_white_back(s@, b as int),
        decreases b,
    {
        b = b - 1;
    }
    assert(skip_white(s@, 0) == a);
    assert(skip_white_back(s@, n as int) == b);
    let mut r: Vec<char> = Vec::new();
    let mut k: usize = a;
    while k < b
        invariant
            n == s@.len(),
            a <= k <= b <= n,
            r@ == s@.subrange(a as int, k as int),
        decreases b - k,
    {
        r.push(s[k]);
        k = k + 1;
        assert(r@ =~= s@.subrange(a as int, k as int));
    }
    r
}

} // verus!

verus! {

/// Whether `c` may stand in a variable name: an ASCII letter or digit, or `_`.
pub open spec fn is_name_char(c: char) -> bool {
    ('a' <= c && c <= 'z') || ('A' <= c && c <= 'Z') || ('0' <= c && c <= '9') || c == '_'
}

/// The end of the run of name characters of `s` that starts at `i`.
pub open spec fn name_end(s: Seq<char>, i: int) -> int
    decreases s.len() - i,
{
    if 0 <= i < s.len() && is_name_char(s[i]) {
        name_end(s, i + 1)
    } else {
        i
    }
}

/// The variable reference `{{ name }}` that starts at `i` of `s`, if one
/// does: its name, and the index just past its closing braces. White space
/// may stand on both sides of the name.
pub open spec fn var_ref_at(s: Seq<char>, i: int) -> Option<(Seq<char>, int)> {
    if 0 <= i && i + 1 < s.len() && s[i] == '{' && s[i + 1] == '{' {
        let a = skip_white(s, i + 2);
        let b = name_end(s, a);
        let c = skip_white(s, b);
        if a < b && 0 <= c && c + 1 < s.len() && s[c] == '}' && s[c + 1] == '}' {
            Some((s.subrange(a, b), c + 2))
        } else {
            None
        }
    } else {
        None
    }
}

/// The value bound to `name`: that of the first binding with this name.
pub open spec fn lookup_binding(bindings: Seq<(String, String)>, name: Seq<char>) -> Option<Seq<char>>
    decreases bindings.len(),
{
    if bindings.len() == 0 {
        None
    } else if bindings[0].0@ == name {
        Some(bindings[0].1@)
    } else {
        lookup_binding(bindings.subrange(1, bindings.len() as int), name)
    }
}

/// `s[i..]` with each reference to a bound variable replaced by its value;
/// a reference to an unbound name is kept as it is.
pub open spec fn vars_from(s: Seq<char>, i: int, bindings: Seq<(String, String)>) -> Seq<char>
    decreases s.len() - i,
{
    if i < 0 || i >= s.len() {
        seq![]
    } else {
        match var_ref_at(s, i) {
            Some((name, e)) if lookup_binding(bindings, name) is Some && i < e <= s.len() => {
                lookup_binding(bindings, name)->0 + vars_from(s, e, bindings)
            },
            _ => seq![s[i]] + vars_from(s, i + 1, bindings),
        }
    }
}

/// `s` with each reference to a bound variable replaced by its value.
pub open spec fn substitute_vars(s: Seq<char>, bindings: Seq<(String, String)>) -> Seq<char> {
    vars_from(s, 0, bindings)
}

proof fn lemma_name_end(s: Seq<char>, i: int)
    requires
        0 <= i <= s.len(),
    ensures
        i <= name_end(s, i) <= s.len(),
    decreases s.len() - i,
{
    if i < s.len() && is_name_char(s[i]) {
        lemma_name_end(s, i + 1);
    }
}

/// The value bound to `name` among `bindings`.
pub fn find_binding(bindings: &Vec<(String, String)>, name: &String) -> (r: Option<String>)
    ensures
        r is None <==> lookup_binding(bindings@, name@) is None,
        r matches Some(v) ==> lookup_binding(bindings@, name@) == Some(v@),
{
    let mut i: usize = 0;
    assert(bindings@.subrange(0, bindings@.len() as int) =~= bindings@);
    while i < bindings.len()
        invariant
            i <= bindings@.len(),
            lookup_binding(bindings@, name@) == lookup_binding(bindings@.subrange(i as int, bindings@.len() as int), name@),
        decreases bindings@.len() - i,
    {
        let ghost rest = bindings@.subrange(i as int, bindings@.len() as int);
        assert(rest[0] == bindings@[i as int]);
        if bindings[i].0 == *name {
            return Some(bindings[i].1.clone());
        }
        assert(rest.subrange(1, rest.len() as int) =~= bindings@.subrange(i + 1, bindings@.len() as int));
        i = i + 1;
    }
    None
}

/// The variable reference that starts at `i`, if one does.
fn parse_var_ref(s: &Vec<char>, i: usize) -> (r: Option<(Vec<char>, usize)>)
    requires
        i < s@.len(),
    ensures
        r is None <==> var_ref_at(s@, i as int) is None,
        r matches Some((name, e)) ==> var_ref_at(s@, i as int) == Some((name@, e as int)),
{
    let n = s.len();
    if !(i + 1 < n && s[i] == '{' && s[i + 1] == '{') {
        return None;
    }
    let mut a: usize = i + 2;
    proof {
        lemma_skip_white(s@, a as int);
    }
    while a < n && white_space(s[a])
        invariant
            n == s@.len(),
            i + 2 <= a <= n,
            skip_white(s@, i + 2) == skip_white(s@, a as int),
        decreases n - a,
    {
        a = a + 1;
    }
    let mut b: usize = a;
    while b < n && (('a' <= s[b] && s[b] <= 'z') || ('A' <= s[b] && s[b] <= 'Z') || ('0' <= s[b] && s[b] <= '9') || s[b] == '_')
        invariant
            n == s@.len(),
            a <= b <= n,
            name_end(s@, a as int) == name_end(s@, b as int),
        decreases n - b,
    {
        b = b + 1;
    }
    let mut c: usize = b;
    while c < n && white_space(s[c])
        invariant
            n == s@.len(),
            b <= c <= n,
            skip_white(s@, b as int) == skip_white(s@, c as int),
        decreases n - c,
    {
        c = c + 1;
    }
    if a < b && c < n && c + 1 < n && s[c] == '}' && s[c + 1] == '}' {
        let mut name: Vec<char> = Vec::new();
        let mut k: usize = a;
        while k < b
            invariant
                n == s@.len(),
                a <= k <= b <= n,
                name@ == s@.subrange(a as int, k as int),
            decreases b - k,
        {
            name.push(s[k]);
            k = k + 1;
            assert(name@ =~= s@.subrange(a as int, k as int));
        }
        Some((name, c + 2))
    } else {
        None
    }
}

/// Replaces each reference `{{ name }}` to a bound variable by its value.
pub fn substitute_variables(s: &Vec<char>, bindings: &Vec<(String, String)>) -> (r: Vec<char>)
    ensures
        r@ == substitute_vars(s@, bindings@),
{
    let n = s.len();
    let mut out: Vec<char> = Vec::new();
    let mut i: usize = 0;
    assert(out@ + vars_from(s@, 0, bindings@) =~= vars_from(s@, 0, bindings@));
    while i < n
        invariant
            n == s@.len(),
            i <= n,
            out@ + vars_from(s@, i as int, bindings@) == substitute_vars(s@, bindings@),
        decreases n - i,
    {
        let mut done = false;
        match parse_var_ref(s, i) {
            Some((name, e)) => {
                let key = string_of(&name);
                match find_binding(bindings, &key) {
                    Some(v) => {
                        if i < e && e <= n {
                            push_str(&mut out, v.as_str());
                            i = e;
                            done = true;
                        }
                    },
                    None => {},
                }
            },
            None => {},
        }
        if !done {
            out.push(s[i]);
            i = i + 1;
        }
        assert(out@ + vars_from(s@, i as int, bindings@) =~= substitute_vars(s@, bindings@));
    }
    assert(out@ + Seq::<char>::empty() =~= out@);
    out
}

} // verus!
