//! The conversation with `polkit-agent-helper-1`, which runs the PAM exchange
//! for the authentication dialog.
//!
//! The helper speaks a line protocol: each line it writes starts with a PAM
//! keyword, and each answer we send is one line. This module holds what that
//! exchange decides: where the helper binary is, how a line of its output is
//! read, how an answer is framed, and when an attempt is over or retried. The
//! process, the socket and the waiting are the caller's.
use std::ops::ControlFlow;
use vstd::prelude::*;

verus! {

broadcast use vstd::string::group_string_axioms;

/// Where a socket-activated helper listens, when the system provides one.
pub const HELPER_SOCKET_PATH: &'static str = "/run/polkit/agent-helper.socket";

/// Where `polkit-agent-helper-1` is looked for when no override names it, in
/// order: the FHS layouts of Fedora and Debian, then the setuid wrapper and
/// the system profile of Nix-style systems (the store copy cannot carry the
/// setuid bit, so the wrapper has to be preferred).
pub const HELPER_BIN_CANDIDATES: [&'static str; 5] = [
    "/usr/lib/polkit-1/polkit-agent-helper-1",
    "/usr/libexec/polkit-1/polkit-agent-helper-1",
    "/usr/libexec/polkit-agent-helper-1",
    "/run/wrappers/bin/polkit-agent-helper-1",
    "/run/current-system/sw/lib/polkit-1/polkit-agent-helper-1",
];

/// How many times the conversation is started before the dialog is told it
/// failed.
pub const AUTH_ATTEMPTS: u32 = 3;

/// What the helper tells the dialog. `R` is the handle through which the
/// dialog answers a prompt.
#[derive(Clone, Debug)]
pub enum Event<R> {
    Failed,
    Responder(R),
    /// A prompt, and whether the answer may be echoed.
    Request(String, bool),
    ShowError(String),
    ShowDebug(String),
    Complete(bool),
}

/// Unicode `White_Space`, as `char::is_whitespace` classifies it.
pub open spec fn is_whitespace(c: char) -> bool {
    let u = c as u32;
    ||| 0x09 <= u <= 0x0d
    ||| u == 0x20
    ||| u == 0x85
    ||| u == 0xa0
    ||| u == 0x1680
    ||| 0x2000 <= u <= 0x200a
    ||| u == 0x2028
    ||| u == 0x2029
    ||| u == 0x202f
    ||| u == 0x205f
    ||| u == 0x3000
}

/// `s` without its leading whitespace.
pub open spec fn trim_start(s: Seq<char>) -> Seq<char>
    decreases s.len(),
{
    if s.len() > 0 && is_whitespace(s[0]) {
        trim_start(s.drop_first())
    } else {
        s
    }
}

/// `s` without its trailing whitespace.
pub open spec fn trim_end(s: Seq<char>) -> Seq<char>
    decreases s.len(),
{
    if s.len() > 0 && is_whitespace(s.last()) {
        trim_end(s.drop_last())
    } else {
        s
    }
}

/// `s` without leading or trailing whitespace.
pub open spec fn trim(s: Seq<char>) -> Seq<char> {
    trim_end(trim_start(s))
}

/// `k` is the position of the first space in `t`.
pub open spec fn is_first_space(t: Seq<char>, k: int) -> bool {
    &&& 0 <= k < t.len()
    &&& t[k] == ' '
    &&& forall|j: int| 0 <= j < k ==> t[j] != ' '
}

/// `t` split at its first space, the space dropped; with no space, all of `t`
/// and nothing.
pub open spec fn split_once_space(t: Seq<char>) -> (Seq<char>, Seq<char>) {
    if exists|k: int| is_first_space(t, k) {
        let k = choose|k: int| is_first_space(t, k);
        (t.subrange(0, k), t.subrange(k + 1, t.len() as int))
    } else {
        (t, Seq::empty())
    }
}

/// The keyword and the text of a line from the helper.
pub open spec fn line_parts(line: Seq<char>) -> (Seq<char>, Seq<char>) {
    split_once_space(trim(line))
}

/// The keywords the helper's lines start with.
pub open spec fn is_known_prefix(prefix: Seq<char>) -> bool {
    ||| prefix == "PAM_PROMPT_ECHO_OFF"@
    ||| prefix == "PAM_PROMPT_ECHO_ON"@
    ||| prefix == "PAM_ERROR_MSG"@
    ||| prefix == "PAM_TEXT_INFO"@
    ||| prefix == "SUCCESS"@
    ||| prefix == "FAILURE"@
}

impl<R> Event<R> {
    /// This event is what a line with this keyword and text stands for.
    pub open spec fn is_read_from(self, prefix: Seq<char>, rest: Seq<char>) -> bool {
        match self {
            Event::Request(s, echo) => if echo {
                prefix == "PAM_PROMPT_ECHO_ON"@ && s@ == rest
            } else {
                prefix == "PAM_PROMPT_ECHO_OFF"@ && s@ == rest
            },
            Event::ShowError(s) => prefix == "PAM_ERROR_MSG"@ && s@ == rest,
            Event::ShowDebug(s) => prefix == "PAM_TEXT_INFO"@ && s@ == rest,
            Event::Complete(success) => if success {
                prefix == "SUCCESS"@
            } else {
                prefix == "FAILURE"@
            },
            Event::Failed => false,
            Event::Responder(_) => false,
        }
    }
}

/// The characters of `s`, one per element.
pub(crate) fn chars_of(s: &str) -> (v: Vec<char>)
    ensures
        v@ == s@,
{
    let mut v: Vec<char> = Vec::new();
    for c in it: s.chars()
        invariant
            v@ == it.seq().take(it.index()),
    {
        v.push(c);
    }
    v
}

/// Whether `c` is Unicode whitespace.
pub fn is_whitespace_char(c: char) -> (b: bool)
    ensures
        b == is_whitespace(c),
{
    let u = c as u32;
    (0x09 <= u && u <= 0x0d) || u == 0x20 || u == 0x85 || u == 0xa0 || u == 0x1680 || (0x2000 <= u
        && u <= 0x200a) || u == 0x2028 || u == 0x2029 || u == 0x202f || u == 0x205f || u == 0x3000
}

/// The bounds of `v` once leading and trailing whitespace is cut off.
fn trim_bounds(v: &Vec<char>) -> (r: (usize, usize))
    ensures
        r.0 <= r.1 <= v@.len(),
        v@.subrange(r.0 as int, r.1 as int) == trim(v@),
{
    let n = v.len();
    let mut i: usize = 0;
    assert(v@.subrange(0, n as int) =~= v@);
    while i < n && is_whitespace_char(v[i])
        invariant
            n == v@.len(),
            i <= n,
            trim_start(v@.subrange(i as int, n as int)) == trim_start(v@),
        decreases n - i,
    {
        assert(v@.subrange(i as int, n as int).drop_first() =~= v@.subrange(i + 1, n as int));
        i += 1;
    }
    assert(trim_start(v@.subrange(i as int, n as int)) == v@.subrange(i as int, n as int));
    let mut j: usize = n;
    while j > i && is_whitespace_char(v[j - 1])
        invariant
            n == v@.len(),
            i <= j <= n,
            trim_end(v@.subrange(i as int, j as int)) == trim_end(v@.subrange(i as int, n as int)),
        decreases j - i,
    {
        assert(v@.subrange(i as int, j as int).drop_last() =~= v@.subrange(i as int, j - 1));
        j -= 1;
    }
    assert(trim_end(v@.subrange(i as int, j as int)) == v@.subrange(i as int, j as int));
    (i, j)
}

/// Split `v[from..to]` at its first space: the keyword is `v[from..r.0]` and
/// the text `v[r.1..to]`.
fn split_bounds(v: &Vec<char>, from: usize, to: usize) -> (r: (usize, usize))
    requires
        from <= to <= v@.len(),
    ensures
        from <= r.0 <= r.1 <= to,
        (v@.subrange(from as int, r.0 as int), v@.subrange(r.1 as int, to as int))
            == split_once_space(v@.subrange(from as int, to as int)),
{
    let ghost t = v@.subrange(from as int, to as int);
    let mut k: usize = from;
    while k < to
        invariant
            from <= k <= to <= v@.len(),
            t == v@.subrange(from as int, to as int),
            forall|j: int| 0 <= j < k - from ==> t[j] != ' ',
        decreases to - k,
    {
        if v[k] == ' ' {
            let ghost rel = k - from;
            assert(is_first_space(t, rel));
            let ghost c = choose|c: int| is_first_space(t, c);
            assert(c == rel) by {
                if c < rel {
                    assert(t[c] != ' ');
                } else if rel < c {
                    assert(t[rel] != ' ');
                }
            }
            assert(t.subrange(0, rel) =~= v@.subrange(from as int, k as int));
            assert(t.subrange(rel + 1, t.len() as int) =~= v@.subrange(k + 1, to as int));
            return (k, k + 1);
        }
        k += 1;
    }
    assert(!exists|c: int| is_first_space(t, c));
    assert(v@.subrange(to as int, to as int) =~= Seq::<char>::empty());
    (to, to)
}

/// Whether `v[from..to]` spells `word`.
fn spells(v: &Vec<char>, from: usize, to: usize, word: &str) -> (b: bool)
    requires
        from <= to <= v@.len(),
    ensures
        b == (v@.subrange(from as int, to as int) == word@),
{
    let n = word.unicode_len();
    if to - from != n {
        return false;
    }
    let mut i: usize = 0;
    while i < n
        invariant
            n == word@.len(),
            to - from == n,
            from <= to <= v@.len(),
            i <= n,
            forall|k: int| 0 <= k < i ==> v@[from + k] == word@[k],
        decreases n - i,
    {
        if v[from + i] != word.get_char(i) {
            assert(v@.subrange(from as int, to as int)[i as int] != word@[i as int]);
            return false;
        }
        i += 1;
    }
    assert(v@.subrange(from as int, to as int) =~= word@);
    true
}

/// Read one line of the helper's output. A line the helper is known to send
/// gives its event; any other gives back its keyword.
pub fn event<'a, R>(line: &'a str) -> (res: Result<Event<R>, &'a str>)
    ensures
        ({
            let (prefix, rest) = line_parts(line@);
            match res {
                Ok(e) => e.is_read_from(prefix, rest),
                Err(unknown) => unknown@ == prefix && !is_known_prefix(prefix),
            }
        }),
{
    let v = chars_of(line);
    let (a, b) = trim_bounds(&v);
    let (prefix_end, rest_start) = split_bounds(&v, a, b);
    let rest = line.substring_char(rest_start, b);
    if spells(&v, a, prefix_end, "PAM_PROMPT_ECHO_OFF") {
        Ok(Event::Request(rest.to_owned(), false))
    } else if spells(&v, a, prefix_end, "PAM_PROMPT_ECHO_ON") {
        Ok(Event::Request(rest.to_owned(), true))
    } else if spells(&v, a, prefix_end, "PAM_ERROR_MSG") {
        Ok(Event::ShowError(rest.to_owned()))
    } else if spells(&v, a, prefix_end, "PAM_TEXT_INFO") {
        Ok(Event::ShowDebug(rest.to_owned()))
    } else if spells(&v, a, prefix_end, "SUCCESS") {
        Ok(Event::Complete(true))
    } else if spells(&v, a, prefix_end, "FAILURE") {
        Ok(Event::Complete(false))
    } else {
        Err(line.substring_char(a, prefix_end))
    }
}

/// One message to the helper, as a line.
pub fn frame_message(msg: &str) -> (framed: String)
    ensures
        framed@ == msg@.push('\n'),
{
    let mut framed = msg.to_owned();
    framed.append("\n");
    proof {
        reveal_strlit("\n");
        assert(framed@ =~= msg@.push('\n'));
    }
    framed
}

/// An override that names a path: present and not empty.
pub open spec fn names_path(o: Option<Seq<char>>) -> bool {
    o matches Some(p) && p.len() > 0
}

pub open spec fn runtime_view(o: Option<String>) -> Option<Seq<char>> {
    match o {
        Some(p) => Some(p@),
        None => None,
    }
}

pub open spec fn compiled_view(o: Option<&str>) -> Option<Seq<char>> {
    match o {
        Some(p) => Some(p@),
        None => None,
    }
}

/// `i` is the first candidate that `present` answered for, every earlier one
/// having been answered against.
pub open spec fn first_found<F: Fn(&str) -> bool>(candidates: Seq<&str>, present: F, i: int) -> bool {
    &&& 0 <= i < candidates.len()
    &&& present.ensures((candidates[i],), true)
    &&& forall|j: int| 0 <= j < i ==> present.ensures((candidates[j],), false)
}

/// Pick the helper binary: a non-empty runtime override, else a non-empty
/// compile-time override, else the first candidate that `present` finds.
/// `present` is asked about the candidates in order and no further than the
/// first it finds.
pub fn resolve_helper_bin_path_in<F: Fn(&str) -> bool>(
    runtime_override: Option<String>,
    compiled_override: Option<&str>,
    candidates: &[&str],
    present: F,
) -> (path: Option<String>)
    requires
        forall|i: int| 0 <= i < candidates@.len() ==> present.requires((candidates@[i],)),
    ensures
        names_path(runtime_view(runtime_override)) ==> (path matches Some(p) && p@
            == runtime_override->0@),
        !names_path(runtime_view(runtime_override)) && names_path(compiled_view(compiled_override))
            ==> (path matches Some(p) && p@ == compiled_override->0@),
        !names_path(runtime_view(runtime_override)) && !names_path(compiled_view(compiled_override))
            ==> match path {
            Some(p) => exists|i: int|
                first_found(candidates@, present, i) && p@ == (#[trigger] candidates@[i])@,
            None => forall|j: int|
                0 <= j < candidates@.len() ==> present.ensures((#[trigger] candidates@[j],), false),
        },
{
    if let Some(path) = runtime_override {
        if !path.as_str().is_empty() {
            return Some(path);
        }
    }
    if let Some(path) = compiled_override {
        if !path.is_empty() {
            return Some(path.to_owned());
        }
    }
    let mut i: usize = 0;
    #[verifier::loop_isolation(false)]
    while i < candidates.len()
        invariant
            i <= candidates@.len(),
            forall|k: int| 0 <= k < candidates@.len() ==> present.requires((candidates@[k],)),
            forall|j: int| 0 <= j < i ==> present.ensures((candidates@[j],), false),
        decreases candidates@.len() - i,
    {
        let candidate = candidates[i];
        if present(candidate) {
            assert(first_found(candidates@, present, i as int));
            return Some(candidate.to_owned());
        }
        i += 1;
    }
    None
}

/// What to do with one read from the helper: the event to pass on to the
/// dialog, if any, and whether the conversation goes on (`Continue`) or is
/// over (`Break`, with whether it succeeded). A completion is passed on and
/// ends it; any other event is passed on; the end of the output ends it as a
/// failure; a read error is reported as `Failed` and ends it.
pub fn agent_next<R, E>(next: Result<Option<Event<R>>, E>) -> (out: (Option<Event<R>>, ControlFlow<bool>))
    ensures
        match next {
            Ok(Some(Event::Complete(success))) => out == (
                Some(Event::<R>::Complete(success)),
                ControlFlow::<bool>::Break(success),
            ),
            Ok(Some(event)) => out == (Some(event), ControlFlow::<bool>::Continue(())),
            Ok(None) => out == (None::<Event<R>>, ControlFlow::<bool>::Break(false)),
            Err(_) => out == (Some(Event::<R>::Failed), ControlFlow::<bool>::Break(false)),
        },
{
    match next {
        Ok(Some(event)) => {
            match event {
                Event::Complete(success) => (Some(Event::Complete(success)), ControlFlow::Break(success)),
                _ => (Some(event), ControlFlow::Continue(())),
            }
        },
        Ok(None) => (None, ControlFlow::Break(false)),
        Err(_) => (Some(Event::Failed), ControlFlow::Break(false)),
    }
}

/// What to do once an answer has been written to the helper: a failed write
/// is reported as `Failed` and ends the conversation.
pub fn responder_next<R, E>(written: Result<(), E>) -> (out: (Option<Event<R>>, ControlFlow<()>))
    ensures
        match written {
            Ok(()) => out == (None::<Event<R>>, ControlFlow::<()>::Continue(())),
            Err(_) => out == (Some(Event::<R>::Failed), ControlFlow::<()>::Break(())),
        },
{
    match written {
        Ok(()) => (None, ControlFlow::Continue(())),
        Err(_) => (Some(Event::Failed), ControlFlow::Break(())),
    }
}

/// What follows an attempt at the conversation.
#[derive(Debug, Clone, Copy, PartialEq, Eq, Structural)]
pub enum Retry {
    /// It succeeded: stop.
    Done,
    /// Start another attempt.
    Again,
    /// The attempts are used up: tell the dialog it failed, and stop.
    GiveUp,
}

/// After the `attempts_made`-th attempt ended with `outcome`: stop on success,
/// otherwise retry until `AUTH_ATTEMPTS` attempts have been made.
pub fn after_attempt(attempts_made: u32, outcome: ControlFlow<bool>) -> (next: Retry)
    requires
        1 <= attempts_made <= AUTH_ATTEMPTS,
    ensures
        outcome == ControlFlow::<bool>::Break(true) ==> next == Retry::Done,
        outcome != ControlFlow::<bool>::Break(true) && attempts_made < AUTH_ATTEMPTS ==> next
            == Retry::Again,
        outcome != ControlFlow::<bool>::Break(true) && attempts_made == AUTH_ATTEMPTS ==> next
            == Retry::GiveUp,
{
    match outcome {
        ControlFlow::Break(true) => Retry::Done,
        _ => if attempts_made < AUTH_ATTEMPTS {
            Retry::Again
        } else {
            Retry::GiveUp
        },
    }
}

/// `s` has no whitespace at either end.
pub open spec fn is_trimmed(s: Seq<char>) -> bool {
    s.len() > 0 ==> !is_whitespace(s[0]) && !is_whitespace(s.last())
}

/// A line `KEYWORD text` as the helper writes it, newline included, is read
/// as that keyword and that text; `KEYWORD` alone (or with an empty text) is
/// read as the keyword with an empty text.
pub proof fn law_keyword_line_is_read(prefix: Seq<char>, rest: Seq<char>)
    requires
        prefix.len() > 0,
        forall|i: int| 0 <= i < prefix.len() ==> !is_whitespace(#[trigger] prefix[i]),
        is_trimmed(rest),
    ensures
        line_parts(prefix + seq![' '] + rest + seq!['\n']) == (prefix, rest),
        line_parts(prefix + seq!['\n']) == (prefix, Seq::<char>::empty()),
{
    let body = prefix + seq![' '] + rest;
    let line = body + seq!['\n'];
    assert(line[0] == prefix[0]);
    assert(trim_start(line) == line);
    assert(line.drop_last() =~= body);
    assert(is_whitespace('\n'));
    assert(trim_end(line) == trim_end(body));
    if rest.len() > 0 {
        assert(body.last() == rest.last());
        assert(trim_end(body) == body);
    } else {
        assert(body.drop_last() =~= prefix);
        assert(trim_end(prefix) == prefix);
    }
    let t = trim(line);
    if rest.len() > 0 {
        let k = prefix.len() as int;
        assert(t == body);
        assert(is_first_space(t, k));
        let c = choose|c: int| is_first_space(t, c);
        assert(c == k) by {
            if c < k {
                assert(t[c] == prefix[c]);
            } else if k < c {
                assert(t[k] != ' ');
            }
        }
        assert(t.subrange(0, k) =~= prefix);
        assert(t.subrange(k + 1, t.len() as int) =~= rest);
    } else {
        assert(t == prefix);
        assert forall|c: int| !is_first_space(t, c) by {
            if 0 <= c < t.len() {
                assert(t[c] == prefix[c]);
            }
        }
    }
    let short = prefix + seq!['\n'];
    assert(short[0] == prefix[0]);
    assert(trim_start(short) == short);
    assert(short.drop_last() =~= prefix);
    assert(short.last() == '\n');
    assert(trim_end(short) == trim_end(prefix));
    assert(!is_whitespace(prefix[prefix.len() - 1]));
    assert(trim_end(prefix) == prefix);
    assert(trim(short) == prefix);
    assert forall|c: int| !is_first_space(prefix, c) by {
        if 0 <= c < prefix.len() {
            assert(!is_whitespace(prefix[c]));
        }
    }
}

proof fn lemma_trim_start_bound(s: Seq<char>) -> (k: int)
    ensures
        0 <= k <= s.len(),
        trim_start(s) == s.subrange(k, s.len() as int),
        forall|i: int| 0 <= i < k ==> is_whitespace(#[trigger] s[i]),
        k < s.len() ==> !is_whitespace(s[k]),
    decreases s.len(),
{
    if s.len() > 0 && is_whitespace(s[0]) {
        let k1 = lemma_trim_start_bound(s.drop_first());
        assert(s.drop_first().subrange(k1, s.len() - 1) =~= s.subrange(k1 + 1, s.len() as int));
        assert forall|i: int| 0 <= i < k1 + 1 implies is_whitespace(#[trigger] s[i]) by {
            if i > 0 {
                assert(s[i] == s.drop_first()[i - 1]);
            }
        }
        k1 + 1
    } else {
        assert(s.subrange(0, s.len() as int) =~= s);
        0
    }
}

proof fn lemma_trim_end_bound(s: Seq<char>) -> (k: int)
    ensures
        0 <= k <= s.len(),
        trim_end(s) == s.subrange(0, k),
        forall|i: int| k <= i < s.len() ==> is_whitespace(#[trigger] s[i]),
        k > 0 ==> !is_whitespace(s[k - 1]),
    decreases s.len(),
{
    if s.len() > 0 && is_whitespace(s.last()) {
        let k1 = lemma_trim_end_bound(s.drop_last());
        assert(s.drop_last().subrange(0, k1) =~= s.subrange(0, k1));
        assert forall|i: int| k1 <= i < s.len() implies is_whitespace(#[trigger] s[i]) by {
            if i < s.len() - 1 {
                assert(s[i] == s.drop_last()[i]);
            }
        }
        if k1 > 0 {
            assert(s[k1 - 1] == s.drop_last()[k1 - 1]);
        }
        k1
    } else {
        assert(s.subrange(0, s.len() as int) =~= s);
        s.len() as int
    }
}

/// Trimming cuts off exactly the whitespace at both ends: the result is the
/// run `s[a..b]`, everything before `a` and from `b` on is whitespace, and the
/// run neither starts nor ends with whitespace.
pub proof fn law_trim(s: Seq<char>) -> (bounds: (int, int))
    ensures
        0 <= bounds.0 <= bounds.1 <= s.len(),
        trim(s) == s.subrange(bounds.0, bounds.1),
        forall|i: int| 0 <= i < bounds.0 ==> is_whitespace(#[trigger] s[i]),
        forall|i: int| bounds.1 <= i < s.len() ==> is_whitespace(#[trigger] s[i]),
        bounds.0 < bounds.1 ==> !is_whitespace(s[bounds.0]) && !is_whitespace(s[bounds.1 - 1]),
{
    let a = lemma_trim_start_bound(s);
    let t = s.subrange(a, s.len() as int);
    let c = lemma_trim_end_bound(t);
    assert(t.subrange(0, c) =~= s.subrange(a, a + c));
    assert forall|i: int| a + c <= i < s.len() implies is_whitespace(#[trigger] s[i]) by {
        assert(s[i] == t[i - a]);
    }
    if c > 0 {
        assert(s[a] == t[0]);
        assert(s[a + c - 1] == t[c - 1]);
    }
    (a, a + c)
}

/// A line is split at its first space, which is dropped.
pub proof fn law_split_at_first_space(t: Seq<char>, k: int)
    requires
        0 <= k < t.len(),
        t[k] == ' ',
        forall|j: int| 0 <= j < k ==> t[j] != ' ',
    ensures
        split_once_space(t) == (t.subrange(0, k), t.subrange(k + 1, t.len() as int)),
{
    assert(is_first_space(t, k));
    let c = choose|c: int| is_first_space(t, c);
    assert(c == k) by {
        if c < k {
            assert(t[c] != ' ');
        } else if k < c {
            assert(t[k] != ' ');
        }
    }
}

/// A line without a space is all keyword, with an empty text.
pub proof fn law_split_without_space(t: Seq<char>)
    requires
        forall|j: int| 0 <= j < t.len() ==> t[j] != ' ',
    ensures
        split_once_space(t) == (t, Seq::<char>::empty()),
{
}

/// The six keywords of the helper are the known ones, and no other word is.
pub proof fn law_known_keywords(prefix: Seq<char>)
    ensures
        is_known_prefix(prefix) <==> (prefix == "PAM_PROMPT_ECHO_OFF"@ || prefix
            == "PAM_PROMPT_ECHO_ON"@ || prefix == "PAM_ERROR_MSG"@ || prefix == "PAM_TEXT_INFO"@
            || prefix == "SUCCESS"@ || prefix == "FAILURE"@),
{
}

/// Which event each keyword stands for: a prompt with echo off or on, an
/// error text, an info text, success, failure; a text-bearing event carries
/// the line's text.
pub proof fn law_keyword_events<R>(e: Event<R>, rest: Seq<char>)
    ensures
        e.is_read_from("PAM_PROMPT_ECHO_OFF"@, rest) <==> (e matches Event::Request(s, echo) && !echo
            && s@ == rest),
        e.is_read_from("PAM_PROMPT_ECHO_ON"@, rest) <==> (e matches Event::Request(s, echo) && echo
            && s@ == rest),
        e.is_read_from("PAM_ERROR_MSG"@, rest) <==> (e matches Event::ShowError(s) && s@ == rest),
        e.is_read_from("PAM_TEXT_INFO"@, rest) <==> (e matches Event::ShowDebug(s) && s@ == rest),
        e.is_read_from("SUCCESS"@, rest) <==> (e matches Event::Complete(b) && b),
        e.is_read_from("FAILURE"@, rest) <==> (e matches Event::Complete(b) && !b),
{
    reveal_strlit("PAM_PROMPT_ECHO_OFF");
    reveal_strlit("PAM_PROMPT_ECHO_ON");
    reveal_strlit("PAM_ERROR_MSG");
    reveal_strlit("PAM_TEXT_INFO");
    reveal_strlit("SUCCESS");
    reveal_strlit("FAILURE");
    assert("PAM_ERROR_MSG"@[4] != "PAM_TEXT_INFO"@[4]);
    assert("SUCCESS"@[0] != "FAILURE"@[0]);
    assert("PAM_PROMPT_ECHO_OFF"@.len() != "PAM_PROMPT_ECHO_ON"@.len());
    assert("PAM_PROMPT_ECHO_OFF"@.len() != "PAM_ERROR_MSG"@.len());
    assert("PAM_PROMPT_ECHO_OFF"@.len() != "SUCCESS"@.len());
    assert("PAM_PROMPT_ECHO_ON"@.len() != "PAM_ERROR_MSG"@.len());
    assert("PAM_PROMPT_ECHO_ON"@.len() != "SUCCESS"@.len());
    assert("PAM_ERROR_MSG"@.len() != "SUCCESS"@.len());
}

/// The whitespace trimmed from lines: the ASCII controls tab through carriage
/// return, space, next line, no-break space, ogham space mark, the spaces
/// U+2000 to U+200A, the line and paragraph separators, the narrow no-break
/// and medium mathematical spaces, and the ideographic space. Nothing else.
pub proof fn law_whitespace(c: char)
    ensures
        is_whitespace(c) <==> {
            ||| c == '\t' || c == '\n' || c == '\u{0b}' || c == '\u{0c}' || c == '\r'
            ||| c == ' ' || c == '\u{85}' || c == '\u{a0}' || c == '\u{1680}'
            ||| ('\u{2000}' as u32 <= c as u32 && c as u32 <= '\u{200a}' as u32)
            ||| c == '\u{2028}' || c == '\u{2029}' || c == '\u{202f}' || c == '\u{205f}'
            ||| c == '\u{3000}'
        },
{
}

/// An override names a path exactly when it is given and not empty.
pub proof fn law_override_names_path(runtime: Option<String>, compiled: Option<&str>)
    ensures
        names_path(runtime_view(runtime)) <==> (runtime matches Some(r) && r@.len() > 0),
        names_path(compiled_view(compiled)) <==> (compiled matches Some(c) && c@.len() > 0),
        runtime matches Some(r) ==> runtime_view(runtime) == Some(r@),
        compiled matches Some(c) ==> compiled_view(compiled) == Some(c@),
{
}

/// The candidate picked is one the probe answered yes for, after no for every
/// earlier candidate.
pub proof fn law_first_found<F: Fn(&str) -> bool>(candidates: Seq<&str>, present: F, i: int)
    ensures
        first_found(candidates, present, i) <==> {
            &&& 0 <= i < candidates.len()
            &&& call_ensures(present, (candidates[i],), true)
            &&& forall|j: int| 0 <= j < i ==> call_ensures(present, (candidates[j],), false)
        },
{
}

} // verus!
