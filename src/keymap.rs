//! The keymap notation: a description of keystrokes, read left to right.
//!
//! - A printable character outside braces is typed as that character.
//! - `{NAME}` presses and releases a named key, `{+NAME}` holds it down and
//!   `{-NAME}` lets it go, so `{+SHIFT}ab{-SHIFT}` types both letters with
//!   shift held.
//! - `{PAUSE}` waits `PAUSE_MS` milliseconds.
//! - `{{` and `}}` type a literal brace.
//! - Whitespace outside braces only separates; type a space with `{SPACE}`.
use vstd::prelude::*;

verus! {

/// Length of the pause that `{PAUSE}` stands for, in milliseconds.
pub const PAUSE_MS: u64 = 100;

/// A key that has a name in the notation.
#[derive(Clone, Copy, Debug, PartialEq, Eq, Structural)]
pub enum NamedKey {
    Alt,
    Backspace,
    CapsLock,
    Control,
    Delete,
    DownArrow,
    End,
    Escape,
    Home,
    LeftArrow,
    Meta,
    PageDown,
    PageUp,
    Return,
    RightArrow,
    Shift,
    Space,
    Tab,
    UpArrow,
}

#[derive(Clone, Copy, Debug, PartialEq, Eq, Structural)]
pub enum Key {
    /// The key that types this character.
    Char(char),
    Named(NamedKey),
}

/// One step of synthetic input.
#[derive(Clone, Copy, Debug, PartialEq, Eq, Structural)]
pub enum KeyAction {
    Click(Key),
    Down(Key),
    Up(Key),
    /// Wait `PAUSE_MS` milliseconds.
    Pause,
}

#[derive(Clone, Copy, Debug, PartialEq, Eq, Structural)]
pub enum KeymapErrorKind {
    /// A tag names no key.
    UnknownKey,
    /// `{}`.
    EmptyTag,
    /// A `{` that no `}` closes.
    UnmatchedOpen,
    /// A `}` that no `{` opened and that is not doubled.
    UnmatchedClose,
}

/// What is wrong with a description, and where: the offending token spans
/// the characters `start..end`.
#[derive(Clone, Copy, Debug, PartialEq, Eq, Structural)]
pub struct KeymapError {
    pub kind: KeymapErrorKind,
    pub start: usize,
    pub end: usize,
}

pub open spec fn is_separator(c: char) -> bool {
    c == ' ' || c == '\t' || c == '\n' || c == '\r'
}

/// The key a name stands for.
pub open spec fn named_key(t: Seq<char>) -> Option<NamedKey> {
    if t == "ALT"@ {
        Some(NamedKey::Alt)
    } else if t == "BACKSPACE"@ {
        Some(NamedKey::Backspace)
    } else if t == "CAPSLOCK"@ {
        Some(NamedKey::CapsLock)
    } else if t == "CONTROL"@ {
        Some(NamedKey::Control)
    } else if t == "DELETE"@ {
        Some(NamedKey::Delete)
    } else if t == "DOWN"@ {
        Some(NamedKey::DownArrow)
    } else if t == "END"@ {
        Some(NamedKey::End)
    } else if t == "ESCAPE"@ {
        Some(NamedKey::Escape)
    } else if t == "HOME"@ {
        Some(NamedKey::Home)
    } else if t == "LEFT"@ {
        Some(NamedKey::LeftArrow)
    } else if t == "META"@ {
        Some(NamedKey::Meta)
    } else if t == "PAGEDOWN"@ {
        Some(NamedKey::PageDown)
    } else if t == "PAGEUP"@ {
        Some(NamedKey::PageUp)
    } else if t == "RETURN"@ {
        Some(NamedKey::Return)
    } else if t == "RIGHT"@ {
        Some(NamedKey::RightArrow)
    } else if t == "SHIFT"@ {
        Some(NamedKey::Shift)
    } else if t == "SPACE"@ {
        Some(NamedKey::Space)
    } else if t == "TAB"@ {
        Some(NamedKey::Tab)
    } else if t == "UP"@ {
        Some(NamedKey::UpArrow)
    } else {
        None
    }
}

/// The action that the text between a pair of braces stands for.
pub open spec fn tag_action(t: Seq<char>) -> Option<KeyAction> {
    if t == "PAUSE"@ {
        Some(KeyAction::Pause)
    } else if t.len() > 0 && (t[0] == '+' || t[0] == '-') {
        match named_key(t.drop_first()) {
            Some(k) => Some(
                if t[0] == '+' {
                    KeyAction::Down(Key::Named(k))
                } else {
                    KeyAction::Up(Key::Named(k))
                },
            ),
            None => None,
        }
    } else {
        match named_key(t) {
            Some(k) => Some(KeyAction::Click(Key::Named(k))),
            None => None,
        }
    }
}

pub open spec fn prepend(
    a: KeyAction,
    r: Result<Seq<KeyAction>, KeymapError>,
) -> Result<Seq<KeyAction>, KeymapError> {
    match r {
        Ok(v) => Ok(seq![a] + v),
        Err(e) => Err(e),
    }
}

pub open spec fn keymap_error(kind: KeymapErrorKind, start: int, end: int) -> KeymapError {
    KeymapError { kind, start: start as usize, end: end as usize }
}

/// The actions that `s` describes from position `i` on, where `open` holds
/// the position of a `{` whose tag is being read.
pub open spec fn eval_from(s: Seq<char>, i: nat, open: Option<usize>) -> Result<
    Seq<KeyAction>,
    KeymapError,
>
    decreases s.len() - i,
{
    if i >= s.len() {
        match open {
            Some(st) => Err(keymap_error(KeymapErrorKind::UnmatchedOpen, st as int, s.len() as int)),
            None => Ok(seq![]),
        }
    } else {
        let c = s[i as int];
        match open {
            Some(st) => if c == '}' {
                let tag = s.subrange(st + 1, i as int);
                if tag.len() == 0 {
                    Err(keymap_error(KeymapErrorKind::EmptyTag, st as int, i as int + 1))
                } else {
                    match tag_action(tag) {
                        Some(a) => prepend(a, eval_from(s, i + 1, None)),
                        None => Err(keymap_error(KeymapErrorKind::UnknownKey, st as int, i as int + 1)),
                    }
                }
            } else {
                eval_from(s, i + 1, open)
            },
            None => if is_separator(c) {
                eval_from(s, i + 1, None)
            } else if c == '{' {
                if i + 1 < s.len() && s[i as int + 1] == '{' {
                    prepend(KeyAction::Click(Key::Char('{')), eval_from(s, i + 2, None))
                } else {
                    eval_from(s, i + 1, Some(i as usize))
                }
            } else if c == '}' {
                if i + 1 < s.len() && s[i as int + 1] == '}' {
                    prepend(KeyAction::Click(Key::Char('}')), eval_from(s, i + 2, None))
                } else {
                    Err(keymap_error(KeymapErrorKind::UnmatchedClose, i as int, i as int + 1))
                }
            } else {
                prepend(KeyAction::Click(Key::Char(c)), eval_from(s, i + 1, None))
            },
        }
    }
}

/// The actions a description stands for, or the first error in it.
pub open spec fn keymap_actions(s: Seq<char>) -> Result<Seq<KeyAction>, KeymapError> {
    eval_from(s, 0, None)
}

spec fn join(
    acc: Seq<KeyAction>,
    r: Result<Seq<KeyAction>, KeymapError>,
) -> Result<Seq<KeyAction>, KeymapError> {
    match r {
        Ok(v) => Ok(acc + v),
        Err(e) => Err(e),
    }
}

proof fn lemma_join_push(acc: Seq<KeyAction>, a: KeyAction, r: Result<Seq<KeyAction>, KeymapError>)
    ensures
        join(acc.push(a), r) == join(acc, prepend(a, r)),
{
    if let Ok(v) = r {
        assert(acc.push(a) + v =~= acc + (seq![a] + v));
    }
}

pub(crate) fn chars_of(s: &str) -> (r: Vec<char>)
    ensures
        r@ == s@,
{
    let n = s.unicode_len();
    let mut r: Vec<char> = Vec::new();
    let mut i: usize = 0;
    while i < n
        invariant
            n == s@.len(),
            i <= n,
            r@ == s@.subrange(0, i as int),
        decreases n - i,
    {
        r.push(s.get_char(i));
        i = i + 1;
    }
    assert(r@ =~= s@);
    r
}

/// Whether `chars[lo..hi]` spells `name`.
fn spells(chars: &Vec<char>, lo: usize, hi: usize, name: &str) -> (r: bool)
    requires
        lo <= hi <= chars@.len(),
    ensures
        r == (chars@.subrange(lo as int, hi as int) == name@),
{
    let n = name.unicode_len();
    if hi - lo != n {
        return false;
    }
    let mut k: usize = 0;
    while k < n
        invariant
            n == name@.len(),
            hi - lo == n,
            lo <= hi <= chars@.len(),
            k <= n,
            chars@.subrange(lo as int, lo + k) == name@.subrange(0, k as int),
        decreases n - k,
    {
        if chars[lo + k] != name.get_char(k) {
            assert(chars@.subrange(lo as int, hi as int)[k as int] != name@[k as int]);
            return false;
        }
        assert(chars@.subrange(lo as int, lo + k + 1) =~= chars@.subrange(lo as int, lo + k).push(
            chars@[lo + k],
        ));
        assert(name@.subrange(0, k + 1) =~= name@.subrange(0, k as int).push(name@[k as int]));
        k = k + 1;
    }
    assert(name@.subrange(0, n as int) =~= name@);
    true
}

fn lookup_named_key(chars: &Vec<char>, lo: usize, hi: usize) -> (r: Option<NamedKey>)
    requires
        lo <= hi <= chars@.len(),
    ensures
        r == named_key(chars@.subrange(lo as int, hi as int)),
{
    if spells(chars, lo, hi, "ALT") {
        Some(NamedKey::Alt)
    } else if spells(chars, lo, hi, "BACKSPACE") {
        Some(NamedKey::Backspace)
    } else if spells(chars, lo, hi, "CAPSLOCK") {
        Some(NamedKey::CapsLock)
    } else if spells(chars, lo, hi, "CONTROL") {
        Some(NamedKey::Control)
    } else if spells(chars, lo, hi, "DELETE") {
        Some(NamedKey::Delete)
    } else if spells(chars, lo, hi, "DOWN") {
        Some(NamedKey::DownArrow)
    } else if spells(chars, lo, hi, "END") {
        Some(NamedKey::End)
    } else if spells(chars, lo, hi, "ESCAPE") {
        Some(NamedKey::Escape)
    } else if spells(chars, lo, hi, "HOME") {
        Some(NamedKey::Home)
    } else if spells(chars, lo, hi, "LEFT") {
        Some(NamedKey::LeftArrow)
    } else if spells(chars, lo, hi, "META") {
        Some(NamedKey::Meta)
    } else if spells(chars, lo, hi, "PAGEDOWN") {
        Some(NamedKey::PageDown)
    } else if spells(chars, lo, hi, "PAGEUP") {
        Some(NamedKey::PageUp)
    } else if spells(chars, lo, hi, "RETURN") {
        Some(NamedKey::Return)
    } else if spells(chars, lo, hi, "RIGHT") {
        Some(NamedKey::RightArrow)
    } else if spells(chars, lo, hi, "SHIFT") {
        Some(NamedKey::Shift)
    } else if spells(chars, lo, hi, "SPACE") {
        Some(NamedKey::Space)
    } else if spells(chars, lo, hi, "TAB") {
        Some(NamedKey::Tab)
    } else if spells(chars, lo, hi, "UP") {
        Some(NamedKey::UpArrow)
    } else {
        None
    }
}

fn parse_tag(chars: &Vec<char>, lo: usize, hi: usize) -> (r: Option<KeyAction>)
    requires
        lo < hi <= chars@.len(),
    ensures
        r == tag_action(chars@.subrange(lo as int, hi as int)),
{
    let ghost t = chars@.subrange(lo as int, hi as int);
    if spells(chars, lo, hi, "PAUSE") {
        return Some(KeyAction::Pause);
    }
    let first = chars[lo];
    if first == '+' || first == '-' {
        assert(chars@.subrange(lo + 1, hi as int) =~= t.drop_first());
        match lookup_named_key(chars, lo + 1, hi) {
            Some(k) => Some(
                if first == '+' {
                    KeyAction::Down(Key::Named(k))
                } else {
                    KeyAction::Up(Key::Named(k))
                },
            ),
            None => None,
        }
    } else {
        match lookup_named_key(chars, lo, hi) {
            Some(k) => Some(KeyAction::Click(Key::Named(k))),
            None => None,
        }
    }
}

/// Turns a keymap description into the actions it stands for, or
/// reports the first malformed token.
pub fn evaluate(description: &str) -> (r: Result<Vec<KeyAction>, KeymapError>)
    ensures
        match r {
            Ok(v) => keymap_actions(description@) == Ok::<Seq<KeyAction>, KeymapError>(v@),
            Err(e) => keymap_actions(description@) == Err::<Seq<KeyAction>, KeymapError>(e),
        },
{
    let chars = chars_of(description);
    let n = chars.len();
    let mut out: Vec<KeyAction> = Vec::new();
    let mut open: Option<usize> = None;
    let mut i: usize = 0;
    assert(out@ + seq![] =~= out@) by {
        assert(out@ =~= Seq::<KeyAction>::empty());
    }
    while i < n
        invariant
            n == chars@.len(),
            chars@ == description@,
            i <= n,
            open matches Some(st) ==> st < i,
            keymap_actions(chars@) == join(out@, eval_from(chars@, i as nat, open)),
        decreases n - i,
    {
        let c = chars[i];
        match open {
            Some(st) => {
                if c == '}' {
                    if st + 1 == i {
                        return Err(KeymapError { kind: KeymapErrorKind::EmptyTag, start: st, end: i + 1 });
                    }
                    match parse_tag(&chars, st + 1, i) {
                        Some(a) => {
                            proof {
                                lemma_join_push(out@, a, eval_from(chars@, (i + 1) as nat, None));
                            }
                            out.push(a);
                            open = None;
                        },
                        None => {
                            return Err(KeymapError { kind: KeymapErrorKind::UnknownKey, start: st, end: i + 1 });
                        },
                    }
                }
                i = i + 1;
            },
            None => {
                if is_space(c) {
                    i = i + 1;
                } else if c == '{' {
                    if i + 1 < n && chars[i + 1] == '{' {
                        let a = KeyAction::Click(Key::Char('{'));
                        proof {
                            lemma_join_push(out@, a, eval_from(chars@, (i + 2) as nat, None));
                        }
                        out.push(a);
                        i = i + 2;
                    } else {
                        open = Some(i);
                        i = i + 1;
                    }
                } else if c == '}' {
                    if i + 1 < n && chars[i + 1] == '}' {
                        let a = KeyAction::Click(Key::Char('}'));
                        proof {
                            lemma_join_push(out@, a, eval_from(chars@, (i + 2) as nat, None));
                        }
                        out.push(a);
                        i = i + 2;
                    } else {
                        return Err(KeymapError { kind: KeymapErrorKind::UnmatchedClose, start: i, end: i + 1 });
                    }
                } else {
                    let a = KeyAction::Click(Key::Char(c));
                    proof {
                        lemma_join_push(out@, a, eval_from(chars@, (i + 1) as nat, None));
                    }
                    out.push(a);
                    i = i + 1;
                }
            },
        }
    }
    match open {
        Some(st) => Err(KeymapError { kind: KeymapErrorKind::UnmatchedOpen, start: st, end: n }),
        None => {
            assert(out@ + seq![] =~= out@);
            Ok(out)
        },
    }
}

fn is_space(c: char) -> (r: bool)
    ensures
        r == is_separator(c),
{
    c == ' ' || c == '\t' || c == '\n' || c == '\r'
}

} // verus!
