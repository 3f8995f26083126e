//! Turning one chat line into a structured command.

use vstd::prelude::*;

verus! {

/// The character that starts every command.
pub const TRIGGER: char = '!';

/// The character that starts a channel name as the transport hands it over.
pub const CHANNEL_SIGIL: char = '#';

/// Who sent a chat line.
pub struct Identity {
    /// Display name of the sender.
    pub name: String,
    /// Numeric id of the sender, when the transport knows it.
    pub user_id: Option<u64>,
    /// Whether the sender owns the channel.
    pub is_owner: bool,
}

/// A parsed `!command`.
pub struct Command<'a> {
    /// The verb, the text right after the trigger.
    pub cmd: &'a str,
    /// The argument: what follows the first space, trimmed; absent when empty.
    pub args: Option<&'a str>,
    /// The whole chat line.
    pub data: &'a str,
    /// The channel without its leading sigil.
    pub channel: &'a str,
    /// The sender.
    pub sender: &'a Identity,
}

/// Whether `c` has the Unicode White_Space property, the set that `str::trim`
/// strips.
pub open spec fn is_blank(c: char) -> bool {
    ('\u{9}' <= c && c <= '\u{D}') || c == ' ' || c == '\u{85}' || c == '\u{A0}' || c
        == '\u{1680}' || ('\u{2000}' <= c && c <= '\u{200A}') || c == '\u{2028}' || c == '\u{2029}'
        || c == '\u{202F}' || c == '\u{205F}' || c == '\u{3000}'
}

/// Number of blank characters at the start of `s`.
pub open spec fn leading_blanks(s: Seq<char>) -> nat
    decreases s.len(),
{
    if s.len() > 0 && is_blank(s[0]) {
        1 + leading_blanks(s.drop_first())
    } else {
        0
    }
}

/// Number of blank characters at the end of `s`.
pub open spec fn trailing_blanks(s: Seq<char>) -> nat
    decreases s.len(),
{
    if s.len() > 0 && is_blank(s.last()) {
        1 + trailing_blanks(s.drop_last())
    } else {
        0
    }
}

/// `s` without its leading and trailing blanks.
pub open spec fn trimmed(s: Seq<char>) -> Seq<char> {
    let t = s.subrange(leading_blanks(s) as int, s.len() as int);
    t.subrange(0, t.len() - trailing_blanks(t))
}

/// Index of the first space in `s`, if any.
pub open spec fn first_space(s: Seq<char>) -> Option<nat>
    decreases s.len(),
{
    if s.len() == 0 {
        None
    } else if s[0] == ' ' {
        Some(0)
    } else {
        match first_space(s.drop_first()) {
            Some(i) => Some(i + 1),
            None => None,
        }
    }
}

/// The text before the first space (all of `s` when there is none).
pub open spec fn head_part(s: Seq<char>) -> Seq<char> {
    match first_space(s) {
        Some(i) => s.subrange(0, i as int),
        None => s,
    }
}

/// The text after the first space, if there is one.
pub open spec fn tail_part(s: Seq<char>) -> Option<Seq<char>> {
    match first_space(s) {
        Some(i) => Some(s.subrange(i + 1 as int, s.len() as int)),
        None => None,
    }
}

/// Trimmed text, absent when nothing is left.
pub open spec fn non_blank(s: Seq<char>) -> Option<Seq<char>> {
    if trimmed(s).len() == 0 {
        None
    } else {
        Some(trimmed(s))
    }
}

/// The pieces of `s` around its first space, trimmed, without the empty ones.
pub open spec fn word_and_rest(s: Seq<char>) -> Seq<Seq<char>> {
    let first = match non_blank(head_part(s)) {
        Some(h) => seq![h],
        None => Seq::empty(),
    };
    let second = match tail_part(s) {
        Some(t) => match non_blank(t) {
            Some(u) => seq![u],
            None => Seq::empty(),
        },
        None => Seq::empty(),
    };
    first + second
}

/// Splits `s` into a first word and an optional rest.
pub open spec fn split_spec(s: Seq<char>) -> Option<(Seq<char>, Option<Seq<char>>)> {
    let parts = word_and_rest(s);
    if parts.len() == 0 {
        None
    } else if parts.len() == 1 {
        Some((parts[0], None))
    } else {
        Some((parts[0], Some(parts[1])))
    }
}

proof fn lemma_leading_blanks_exact(s: Seq<char>, k: nat)
    requires
        k <= s.len(),
        forall|i: int| 0 <= i < k ==> is_blank(#[trigger] s[i]),
        k < s.len() ==> !is_blank(s[k as int]),
    ensures
        leading_blanks(s) == k,
    decreases s.len(),
{
    if k > 0 {
        assert(is_blank(s[0]));
        let t = s.drop_first();
        assert forall|i: int| 0 <= i < k - 1 implies is_blank(#[trigger] t[i]) by {
            assert(t[i] == s[i + 1]);
        }
        if k - 1 < t.len() {
            assert(t[k - 1] == s[k as int]);
        }
        lemma_leading_blanks_exact(t, (k - 1) as nat);
    }
}

proof fn lemma_trailing_blanks_exact(s: Seq<char>, k: nat)
    requires
        k <= s.len(),
        forall|i: int| s.len() - k <= i < s.len() ==> is_blank(#[trigger] s[i]),
        k < s.len() ==> !is_blank(s[s.len() - 1 - k]),
    ensures
        trailing_blanks(s) == k,
    decreases s.len(),
{
    if k > 0 {
        assert(is_blank(s[s.len() - 1]));
        let t = s.drop_last();
        assert forall|i: int| t.len() - (k - 1) <= i < t.len() implies is_blank(#[trigger] t[i]) by {
            assert(t[i] == s[i]);
        }
        if k - 1 < t.len() {
            assert(t[t.len() - 1 - (k - 1)] == s[s.len() - 1 - k]);
        }
        lemma_trailing_blanks_exact(t, (k - 1) as nat);
    }
}

fn char_is_blank(c: char) -> (r: bool)
    ensures
        r == is_blank(c),
{
    ('\u{9}' <= c && c <= '\u{D}') || c == ' ' || c == '\u{85}' || c == '\u{A0}' || c
        == '\u{1680}' || ('\u{2000}' <= c && c <= '\u{200A}') || c == '\u{2028}' || c == '\u{2029}'
        || c == '\u{202F}' || c == '\u{205F}' || c == '\u{3000}'
}

/// `s` without leading and trailing blanks.
pub fn trim_blanks(s: &str) -> (r: &str)
    ensures
        r@ == trimmed(s@),
{
    let n = s.unicode_len();
    let mut start: usize = 0;
    while start < n && char_is_blank(s.get_char(start))
        invariant
            n == s@.len(),
            start <= n,
            forall|i: int| 0 <= i < start ==> is_blank(#[trigger] s@[i]),
        decreases n - start,
    {
        start = start + 1;
    }
    proof {
        lemma_leading_blanks_exact(s@, start as nat);
    }
    let mut end: usize = n;
    while end > start && char_is_blank(s.get_char(end - 1))
        invariant
            n == s@.len(),
            start <= end <= n,
            forall|i: int| end <= i < n ==> is_blank(#[trigger] s@[i]),
        decreases end - start,
    {
        end = end - 1;
    }
    proof {
        let t = s@.subrange(start as int, n as int);
        assert forall|i: int| t.len() - (n - end) <= i < t.len() implies is_blank(#[trigger] t[i]) by {
            assert(t[i] == s@[start + i]);
        }
        if n - end < t.len() {
            assert(t[t.len() - 1 - (n - end)] == s@[end - 1]);
        }
        lemma_trailing_blanks_exact(t, (n - end) as nat);
        assert(s@.subrange(start as int, end as int) =~= trimmed(s@));
    }
    s.substring_char(start, end)
}

proof fn lemma_first_space_found(s: Seq<char>, k: nat)
    requires
        k < s.len(),
        s[k as int] == ' ',
        forall|i: int| 0 <= i < k ==> s[i] != ' ',
    ensures
        first_space(s) == Some(k),
    decreases k,
{
    if k > 0 {
        let t = s.drop_first();
        assert forall|i: int| 0 <= i < k - 1 implies t[i] != ' ' by {
            assert(t[i] == s[i + 1]);
        }
        lemma_first_space_found(t, (k - 1) as nat);
    }
}

proof fn lemma_first_space_none(s: Seq<char>)
    requires
        forall|i: int| 0 <= i < s.len() ==> s[i] != ' ',
    ensures
        first_space(s) is None,
    decreases s.len(),
{
    if s.len() > 0 {
        let t = s.drop_first();
        assert forall|i: int| 0 <= i < t.len() implies t[i] != ' ' by {
            assert(t[i] == s[i + 1]);
        }
        lemma_first_space_none(t);
    }
}

/// Index of the first space of `s`, if any.
fn find_space(s: &str) -> (r: Option<usize>)
    ensures
        match r {
            Some(i) => first_space(s@) == Some(i as nat) && i < s@.len(),
            None => first_space(s@) is None,
        },
{
    let n = s.unicode_len();
    let mut i: usize = 0;
    while i < n
        invariant
            n == s@.len(),
            i <= n,
            forall|j: int| 0 <= j < i ==> s@[j] != ' ',
        decreases n - i,
    {
        if s.get_char(i) == ' ' {
            proof {
                lemma_first_space_found(s@, i as nat);
            }
            return Some(i);
        }
        i = i + 1;
    }
    proof {
        lemma_first_space_none(s@);
    }
    None
}

/// Splits `data` on its first space into two trimmed pieces and drops the
/// empty ones: the first that is left, and the one after it if any.
pub fn split_user_cmd(data: &str) -> (r: Option<(&str, Option<&str>)>)
    ensures
        match r {
            Some((a, b)) => split_spec(data@) == Some((a@, match b {
                Some(x) => Some(x@),
                None => None,
            })),
            None => split_spec(data@) is None,
        },
{
    let n = data.unicode_len();
    let (head, tail): (&str, Option<&str>) = match find_space(data) {
        Some(i) => (data.substring_char(0, i), Some(data.substring_char(i + 1, n))),
        None => (data, None),
    };
    let head = trim_blanks(head);
    let tail = match tail {
        Some(t) => {
            let t = trim_blanks(t);
            if t.unicode_len() == 0 {
                None
            } else {
                Some(t)
            }
        },
        None => None,
    };
    proof {
        assert(head@ == trimmed(head_part(data@)));
        assert(tail_part(data@) is Some ==> (tail matches Some(t) ==> t@ == trimmed(
            tail_part(data@)->0,
        )));
    }
    if head.unicode_len() == 0 {
        match tail {
            Some(t) => {
                proof {
                    assert(word_and_rest(data@) =~= seq![t@]);
                }
                Some((t, None))
            },
            None => {
                proof {
                    assert(word_and_rest(data@) =~= Seq::<Seq<char>>::empty());
                }
                None
            },
        }
    } else {
        match tail {
            Some(t) => {
                proof {
                    assert(word_and_rest(data@) =~= seq![head@, t@]);
                }
                Some((head, Some(t)))
            },
            None => {
                proof {
                    assert(word_and_rest(data@) =~= seq![head@]);
                }
                Some((head, None))
            },
        }
    }
}

/// The channel name without its leading sigil.
pub open spec fn normalized_channel(channel: Seq<char>) -> Seq<char> {
    if channel.len() > 0 && channel[0] == CHANNEL_SIGIL {
        channel.drop_first()
    } else {
        channel
    }
}

/// Whether `data` is a command line: the trigger followed by at least one character.
pub open spec fn is_command_line(data: Seq<char>) -> bool {
    data.len() > 1 && data[0] == TRIGGER
}

/// The verb of a command line: what follows the trigger, up to the first space.
pub open spec fn verb_of(data: Seq<char>) -> Seq<char> {
    head_part(data.drop_first())
}

/// The argument of a command line: what follows the first space, trimmed,
/// absent when nothing is left.
pub open spec fn argument_of(data: Seq<char>) -> Option<Seq<char>> {
    match tail_part(data.drop_first()) {
        Some(t) => non_blank(t),
        None => None,
    }
}

pub open spec fn opt_view(o: Option<&str>) -> Option<Seq<char>> {
    match o {
        Some(s) => Some(s@),
        None => None,
    }
}

fn strip_sigil(channel: &str) -> (r: &str)
    ensures
        r@ == normalized_channel(channel@),
{
    let n = channel.unicode_len();
    if n > 0 && channel.get_char(0) == CHANNEL_SIGIL {
        proof {
            assert(channel@.subrange(1, n as int) =~= channel@.drop_first());
        }
        channel.substring_char(1, n)
    } else {
        channel
    }
}

impl<'a> Command<'a> {
    /// Parses a chat line sent by `sender` on `channel`; `None` when the line
    /// is not a command.
    pub fn parse(data: &'a str, channel: &'a str, sender: &'a Identity) -> (r: Option<Command<'a>>)
        ensures
            r is Some <==> is_command_line(data@),
            r matches Some(c) ==> {
                &&& c.cmd@ == verb_of(data@)
                &&& opt_view(c.args) == argument_of(data@)
                &&& c.data@ == data@
                &&& c.channel@ == normalized_channel(channel@)
                &&& c.sender == sender
            },
    {
        let n = data.unicode_len();
        if n < 2 || data.get_char(0) != TRIGGER {
            return None;
        }
        let rest = data.substring_char(1, n);
        proof {
            assert(rest@ =~= data@.drop_first());
        }
        let m = rest.unicode_len();
        let (cmd, args): (&str, Option<&str>) = match find_space(rest) {
            Some(i) => {
                let t = trim_blanks(rest.substring_char(i + 1, m));
                if t.unicode_len() == 0 {
                    (rest.substring_char(0, i), None)
                } else {
                    (rest.substring_char(0, i), Some(t))
                }
            },
            None => (rest, None),
        };
        Some(Command { cmd, args, data, channel: strip_sigil(channel), sender })
    }
}

} // verus!
