//! Pure helpers for the terminal tools: AppleScript string escaping and the
//! mapping from a letter to an ASCII control character.

use vstd::prelude::*;
use crate::text::{chars_to_string, str_chars};

verus! {

/// How one character is escaped for AppleScript: backslashes and double
/// quotes get a leading backslash, every other character stands unchanged.
pub open spec fn spec_escaped_char(c: char) -> Seq<char> {
    if c == '\\' {
        seq!['\\', '\\']
    } else if c == '"' {
        seq!['\\', '"']
    } else {
        seq![c]
    }
}

/// A string escaped for AppleScript, character by character.
pub open spec fn spec_escape_applescript(s: Seq<char>) -> Seq<char> {
    s.flat_map(|c: char| spec_escaped_char(c))
}

/// Escape the characters for AppleScript.
pub fn escape_chars(v: &Vec<char>) -> (r: Vec<char>)
    ensures
        r@ == spec_escape_applescript(v@),
{
    let mut out: Vec<char> = Vec::new();
    let mut i: usize = 0;
    proof {
        assert(v@.take(0) =~= Seq::<char>::empty());
        assert(out@ =~= spec_escape_applescript(v@.take(0)));
    }
    while i < v.len()
        invariant
            i <= v@.len(),
            out@ == spec_escape_applescript(v@.take(i as int)),
        decreases v@.len() - i,
    {
        let c = v[i];
        if c == '\\' {
            out.push('\\');
            out.push('\\');
        } else if c == '"' {
            out.push('\\');
            out.push('"');
        } else {
            out.push(c);
        }
        proof {
            v@.take(i as int).lemma_flat_map_push(|cc: char| spec_escaped_char(cc), v@[i as int]);
            assert(v@.take(i + 1) =~= v@.take(i as int).push(v@[i as int]));
            assert(out@ =~= spec_escape_applescript(v@.take(i + 1)));
        }
        i = i + 1;
    }
    proof {
        assert(v@.take(v@.len() as int) =~= v@);
    }
    out
}

/// Escape a string for safe embedding in AppleScript: backslashes become
/// `\\` and double quotes `\"`.
pub fn escape_applescript_string(input: &str) -> (r: String)
    ensures
        r@ == spec_escape_applescript(input@),
{
    let cs = str_chars(input);
    let escaped = escape_chars(&cs);
    chars_to_string(&escaped)
}

/// Why a letter could not be mapped to a control character.
#[derive(Debug, Clone, PartialEq, Eq, Structural)]
pub enum ControlCharError {
    /// The input was not exactly one character long.
    NotASingleCharacter,
    /// The character has no control-character mapping.
    UnmappableCharacter,
}

/// The control code a single character maps to, if any: the special
/// punctuation mappings of the ASCII control range, and Ctrl-A..Ctrl-Z for
/// letters of either case.
pub open spec fn spec_control_code(c: char) -> Option<u8> {
    if c == '@' {
        Some(0u8)
    } else if c == '[' {
        Some(27u8)
    } else if c == '\\' {
        Some(28u8)
    } else if c == ']' {
        Some(29u8)
    } else if c == '^' {
        Some(30u8)
    } else if c == '_' {
        Some(31u8)
    } else if 'A' <= c && c <= 'Z' {
        Some(((c as int) - 64) as u8)
    } else if 'a' <= c && c <= 'z' {
        Some(((c as int) - 96) as u8)
    } else {
        None
    }
}

/// Convert a one-character string to the ASCII control code it names,
/// case-insensitively: `"C"` and `"c"` both give 3 (Ctrl-C), and the
/// punctuation characters `@ [ \ ] ^ _` give the codes 0 and 27 to 31.
pub fn letter_to_control_char(letter: &str) -> (r: Result<u8, ControlCharError>)
    ensures
        r is Ok <==> (letter@.len() == 1 && spec_control_code(letter@[0]) is Some),
        r is Ok ==> Some(r->Ok_0) == spec_control_code(letter@[0]),
        letter@.len() != 1 ==> r == Result::<u8, ControlCharError>::Err(
            ControlCharError::NotASingleCharacter,
        ),
        letter@.len() == 1 && spec_control_code(letter@[0]) is None ==> r == Result::<
            u8,
            ControlCharError,
        >::Err(ControlCharError::UnmappableCharacter),
{
    if letter.unicode_len() != 1 {
        return Err(ControlCharError::NotASingleCharacter);
    }
    let c = letter.get_char(0);
    if c == '@' {
        Ok(0)
    } else if c == '[' {
        Ok(27)
    } else if c == '\\' {
        Ok(28)
    } else if c == ']' {
        Ok(29)
    } else if c == '^' {
        Ok(30)
    } else if c == '_' {
        Ok(31)
    } else if 'A' <= c && c <= 'Z' {
        Ok(((c as u32) - 64) as u8)
    } else if 'a' <= c && c <= 'z' {
        Ok(((c as u32) - 96) as u8)
    } else {
        Err(ControlCharError::UnmappableCharacter)
    }
}

/// ASCII whitespace, as the trimming of command output treats it.
pub open spec fn is_ascii_ws(c: char) -> bool {
    c == ' ' || c == '\t' || c == '\n' || c == '\r'
}

/// The text with leading ASCII whitespace removed.
pub open spec fn spec_trim_start(s: Seq<char>) -> Seq<char>
    decreases s.len(),
{
    if s.len() > 0 && is_ascii_ws(s[0]) {
        spec_trim_start(s.drop_first())
    } else {
        s
    }
}

/// The text with trailing ASCII whitespace removed.
pub open spec fn spec_trim_end(s: Seq<char>) -> Seq<char>
    decreases s.len(),
{
    if s.len() > 0 && is_ascii_ws(s.last()) {
        spec_trim_end(s.drop_last())
    } else {
        s
    }
}

/// The text with ASCII whitespace removed from both ends.
pub open spec fn spec_trim(s: Seq<char>) -> Seq<char> {
    spec_trim_end(spec_trim_start(s))
}

proof fn lemma_trim_start_skip(s: Seq<char>, i: int)
    requires
        0 <= i <= s.len(),
        forall|k: int| 0 <= k < i ==> is_ascii_ws(#[trigger] s[k]),
        i == s.len() || !is_ascii_ws(s[i]),
    ensures
        spec_trim_start(s) == s.skip(i),
    decreases s.len(),
{
    if i > 0 {
        let t = s.drop_first();
        assert(is_ascii_ws(s[0]));
        assert forall|k: int| 0 <= k < i - 1 implies is_ascii_ws(#[trigger] t[k]) by {
            assert(t[k] == s[k + 1]);
        }
        if i - 1 < t.len() {
            assert(t[i - 1] == s[i]);
        }
        lemma_trim_start_skip(t, i - 1);
        assert(t.skip(i - 1) =~= s.skip(i));
    } else {
        assert(s.skip(0) =~= s);
    }
}

proof fn lemma_trim_end_take(s: Seq<char>, j: int)
    requires
        0 <= j <= s.len(),
        forall|k: int| j <= k < s.len() ==> is_ascii_ws(#[trigger] s[k]),
        j == 0 || !is_ascii_ws(s[j - 1]),
    ensures
        spec_trim_end(s) == s.take(j),
    decreases s.len(),
{
    if j < s.len() {
        let t = s.drop_last();
        assert(is_ascii_ws(s.last()));
        assert forall|k: int| j <= k < t.len() implies is_ascii_ws(#[trigger] t[k]) by {
            assert(t[k] == s[k]);
        }
        if j > 0 {
            assert(t[j - 1] == s[j - 1]);
        }
        lemma_trim_end_take(t, j);
        assert(t.take(j) =~= s.take(j));
    } else {
        assert(s.take(j) =~= s);
    }
}

fn is_ascii_ws_exec(c: char) -> (r: bool)
    ensures
        r == is_ascii_ws(c),
{
    c == ' ' || c == '\t' || c == '\n' || c == '\r'
}

/// The string with ASCII whitespace removed from both ends.
pub fn trim_ascii_whitespace(input: &str) -> (r: String)
    ensures
        r@ == spec_trim(input@),
{
    let cs = str_chars(input);
    let n = cs.len();
    let mut i: usize = 0;
    while i < n && is_ascii_ws_exec(cs[i])
        invariant
            n == cs@.len(),
            i <= n,
            forall|k: int| 0 <= k < i ==> is_ascii_ws(#[trigger] cs@[k]),
        decreases n - i,
    {
        i = i + 1;
    }
    proof {
        lemma_trim_start_skip(cs@, i as int);
    }
    let ghost mid = cs@.skip(i as int);
    let mut j: usize = n;
    while j > i && is_ascii_ws_exec(cs[j - 1])
        invariant
            n == cs@.len(),
            i <= j <= n,
            forall|k: int| j <= k < n ==> is_ascii_ws(#[trigger] cs@[k]),
        decreases j,
    {
        j = j - 1;
    }
    proof {
        assert forall|k: int| j - i <= k < mid.len() implies is_ascii_ws(#[trigger] mid[k]) by {
            assert(mid[k] == cs@[i + k]);
        }
        if j > i {
            assert(mid[j - i - 1] == cs@[j - 1]);
        }
        lemma_trim_end_take(mid, j - i);
    }
    let mut out: Vec<char> = Vec::new();
    let mut k: usize = i;
    while k < j
        invariant
            n == cs@.len(),
            i <= k <= j <= n,
            out@ == cs@.subrange(i as int, k as int),
        decreases j - k,
    {
        out.push(cs[k]);
        k = k + 1;
        proof {
            assert(out@ =~= cs@.subrange(i as int, k as int));
        }
    }
    proof {
        assert(out@ =~= mid.take(j - i));
    }
    chars_to_string(&out)
}

/// Why the scripting system's answer named no usable device.
#[derive(Debug, Clone, PartialEq, Eq, Structural)]
pub enum TtyOutputError {
    /// The trimmed output was empty.
    Empty,
    /// The output says the caller has no terminal.
    NotATty,
}

/// Interpret what the `tty` command printed: its output trimmed of
/// whitespace is the device path, unless it is empty or reads `not a tty`.
pub fn parse_tty_output(raw: &str) -> (r: Result<String, TtyOutputError>)
    ensures
        spec_trim(raw@).len() == 0 ==> r == Result::<String, TtyOutputError>::Err(
            TtyOutputError::Empty,
        ),
        spec_trim(raw@) == "not a tty"@ ==> r == Result::<String, TtyOutputError>::Err(
            TtyOutputError::NotATty,
        ),
        spec_trim(raw@).len() != 0 && spec_trim(raw@) != "not a tty"@ ==> (r matches Ok(path)
            && path@ == spec_trim(raw@)),
{
    let trimmed = trim_ascii_whitespace(raw);
    if trimmed.as_str().is_empty() {
        proof {
            reveal_strlit("not a tty");
        }
        return Result::Err(TtyOutputError::Empty);
    }
    let marker = "not a tty".to_owned();
    if trimmed == marker {
        return Result::Err(TtyOutputError::NotATty);
    }
    Result::Ok(trimmed)
}

} // verus!
