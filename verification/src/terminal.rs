//! The pure parts of the terminal backends: post-processing of captured
//! terminal output (ANSI stripping, taking the last lines), the state and
//! validation of the control-character sender, and the command executor that
//! drives a script runner.

use vstd::prelude::*;
use vstd::string::*;
use crate::applescript::{spec_escape, OsascriptRunner};
use crate::text::{chars_to_string, spec_split, split_chars, str_chars};
use crate::utilities::{letter_to_control_char, spec_control_code};

verus! {

/// The escape character that opens an ANSI control sequence.
pub open spec fn spec_esc() -> char {
    '\u{1b}'
}

/// Parameter characters of an ANSI control sequence: digits and semicolons.
pub open spec fn is_param_char(c: char) -> bool {
    ('0' <= c && c <= '9') || c == ';'
}

/// The ASCII letter that closes an ANSI control sequence.
pub open spec fn is_final_letter(c: char) -> bool {
    ('a' <= c && c <= 'z') || ('A' <= c && c <= 'Z')
}

/// Length of the leading run of parameter characters.
pub open spec fn spec_param_run(s: Seq<char>) -> int
    decreases s.len(),
{
    if s.len() > 0 && is_param_char(s[0]) {
        1 + spec_param_run(s.drop_first())
    } else {
        0
    }
}

/// The parameter run is an in-range prefix of parameter characters, ended by
/// the first non-parameter character.
pub proof fn lemma_param_run(s: Seq<char>)
    ensures
        0 <= spec_param_run(s) <= s.len(),
        forall|k: int| 0 <= k < spec_param_run(s) ==> is_param_char(#[trigger] s[k]),
        spec_param_run(s) < s.len() ==> !is_param_char(s[spec_param_run(s)]),
    decreases s.len(),
{
    if s.len() > 0 && is_param_char(s[0]) {
        let t = s.drop_first();
        lemma_param_run(t);
        assert forall|k: int| 0 <= k < spec_param_run(s) implies is_param_char(
            #[trigger] s[k],
        ) by {
            if k > 0 {
                assert(s[k] == t[k - 1]);
            }
        }
        if spec_param_run(s) < s.len() {
            assert(s[spec_param_run(s)] == t[spec_param_run(t)]);
        }
    }
}

/// Conversely: a prefix of parameter characters ended by a non-parameter
/// character (or the end) is the parameter run.
pub proof fn lemma_param_run_is(s: Seq<char>, m: int)
    requires
        0 <= m <= s.len(),
        forall|k: int| 0 <= k < m ==> is_param_char(#[trigger] s[k]),
        m == s.len() || !is_param_char(s[m]),
    ensures
        spec_param_run(s) == m,
    decreases s.len(),
{
    if m > 0 {
        let t = s.drop_first();
        assert(is_param_char(s[0]));
        assert forall|k: int| 0 <= k < m - 1 implies is_param_char(#[trigger] t[k]) by {
            assert(t[k] == s[k + 1]);
        }
        if m - 1 < t.len() {
            assert(t[m - 1] == s[m]);
        }
        lemma_param_run_is(t, m - 1);
    } else {
        if s.len() > 0 {
            assert(!is_param_char(s[0]));
        }
    }
}

/// Whether an ANSI control sequence starts at the first character: the
/// escape character, `[`, a run of digits and semicolons, and an ASCII
/// letter.
pub open spec fn spec_ansi_match(s: Seq<char>) -> bool {
    &&& s.len() >= 2
    &&& s[0] == spec_esc()
    &&& s[1] == '['
    &&& ({
        let r = spec_param_run(s.skip(2));
        2 + r < s.len() && is_final_letter(s[2 + r])
    })
}

/// Length of the ANSI control sequence starting at the first character,
/// meaningful when one matches.
pub open spec fn spec_ansi_len(s: Seq<char>) -> int {
    3 + spec_param_run(s.skip(2))
}

/// Text with every ANSI control sequence removed, scanning left to right:
/// wherever a sequence starts it is dropped whole and the scan continues
/// after it; every other character stays.
pub open spec fn spec_strip_ansi(s: Seq<char>) -> Seq<char>
    decreases s.len(),
    via spec_strip_ansi_decreases
{
    if s.len() == 0 {
        Seq::<char>::empty()
    } else if spec_ansi_match(s) {
        spec_strip_ansi(s.skip(spec_ansi_len(s)))
    } else {
        seq![s[0]] + spec_strip_ansi(s.drop_first())
    }
}

#[via_fn]
proof fn spec_strip_ansi_decreases(s: Seq<char>) {
    if s.len() > 0 && spec_ansi_match(s) {
        lemma_param_run(s.skip(2));
    }
}

/// One line fragment as the line splitter reports it: with a carriage
/// return stripped off its end, as a terminator `\r\n` leaves one.
pub open spec fn spec_strip_cr(f: Seq<char>) -> Seq<char> {
    if f.len() > 0 && f.last() == '\r' {
        f.drop_last()
    } else {
        f
    }
}

/// The lines of a text: fragments split at `\n`, each newline-terminated
/// fragment with a trailing `\r` stripped; a final fragment left empty by a
/// trailing newline is dropped, one after the last newline is kept as it
/// stands.
pub open spec fn spec_lines(s: Seq<char>) -> Seq<Seq<char>> {
    let parts = spec_split(s, '\n');
    if parts.last().len() == 0 {
        parts.drop_last().map_values(|f: Seq<char>| spec_strip_cr(f))
    } else {
        parts.drop_last().map_values(|f: Seq<char>| spec_strip_cr(f)).push(parts.last())
    }
}

/// Lines joined with `\n`.
pub open spec fn spec_join_lines(parts: Seq<Seq<char>>) -> Seq<char>
    decreases parts.len(),
{
    if parts.len() == 0 {
        Seq::<char>::empty()
    } else if parts.len() == 1 {
        parts[0]
    } else {
        spec_join_lines(parts.drop_last()) + seq!['\n'] + parts.last()
    }
}

/// The last `n` lines of a text, joined with `\n`; empty when `n` is zero or
/// the text is empty.
pub open spec fn spec_last_lines(s: Seq<char>, n: int) -> Seq<char> {
    if n == 0 || s.len() == 0 {
        Seq::<char>::empty()
    } else {
        let ls = spec_lines(s);
        spec_join_lines(
            ls.skip(
                if ls.len() > n {
                    ls.len() - n
                } else {
                    0
                },
            ),
        )
    }
}

fn is_param_char_exec(c: char) -> (r: bool)
    ensures
        r == is_param_char(c),
{
    ('0' <= c && c <= '9') || c == ';'
}

fn is_final_letter_exec(c: char) -> (r: bool)
    ensures
        r == is_final_letter(c),
{
    ('a' <= c && c <= 'z') || ('A' <= c && c <= 'Z')
}

/// Reads the terminal's output: the device handling lives with the caller,
/// the post-processing of captured text — ANSI stripping and taking the last
/// lines — is here.
pub struct TtyReader {
    /// The device path this reader is bound to, if initialized.
    pub tty_path: Option<String>,
    /// How many bytes one read from the device may return.
    pub buffer_size: usize,
    /// Whether captured text has its ANSI control sequences removed.
    pub strip_ansi: bool,
}

impl TtyReader {
    /// The device path this reader is bound to, as text.
    pub open spec fn spec_tty_path(self) -> Option<Seq<char>> {
        match self.tty_path {
            Option::Some(p) => Option::Some(p@),
            Option::None => Option::None,
        }
    }

    /// A reader with the default settings: an 8 KiB read buffer, ANSI
    /// stripping on, no device bound yet.
    pub fn new() -> (r: TtyReader)
        ensures
            r.spec_tty_path() is None,
            r.buffer_size == 8192,
            r.strip_ansi == true,
    {
        TtyReader { tty_path: Option::None, buffer_size: 8192, strip_ansi: true }
    }

    /// A reader with a chosen buffer size and stripping behaviour.
    pub fn new_with_config(buffer_size: usize, strip_ansi: bool) -> (r: TtyReader)
        ensures
            r.spec_tty_path() is None,
            r.buffer_size == buffer_size,
            r.strip_ansi == strip_ansi,
    {
        TtyReader { tty_path: Option::None, buffer_size, strip_ansi }
    }

    /// Bind the reader to a device path.
    pub fn set_tty_path(&mut self, path: String)
        ensures
            final(self).spec_tty_path() == Option::Some(path@),
            final(self).buffer_size == old(self).buffer_size,
            final(self).strip_ansi == old(self).strip_ansi,
    {
        self.tty_path = Option::Some(path);
    }

    /// The device path this reader is bound to, if any.
    pub fn get_tty_path(&self) -> (r: Option<&str>)
        ensures
            r is Some <==> self.spec_tty_path() is Some,
            r matches Some(p) ==> Option::Some(p@) == self.spec_tty_path(),
    {
        match &self.tty_path {
            Option::Some(p) => Option::Some(p.as_str()),
            Option::None => Option::None,
        }
    }

    /// Choose whether captured text has its ANSI sequences removed.
    pub fn set_strip_ansi(&mut self, strip_ansi: bool)
        ensures
            final(self).strip_ansi == strip_ansi,
            final(self).buffer_size == old(self).buffer_size,
            final(self).spec_tty_path() == old(self).spec_tty_path(),
    {
        self.strip_ansi = strip_ansi;
    }

    /// Choose how many bytes one read from the device may return.
    pub fn set_buffer_size(&mut self, buffer_size: usize)
        ensures
            final(self).buffer_size == buffer_size,
            final(self).strip_ansi == old(self).strip_ansi,
            final(self).spec_tty_path() == old(self).spec_tty_path(),
    {
        self.buffer_size = buffer_size;
    }

    /// Remove every ANSI control sequence — colors, cursor movement, screen
    /// clearing — from the text, scanning left to right.
    pub fn strip_ansi_codes(&self, input: &str) -> (r: String)
        ensures
            r@ == spec_strip_ansi(input@),
    {
        let cs = str_chars(input);
        let n = cs.len();
        let mut out: Vec<char> = Vec::new();
        let mut i: usize = 0;
        proof {
            assert(cs@.skip(0) =~= cs@);
        }
        while i < n
            invariant
                n == cs@.len(),
                cs@ == input@,
                i <= n,
                spec_strip_ansi(cs@) == out@ + spec_strip_ansi(cs@.skip(i as int)),
            decreases n - i,
        {
            let ghost t = cs@.skip(i as int);
            proof {
                assert(t[0] == cs@[i as int]);
                if i + 1 < n {
                    assert(t[1] == cs@[i + 1]);
                }
            }
            if cs[i] == '\u{1b}' && i + 1 < n && cs[i + 1] == '[' {
                let mut j: usize = i + 2;
                while j < n && is_param_char_exec(cs[j])
                    invariant
                        n == cs@.len(),
                        i + 2 <= j <= n,
                        forall|k: int| i + 2 <= k < j ==> is_param_char(#[trigger] cs@[k]),
                    decreases n - j,
                {
                    j = j + 1;
                }
                proof {
                    let u = t.skip(2);
                    assert(u =~= cs@.skip(i + 2));
                    assert forall|k: int| 0 <= k < j - i - 2 implies is_param_char(
                        #[trigger] u[k],
                    ) by {
                        assert(u[k] == cs@[i + 2 + k]);
                    }
                    if j < n {
                        assert(u[j - i - 2] == cs@[j as int]);
                    }
                    lemma_param_run_is(u, j - i - 2);
                    assert(spec_param_run(u) == j - i - 2);
                }
                if j < n && is_final_letter_exec(cs[j]) {
                    proof {
                        assert(t[2 + (j - i - 2)] == cs@[j as int]);
                        assert(spec_ansi_match(t));
                        assert(spec_ansi_len(t) == j + 1 - i);
                        assert(spec_strip_ansi(t) == spec_strip_ansi(t.skip(j + 1 - i)));
                        assert(t.skip(j + 1 - i) =~= cs@.skip(j + 1));
                    }
                    i = j + 1;
                } else {
                    proof {
                        if j == n {
                            assert(2 + spec_param_run(t.skip(2)) == t.len());
                            assert(!spec_ansi_match(t));
                        } else {
                            assert(t[2 + (j - i - 2)] == cs@[j as int]);
                            assert(!is_final_letter(cs@[j as int]));
                            assert(!spec_ansi_match(t));
                        }
                        assert(spec_strip_ansi(t) == seq![t[0]] + spec_strip_ansi(t.drop_first()));
                        assert(t.drop_first() =~= cs@.skip(i + 1));
                    }
                    out.push(cs[i]);
                    proof {
                        assert(spec_strip_ansi(cs@) =~= out@ + spec_strip_ansi(cs@.skip(i + 1)));
                    }
                    i = i + 1;
                }
            } else {
                proof {
                    assert(!spec_ansi_match(t));
                    assert(spec_strip_ansi(t) == seq![t[0]] + spec_strip_ansi(t.drop_first()));
                    assert(t.drop_first() =~= cs@.skip(i + 1));
                }
                out.push(cs[i]);
                proof {
                    assert(spec_strip_ansi(cs@) =~= out@ + spec_strip_ansi(cs@.skip(i + 1)));
                }
                i = i + 1;
            }
        }
        proof {
            assert(cs@.skip(n as int) =~= Seq::<char>::empty());
            assert(out@ =~= spec_strip_ansi(cs@));
        }
        chars_to_string(&out)
    }

    /// The last `n` lines of a text, joined with `\n`: fewer lines than
    /// requested give the whole text line by line; zero lines or empty input
    /// give the empty string.
    pub fn extract_lines(&self, input: &str, n: usize) -> (r: String)
        ensures
            r@ == spec_last_lines(input@, n as int),
    {
        if n == 0 || input.is_empty() {
            return String::new();
        }
        let cs = str_chars(input);
        let parts = split_chars(&cs, '\n');
        let ghost pv = parts@.map_values(|p: Vec<char>| p@);
        proof {
            crate::text::lemma_split_nonempty(input@, '\n');
        }
        let mut lines: Vec<Vec<char>> = Vec::new();
        let last_idx = parts.len() - 1;
        let mut idx: usize = 0;
        proof {
            assert(pv.take(0) =~= Seq::<Seq<char>>::empty());
            assert(lines@.map_values(|p: Vec<char>| p@) =~= pv.take(0).map_values(
                |f: Seq<char>| spec_strip_cr(f),
            ));
        }
        while idx < last_idx
            invariant
                parts@.map_values(|p: Vec<char>| p@) == pv,
                pv == spec_split(input@, '\n'),
                last_idx == parts@.len() - 1,
                parts@.len() >= 1,
                idx <= last_idx,
                lines@.map_values(|p: Vec<char>| p@) == pv.take(idx as int).map_values(
                    |f: Seq<char>| spec_strip_cr(f),
                ),
            decreases last_idx - idx,
        {
            let ghost lv = lines@.map_values(|p: Vec<char>| p@);
            let mut f = copy_chars(&parts[idx]);
            if f.len() > 0 && f[f.len() - 1] == '\r' {
                let new_len = f.len() - 1;
                let ghost fv = f@;
                f.truncate(new_len);
                proof {
                    assert(f@ =~= fv.drop_last());
                }
            }
            proof {
                assert(pv[idx as int] == parts@[idx as int]@);
                assert(f@ == spec_strip_cr(pv[idx as int]));
            }
            lines.push(f);
            proof {
                assert(pv.take(idx + 1) =~= pv.take(idx as int).push(pv[idx as int]));
                assert(lines@.map_values(|p: Vec<char>| p@) =~= lv.push(spec_strip_cr(
                    pv[idx as int],
                )));
                assert(pv.take(idx + 1).map_values(|ff: Seq<char>| spec_strip_cr(ff)) =~= pv.take(
                    idx as int,
                ).map_values(|ff: Seq<char>| spec_strip_cr(ff)).push(spec_strip_cr(
                    pv[idx as int],
                )));
            }
            idx = idx + 1;
        }
        let ghost lv = lines@.map_values(|p: Vec<char>| p@);
        proof {
            assert(pv.take(last_idx as int) =~= pv.drop_last());
        }
        if parts[last_idx].len() > 0 {
            let f = copy_chars(&parts[last_idx]);
            lines.push(f);
            proof {
                assert(pv[last_idx as int] == parts@[last_idx as int]@);
                assert(pv.last() == pv[last_idx as int]);
                assert(lines@.map_values(|p: Vec<char>| p@) =~= lv.push(pv.last()));
            }
        } else {
            proof {
                assert(pv[last_idx as int] == parts@[last_idx as int]@);
                assert(pv.last().len() == 0);
            }
        }
        proof {
            assert(lines@.map_values(|p: Vec<char>| p@) == spec_lines(input@));
        }
        let ghost ls = spec_lines(input@);
        let total = lines.len();
        let start: usize = if total > n {
            total - n
        } else {
            0
        };
        let ghost target = ls.skip(start as int);
        if total == 0 {
            proof {
                assert(ls.len() == 0);
                assert(ls.skip(0) =~= ls);
                assert(spec_join_lines(target) =~= Seq::<char>::empty());
            }
            return String::new();
        }
        let mut out: Vec<char> = Vec::new();
        let mut k: usize = start;
        proof {
            assert(target.take(0) =~= Seq::<Seq<char>>::empty());
        }
        while k < total
            invariant
                lines@.map_values(|p: Vec<char>| p@) == ls,
                total == ls.len(),
                start <= k <= total,
                start < total,
                target == ls.skip(start as int),
                out@ == spec_join_lines(target.take(k - start)),
            decreases total - k,
        {
            let ghost m = (k - start) as int;
            if k > start {
                out.push('\n');
            }
            append_chars(&mut out, &lines[k]);
            proof {
                assert(lines@[k as int]@ == ls[k as int]);
                assert(target[m] == ls[k as int]);
                let t = target.take(m + 1);
                assert(t.last() == target[m]);
                assert(t.drop_last() =~= target.take(m));
                if m == 0 {
                    assert(t.len() == 1);
                    assert(spec_join_lines(t) == t[0]);
                    assert(out@ =~= spec_join_lines(t));
                } else {
                    assert(t.len() >= 2);
                    assert(spec_join_lines(t) == spec_join_lines(target.take(m)) + seq!['\n']
                        + target[m]);
                    assert(out@ =~= spec_join_lines(t));
                }
            }
            k = k + 1;
        }
        proof {
            assert(target.take((total - start) as int) =~= target);
        }
        chars_to_string(&out)
    }

    /// Post-process captured terminal output as this reader is configured:
    /// strip ANSI sequences if enabled, then keep the last `lines` lines.
    pub fn process_output(&self, content: &str, lines: usize) -> (r: String)
        ensures
            r@ == spec_last_lines(
                if self.strip_ansi {
                    spec_strip_ansi(content@)
                } else {
                    content@
                },
                lines as int,
            ),
    {
        if self.strip_ansi {
            let stripped = self.strip_ansi_codes(content);
            self.extract_lines(stripped.as_str(), lines)
        } else {
            self.extract_lines(content, lines)
        }
    }
}

impl Default for TtyReader {
    /// The default reader: an 8 KiB buffer, ANSI stripping on.
    fn default() -> (r: TtyReader)
        ensures
            r.spec_tty_path() is None,
            r.buffer_size == 8192,
            r.strip_ansi == true,
    {
        TtyReader::new()
    }
}

fn copy_chars(p: &Vec<char>) -> (r: Vec<char>)
    ensures
        r@ == p@,
{
    let mut r: Vec<char> = Vec::new();
    append_chars(&mut r, p);
    r
}

fn append_chars(out: &mut Vec<char>, p: &Vec<char>)
    ensures
        final(out)@ == old(out)@ + p@,
{
    let mut i: usize = 0;
    while i < p.len()
        invariant
            i <= p@.len(),
            out@ == old(out)@ + p@.take(i as int),
        decreases p@.len() - i,
    {
        out.push(p[i]);
        i = i + 1;
        proof {
            assert(out@ =~= old(out)@ + p@.take(i as int));
        }
    }
    proof {
        assert(out@ =~= old(out)@ + p@);
    }
}

/// Why a control character could not be prepared for sending.
#[derive(Debug, Clone, PartialEq, Eq, Structural)]
pub enum ControlSendError {
    /// The letter was empty.
    EmptyLetter,
    /// The letter does not name a control character.
    InvalidLetter,
    /// No device is bound: the sender was never initialized.
    NotInitialized,
}

/// Sends control characters to the terminal: maps a letter to its control
/// code and names the device to write it to; the device write itself lives
/// with the caller.
pub struct ControlCharacterSender {
    /// The device path writes go to, once initialized.
    pub tty_path: Option<String>,
}

impl ControlCharacterSender {
    /// The device path writes go to, as text.
    pub open spec fn spec_tty_path(self) -> Option<Seq<char>> {
        match self.tty_path {
            Option::Some(p) => Option::Some(p@),
            Option::None => Option::None,
        }
    }

    /// A sender not yet bound to a device.
    pub fn new() -> (r: ControlCharacterSender)
        ensures
            r.spec_tty_path() is None,
    {
        ControlCharacterSender { tty_path: Option::None }
    }

    /// Bind the sender to a device path.
    pub fn set_tty_path(&mut self, path: String)
        ensures
            final(self).spec_tty_path() == Option::Some(path@),
    {
        self.tty_path = Option::Some(path);
    }

    /// The device path this sender is bound to, if any.
    pub fn get_tty_path(&self) -> (r: Option<&str>)
        ensures
            r is Some <==> self.spec_tty_path() is Some,
            r matches Some(p) ==> Option::Some(p@) == self.spec_tty_path(),
    {
        match &self.tty_path {
            Option::Some(p) => Option::Some(p.as_str()),
            Option::None => Option::None,
        }
    }

    /// Turn a letter into the write it asks for: the device path and the one
    /// control byte to write there. An empty letter, a letter with no
    /// control-character mapping, and an unbound sender each give their own
    /// error.
    pub fn prepare_control_character(&self, letter: &str) -> (r: Result<
        (String, u8),
        ControlSendError,
    >)
        ensures
            letter@.len() == 0 ==> r == Result::<(String, u8), ControlSendError>::Err(
                ControlSendError::EmptyLetter,
            ),
            letter@.len() != 1 || spec_control_code(letter@[0]) is None ==> r is Err,
            letter@.len() == 1 && spec_control_code(letter@[0]) is Some && self.spec_tty_path()
                is None ==> r == Result::<(String, u8), ControlSendError>::Err(
                ControlSendError::NotInitialized,
            ),
            letter@.len() == 1 && spec_control_code(letter@[0]) is Some && self.spec_tty_path()
                is Some ==> (r matches Ok((path, code)) && Option::Some(path@)
                == self.spec_tty_path() && Option::Some(code) == spec_control_code(letter@[0])),
    {
        if letter.is_empty() {
            return Result::Err(ControlSendError::EmptyLetter);
        }
        let code = match letter_to_control_char(letter) {
            Result::Ok(c) => c,
            Result::Err(_) => {
                return Result::Err(ControlSendError::InvalidLetter);
            },
        };
        match &self.tty_path {
            Option::Some(p) => Result::Ok((p.clone(), code)),
            Option::None => Result::Err(ControlSendError::NotInitialized),
        }
    }
}

impl Default for ControlCharacterSender {
    /// The default sender: not yet bound to a device.
    fn default() -> (r: ControlCharacterSender)
        ensures
            r.spec_tty_path() is None,
    {
        ControlCharacterSender::new()
    }
}

/// The complete script that writes text into the active terminal session.
pub open spec fn spec_write_text_script(command: Seq<char>) -> Seq<char> {
    "tell application \"iTerm2\" to tell current session of current window to write text "@
        + spec_escape(command)
}

/// Build the script that writes a command into the active terminal session,
/// with the command escaped for safe embedding.
pub fn write_text_script(command: &str) -> (r: String)
    ensures
        r@ == spec_write_text_script(command@),
{
    let mut out = String::from_str(
        "tell application \"iTerm2\" to tell current session of current window to write text ",
    );
    let escaped = crate::applescript::escape(command);
    out.append(escaped.as_str());
    out
}

/// Sends commands to the terminal by building a write-text script and
/// handing it to a script runner.
pub struct CommandExecutor<R> {
    /// The runner scripts are handed to.
    pub runner: R,
    /// How many seconds a script may run.
    pub default_timeout_secs: u64,
}

impl<R: OsascriptRunner> CommandExecutor<R> {
    /// An executor over the given runner and timeout.
    pub fn new_with_runner(runner: R, timeout_secs: u64) -> (r: CommandExecutor<R>)
        ensures
            r.default_timeout_secs == timeout_secs,
    {
        CommandExecutor { runner, default_timeout_secs: timeout_secs }
    }

    /// Write a command into the active terminal session: build the script
    /// and run it. What comes back depends on the runner; its output is
    /// discarded, its failure text passed through.
    pub fn execute_command(&mut self, command: &str) -> Result<(), String> {
        let script = write_text_script(command);
        let script_lines = [script.as_str()];
        match self.runner.run(&script_lines, self.default_timeout_secs) {
            Result::Ok(_) => Result::Ok(()),
            Result::Err(e) => Result::Err(e),
        }
    }
}

} // verus!
