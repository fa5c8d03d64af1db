//! AppleScript helpers and runners: escaping arbitrary text into an
//! AppleScript expression, and the runner abstraction through which scripts
//! are executed — a programmable in-memory runner lives here for tests and
//! callers that must not touch the system scripting binary.

use vstd::prelude::*;
use std::collections::VecDeque;
use crate::text::{chars_to_string, contains_char, push_char, split_chars, spec_split, str_chars};
use crate::utilities::{escape_chars, spec_escape_applescript};
use vstd::string::*;

verus! {

/// One fragment of the input, escaped and wrapped in double quotes.
pub open spec fn spec_quoted_fragment(p: Seq<char>) -> Seq<char> {
    seq!['"'] + spec_escape_applescript(p) + seq!['"']
}

/// Quoted fragments joined with the AppleScript concatenation
/// ` & return & `, so that the line breaks survive the quoting.
pub open spec fn spec_joined_fragments(parts: Seq<Seq<char>>) -> Seq<char>
    decreases parts.len(),
{
    if parts.len() == 0 {
        Seq::<char>::empty()
    } else if parts.len() == 1 {
        spec_quoted_fragment(parts[0])
    } else {
        spec_joined_fragments(parts.drop_last()) + " & return & "@ + spec_quoted_fragment(
            parts.last(),
        )
    }
}

/// What `escape` produces: a quoted string for single-line input, a
/// parenthesized concatenation expression for multi-line input.
pub open spec fn spec_escape(s: Seq<char>) -> Seq<char> {
    if s.contains('\n') {
        seq!['('] + spec_joined_fragments(spec_split(s, '\n')) + seq![')']
    } else {
        spec_quoted_fragment(s)
    }
}

fn append_quoted(out: &mut String, p: &Vec<char>)
    ensures
        final(out)@ == old(out)@ + spec_quoted_fragment(p@),
{
    push_char(out, '"');
    let escaped = escape_chars(p);
    let mut i: usize = 0;
    while i < escaped.len()
        invariant
            i <= escaped@.len(),
            escaped@ == spec_escape_applescript(p@),
            out@ == old(out)@ + seq!['"'] + escaped@.take(i as int),
        decreases escaped@.len() - i,
    {
        push_char(out, escaped[i]);
        i = i + 1;
        proof {
            assert(out@ =~= old(out)@ + seq!['"'] + escaped@.take(i as int));
        }
    }
    push_char(out, '"');
    proof {
        assert(escaped@.take(escaped@.len() as int) =~= escaped@);
        assert(out@ =~= old(out)@ + spec_quoted_fragment(p@));
    }
}

/// Escape a string for safe embedding in an AppleScript expression:
/// single-line input becomes a quoted string with backslashes and double
/// quotes escaped; multi-line input becomes a parenthesized concatenation of
/// its quoted lines joined with ` & return & `.
pub fn escape(input: &str) -> (r: String)
    ensures
        r@ == spec_escape(input@),
{
    let cs = str_chars(input);
    if !contains_char(&cs, '\n') {
        let mut out = String::new();
        append_quoted(&mut out, &cs);
        proof {
            assert(out@ =~= spec_quoted_fragment(input@));
        }
        out
    } else {
        let parts = split_chars(&cs, '\n');
        let ghost pv = parts@.map_values(|p: Vec<char>| p@);
        let mut out = String::new();
        push_char(&mut out, '(');
        let mut k: usize = 0;
        proof {
            crate::text::lemma_split_nonempty(input@, '\n');
        }
        while k < parts.len()
            invariant
                parts@.map_values(|p: Vec<char>| p@) == pv,
                pv == spec_split(input@, '\n'),
                k <= parts@.len(),
                parts@.len() == pv.len(),
                k == 0 ==> out@ == seq!['('],
                k >= 1 ==> out@ == seq!['('] + spec_joined_fragments(pv.take(k as int)),
            decreases parts@.len() - k,
        {
            let ghost pre = out@;
            if k > 0 {
                out.append(" & return & ");
            }
            append_quoted(&mut out, &parts[k]);
            proof {
                assert(pv[k as int] == parts@[k as int]@);
                if k == 0 {
                    assert(pv.take(1).len() == 1);
                    assert(pv.take(1)[0] == pv[0]);
                    assert(spec_joined_fragments(pv.take(1)) == spec_quoted_fragment(pv[0]));
                    assert(out@ =~= seq!['('] + spec_joined_fragments(pv.take(1)));
                } else {
                    let t = pv.take(k + 1);
                    assert(t.len() == k + 1 >= 2);
                    assert(t.drop_last() =~= pv.take(k as int));
                    assert(t.last() == pv[k as int]);
                    assert(spec_joined_fragments(t) == spec_joined_fragments(pv.take(k as int))
                        + " & return & "@ + spec_quoted_fragment(pv[k as int]));
                    assert(out@ =~= seq!['('] + spec_joined_fragments(t));
                }
            }
            k = k + 1;
        }
        push_char(&mut out, ')');
        proof {
            assert(pv.take(pv.len() as int) =~= pv);
            assert(out@ =~= spec_escape(input@));
        }
        out
    }
}

/// Text with line endings normalized: each `\r\n` pair and each lone `\r`
/// becomes a single `\n`, scanning left to right.
pub open spec fn spec_normalize_newlines(s: Seq<char>) -> Seq<char>
    decreases s.len(),
{
    if s.len() == 0 {
        Seq::<char>::empty()
    } else if s[0] == '\r' && s.len() >= 2 && s[1] == '\n' {
        seq!['\n'] + spec_normalize_newlines(s.skip(2))
    } else if s[0] == '\r' {
        seq!['\n'] + spec_normalize_newlines(s.skip(1))
    } else {
        seq![s[0]] + spec_normalize_newlines(s.skip(1))
    }
}

/// Normalize line endings to `\n`: `\r\n` and a lone `\r` both become `\n`,
/// so that script output compares predictably.
pub fn normalize_line_endings(input: &str) -> (r: String)
    ensures
        r@ == spec_normalize_newlines(input@),
{
    let cs = str_chars(input);
    let n = cs.len();
    let mut out: Vec<char> = Vec::new();
    let mut i: usize = 0;
    proof {
        assert(cs@.skip(0) =~= cs@);
    }
    while i < n
        invariant
            n == cs@.len(),
            cs@ == input@,
            i <= n,
            spec_normalize_newlines(cs@) == out@ + spec_normalize_newlines(cs@.skip(i as int)),
        decreases n - i,
    {
        let ghost t = cs@.skip(i as int);
        proof {
            assert(t[0] == cs@[i as int]);
            if i + 1 < n {
                assert(t[1] == cs@[i + 1]);
            }
        }
        if cs[i] == '\r' && i + 1 < n && cs[i + 1] == '\n' {
            out.push('\n');
            proof {
                assert(t.skip(2) =~= cs@.skip(i + 2));
                assert(spec_normalize_newlines(cs@) =~= out@ + spec_normalize_newlines(
                    cs@.skip(i + 2),
                ));
            }
            i = i + 2;
        } else if cs[i] == '\r' {
            out.push('\n');
            proof {
                assert(t.skip(1) =~= cs@.skip(i + 1));
                assert(spec_normalize_newlines(cs@) =~= out@ + spec_normalize_newlines(
                    cs@.skip(i + 1),
                ));
            }
            i = i + 1;
        } else {
            out.push(cs[i]);
            proof {
                assert(t.skip(1) =~= cs@.skip(i + 1));
                assert(spec_normalize_newlines(cs@) =~= out@ + spec_normalize_newlines(
                    cs@.skip(i + 1),
                ));
            }
            i = i + 1;
        }
    }
    proof {
        assert(cs@.skip(n as int) =~= Seq::<char>::empty());
        assert(out@ =~= spec_normalize_newlines(cs@));
    }
    chars_to_string(&out)
}

/// The abstraction through which AppleScript expressions run: each element
/// of `script_lines` is one expression; the result is the script's output
/// text, or a failure message. Implementations are supplied by the
/// surrounding process — nothing is assumed about what they return.
pub trait OsascriptRunner {
    /// Run the given expressions with a timeout in seconds.
    fn run(&mut self, script_lines: &[&str], timeout_secs: u64) -> Result<String, String>;
}

/// A programmable in-memory runner: hand it a queue of responses and it
/// returns them in order, failing once the queue is exhausted. For tests and
/// environments where the system scripting binary must not run.
pub struct MockOsascriptRunner {
    responses: VecDeque<String>,
}

impl MockOsascriptRunner {
    /// The responses not yet handed out, in the order they will come.
    pub closed spec fn queued(self) -> Seq<String> {
        self.responses@
    }

    /// A mock runner seeded with the given responses.
    pub fn new(responses: Vec<String>) -> (r: MockOsascriptRunner)
        ensures
            r.queued() == responses@,
    {
        let ghost all = responses@;
        let mut rest = responses;
        let mut queue: VecDeque<String> = VecDeque::new();
        while rest.len() > 0
            invariant
                queue@ + rest@ == all,
            decreases rest@.len(),
        {
            let s = rest.remove(0);
            queue.push_back(s);
            proof {
                assert(queue@ + rest@ =~= all);
            }
        }
        proof {
            assert(queue@ =~= all);
        }
        MockOsascriptRunner { responses: queue }
    }

    /// A mock runner with no responses: every run fails.
    pub fn empty() -> (r: MockOsascriptRunner)
        ensures
            r.queued() == Seq::<String>::empty(),
    {
        MockOsascriptRunner { responses: VecDeque::new() }
    }

    /// Queue one more response at the back.
    pub fn push_response(&mut self, resp: String)
        ensures
            final(self).queued() == old(self).queued().push(resp),
    {
        self.responses.push_back(resp);
    }

    /// Take the next queued response: the front of the queue comes off and
    /// out; an empty queue yields `None` and stays empty. Each run of the
    /// mock answers with exactly one such take, so the i-th run returns the
    /// i-th seeded response and runs beyond the queue fail.
    pub fn pop_response(&mut self) -> (r: Option<String>)
        ensures
            old(self).queued().len() > 0 ==> (r == Option::Some(old(self).queued()[0])
                && final(self).queued() == old(self).queued().drop_first()),
            old(self).queued().len() == 0 ==> (r is None
                && final(self).queued() == old(self).queued()),
    {
        let r = self.responses.pop_front();
        proof {
            if old(self).queued().len() > 0 {
                assert(self.responses@ =~= old(self).queued().drop_first());
            }
        }
        r
    }
}

impl OsascriptRunner for MockOsascriptRunner {
    fn run(&mut self, script_lines: &[&str], timeout_secs: u64) -> Result<String, String> {
        match self.pop_response() {
            Option::Some(resp) => Result::Ok(resp),
            Option::None => Result::Err(String::from_str(
                "no more responses available in the mock runner",
            )),
        }
    }
}

} // verus!
