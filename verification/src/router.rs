//! The tool registry and the dispatch of one message: look a request's tool
//! up by name, invoke its handler, and answer with a response whose id
//! echoes the request id.

use vstd::prelude::*;
use crate::codec::{
    decode_request, encode_error_line, encode_response, not_found_response, outcome_response,
    parse_failure_response, spec_error_line, spec_handler_error_prefix, spec_invalid_request_id,
    spec_not_found_prefix, spec_parse_error_message, spec_success_line, McpRequest, ResponseBody,
    WireResponse, HANDLER_ERROR_CODE, NOT_FOUND_CODE, PARSE_ERROR_CODE,
};
use crate::json::{req_decodes, req_fn_of, req_id_of};
use crate::stats::ServerStats;
use crate::text::bytes_to_str;
use crate::types::ToolDefinition;
use vstd::utf8::{decode_utf8, valid_utf8};

verus! {

/// The behaviour bound to a tool name: from an argument value to a result
/// value, or a failure described by a message. Handlers are supplied by the
/// surrounding process; the dispatch logic assumes nothing about what they
/// return.
pub trait ToolHandler {
    /// Run the tool on the given arguments.
    fn invoke(&self, arguments: serde_json::Value) -> Result<serde_json::Value, String>;
}

/// One registry entry: a tool name with its definition and handler.
pub struct ToolEntry<H> {
    /// The unique name requests refer to.
    pub name: String,
    /// Descriptive metadata.
    pub definition: ToolDefinition,
    /// The behaviour invoked for this tool.
    pub handler: H,
}

/// No two entries share a name.
pub open spec fn names_unique<H>(s: Seq<ToolEntry<H>>) -> bool {
    forall|i: int, j: int|
        0 <= i < j < s.len() ==> (#[trigger] s[i].name)@ != (#[trigger] s[j].name)@
}

/// Some entry bears this name.
pub open spec fn seq_has_name<H>(s: Seq<ToolEntry<H>>, nm: Seq<char>) -> bool {
    exists|i: int| 0 <= i < s.len() && (#[trigger] s[i].name)@ == nm
}

/// The index of the entry bearing this name.
pub open spec fn seq_index_of<H>(s: Seq<ToolEntry<H>>, nm: Seq<char>) -> int {
    choose|i: int| 0 <= i < s.len() && (#[trigger] s[i].name)@ == nm
}

proof fn lemma_found<H>(s: Seq<ToolEntry<H>>, i: int, nm: Seq<char>)
    requires
        names_unique(s),
        0 <= i < s.len(),
        s[i].name@ == nm,
    ensures
        seq_has_name(s, nm),
        seq_index_of(s, nm) == i,
{
    assert(seq_has_name(s, nm));
    let k = seq_index_of(s, nm);
    assert(0 <= k < s.len() && s[k].name@ == nm);
    if k != i {
        assert(s[i].name@ != s[k].name@);
    }
}

proof fn lemma_update<H>(s: Seq<ToolEntry<H>>, i: int, e: ToolEntry<H>)
    requires
        names_unique(s),
        0 <= i < s.len(),
        s[i].name@ == e.name@,
    ensures
        names_unique(s.update(i, e)),
        seq_has_name(s.update(i, e), e.name@),
        seq_index_of(s.update(i, e), e.name@) == i,
        forall|nn: Seq<char>|
            nn != e.name@ ==> #[trigger] seq_has_name(s.update(i, e), nn) == seq_has_name(s, nn),
        forall|nn: Seq<char>|
            nn != e.name@ && seq_has_name(s, nn) ==> #[trigger] seq_index_of(s.update(i, e), nn)
                == seq_index_of(s, nn),
{
    let s2 = s.update(i, e);
    assert forall|a: int, b: int| 0 <= a < b < s2.len() implies (#[trigger] s2[a].name)@
        != (#[trigger] s2[b].name)@ by {
        assert(s[a].name@ != s[b].name@);
        if a == i {
            assert(s2[b] == s[b]);
        } else if b == i {
            assert(s2[a] == s[a]);
        } else {
            assert(s2[a] == s[a] && s2[b] == s[b]);
        }
    }
    assert(s2[i].name@ == e.name@);
    lemma_found(s2, i, e.name@);
    assert forall|nn: Seq<char>| nn != e.name@ implies #[trigger] seq_has_name(s2, nn)
        == seq_has_name(s, nn) by {
        if seq_has_name(s2, nn) {
            let k = seq_index_of(s2, nn);
            assert(0 <= k < s2.len() && s2[k].name@ == nn);
            assert(k != i);
            assert(s[k].name@ == nn);
            assert(seq_has_name(s, nn));
        }
        if seq_has_name(s, nn) {
            let k = seq_index_of(s, nn);
            assert(0 <= k < s.len() && s[k].name@ == nn);
            assert(k != i);
            assert(s2[k].name@ == nn);
            assert(seq_has_name(s2, nn));
        }
    }
    assert forall|nn: Seq<char>| nn != e.name@ && seq_has_name(s, nn) implies #[trigger]
    seq_index_of(s2, nn) == seq_index_of(s, nn) by {
        let k = seq_index_of(s, nn);
        assert(0 <= k < s.len() && s[k].name@ == nn);
        assert(k != i);
        assert(s2[k].name@ == nn);
        lemma_found(s2, k, nn);
    }
}

proof fn lemma_push<H>(s: Seq<ToolEntry<H>>, e: ToolEntry<H>)
    requires
        names_unique(s),
        !seq_has_name(s, e.name@),
    ensures
        names_unique(s.push(e)),
        seq_has_name(s.push(e), e.name@),
        seq_index_of(s.push(e), e.name@) == s.len(),
        forall|nn: Seq<char>|
            nn != e.name@ ==> #[trigger] seq_has_name(s.push(e), nn) == seq_has_name(s, nn),
        forall|nn: Seq<char>|
            nn != e.name@ && seq_has_name(s, nn) ==> #[trigger] seq_index_of(s.push(e), nn)
                == seq_index_of(s, nn),
{
    let s2 = s.push(e);
    let n = s.len() as int;
    assert forall|a: int, b: int| 0 <= a < b < s2.len() implies (#[trigger] s2[a].name)@
        != (#[trigger] s2[b].name)@ by {
        if b == n {
            assert(s2[a] == s[a]);
            if s[a].name@ == e.name@ {
                assert(seq_has_name(s, e.name@));
            }
        } else {
            assert(s2[a] == s[a] && s2[b] == s[b]);
            assert(s[a].name@ != s[b].name@);
        }
    }
    assert(s2[n].name@ == e.name@);
    lemma_found(s2, n, e.name@);
    assert forall|nn: Seq<char>| nn != e.name@ implies #[trigger] seq_has_name(s2, nn)
        == seq_has_name(s, nn) by {
        if seq_has_name(s2, nn) {
            let k = seq_index_of(s2, nn);
            assert(0 <= k < s2.len() && s2[k].name@ == nn);
            assert(k != n);
            assert(s[k].name@ == nn);
            assert(seq_has_name(s, nn));
        }
        if seq_has_name(s, nn) {
            let k = seq_index_of(s, nn);
            assert(0 <= k < s.len() && s[k].name@ == nn);
            assert(s2[k].name@ == nn);
            assert(seq_has_name(s2, nn));
        }
    }
    assert forall|nn: Seq<char>| nn != e.name@ && seq_has_name(s, nn) implies #[trigger]
    seq_index_of(s2, nn) == seq_index_of(s, nn) by {
        let k = seq_index_of(s, nn);
        assert(0 <= k < s.len() && s[k].name@ == nn);
        assert(s2[k].name@ == nn);
        lemma_found(s2, k, nn);
    }
}

/// A registry of tools, keyed by name; registering a name twice keeps the
/// later entry.
pub struct Router<H> {
    entries: Vec<ToolEntry<H>>,
}

impl<H> Router<H> {
    /// The registered entries, in registration order of their names.
    pub closed spec fn entries_seq(self) -> Seq<ToolEntry<H>> {
        self.entries@
    }

    /// Registered names are unique.
    pub open spec fn wf(self) -> bool {
        names_unique(self.entries_seq())
    }

    /// Whether a tool of this name is registered.
    pub open spec fn has_tool(self, name: Seq<char>) -> bool {
        seq_has_name(self.entries_seq(), name)
    }

    /// The entry registered under this name.
    pub open spec fn entry_for(self, name: Seq<char>) -> ToolEntry<H> {
        self.entries_seq()[seq_index_of(self.entries_seq(), name)]
    }

    /// A fresh registry with no tools.
    pub fn new() -> (r: Router<H>)
        ensures
            r.wf(),
            r.entries_seq().len() == 0,
            forall|n: Seq<char>| !r.has_tool(n),
    {
        Router { entries: Vec::new() }
    }

    /// Register a tool: insert the entry, or replace the entry of the same
    /// name — the last registration for a name wins.
    pub fn register_tool(&mut self, name: String, definition: ToolDefinition, handler: H)
        requires
            old(self).wf(),
        ensures
            final(self).wf(),
            final(self).has_tool(name@),
            final(self).entry_for(name@).name@ == name@,
            final(self).entry_for(name@).definition == definition,
            final(self).entry_for(name@).handler == handler,
            forall|n: Seq<char>|
                n != name@ ==> (#[trigger] final(self).has_tool(n) == old(self).has_tool(n) && (old(
                    self,
                ).has_tool(n) ==> final(self).entry_for(n) == old(self).entry_for(n))),
    {
        let entry = ToolEntry { name, definition, handler };
        let ghost ge = entry;
        let n = self.entries.len();
        let mut i: usize = 0;
        while i < n
            invariant
                old(self).wf(),
                self == old(self),
                n == self.entries@.len(),
                i <= n,
                entry == ge,
                ge.name@ == name@,
                ge.definition == definition,
                ge.handler == handler,
                forall|k: int| 0 <= k < i ==> (#[trigger] self.entries@[k].name)@ != ge.name@,
            decreases n - i,
        {
            if self.entries[i].name == entry.name {
                let ghost s0 = self.entries@;
                proof {
                    lemma_update(s0, i as int, ge);
                }
                self.entries.set(i, entry);
                proof {
                    assert(self.entries@ == s0.update(i as int, ge));
                    assert(ge.name@ == name@);
                }
                return ;
            }
            i = i + 1;
        }
        let ghost s1 = self.entries@;
        proof {
            if seq_has_name(s1, ge.name@) {
                let k = seq_index_of(s1, ge.name@);
                assert(0 <= k < s1.len() && s1[k].name@ == ge.name@);
            }
            lemma_push(s1, ge);
        }
        self.entries.push(entry);
        proof {
            assert(self.entries@ == s1.push(ge));
        }
    }

    /// Look a tool up by name: a pure lookup, `None` when no tool of that
    /// name is registered.
    pub fn resolve(&self, name: &str) -> (r: Option<&ToolEntry<H>>)
        requires
            self.wf(),
        ensures
            r is Some <==> self.has_tool(name@),
            r matches Some(e) ==> *e == self.entry_for(name@),
    {
        let name_owned = name.to_owned();
        let n = self.entries.len();
        let mut i: usize = 0;
        while i < n
            invariant
                self.wf(),
                name_owned@ == name@,
                n == self.entries@.len(),
                i <= n,
                forall|k: int| 0 <= k < i ==> (#[trigger] self.entries@[k].name)@ != name@,
            decreases n - i,
        {
            if self.entries[i].name == name_owned {
                proof {
                    lemma_found(self.entries@, i as int, name@);
                }
                return Option::Some(&self.entries[i]);
            }
            i = i + 1;
        }
        proof {
            if seq_has_name(self.entries@, name@) {
                let k = seq_index_of(self.entries@, name@);
                assert(0 <= k < self.entries@.len() && self.entries@[k].name@ == name@);
            }
        }
        Option::None
    }
}

impl<H: ToolHandler> Router<H> {
    /// Dispatch one decoded request: resolve the tool, invoke its handler,
    /// and build the response. The response id always equals the request id;
    /// an unregistered name gives error -32601 with the name in the message;
    /// a handler failure gives error -32000 with the handler's text.
    pub fn dispatch(&self, request: McpRequest) -> (r: WireResponse)
        requires
            self.wf(),
        ensures
            r.id@ == request.id@,
            !self.has_tool(request.function@) ==> (r.body matches ResponseBody::Failure { error }
                && error.code == NOT_FOUND_CODE && error.message@ == spec_not_found_prefix()
                + request.function@ && error.data is None),
            self.has_tool(request.function@) ==> (r.body is Success || (r.body
                matches ResponseBody::Failure { error } && error.code == HANDLER_ERROR_CODE
                && error.data is None && (exists|m: Seq<char>|
                error.message@ == spec_handler_error_prefix() + m))),
    {
        match self.resolve(request.function.as_str()) {
            Option::None => not_found_response(request.id.as_str(), request.function.as_str()),
            Option::Some(entry) => {
                let outcome = entry.handler.invoke(request.arguments);
                let ghost gout = outcome;
                let r = outcome_response(request.id.as_str(), outcome);
                proof {
                    match gout {
                        Result::Err(m) => {
                            let error = r.body->Failure_error;
                            assert(exists|mm: Seq<char>|
                                error.message@ == spec_handler_error_prefix() + mm) by {
                                assert(error.message@ == spec_handler_error_prefix() + m@);
                            }
                        },
                        Result::Ok(_) => {},
                    }
                }
                r
            },
        }
    }

    /// Process one line of input: decode it, dispatch it, and encode the
    /// response. A response always comes back: a line that does not decode
    /// is answered with the -32700 error line under the placeholder id; a
    /// decoded request is answered under its own id — the -32601 error line
    /// naming the tool when none of that name is registered, and otherwise a
    /// success line or the -32000 error line carrying the handler's failure
    /// text.
    pub fn process_message(&self, message: &str) -> (r: Option<String>)
        requires
            self.wf(),
        ensures
            r is Some,
            !req_decodes(message@) ==> r->Some_0@ == spec_error_line(
                spec_invalid_request_id(),
                PARSE_ERROR_CODE as int,
                spec_parse_error_message(),
                Option::None,
            ),
            req_decodes(message@) && !self.has_tool(req_fn_of(message@)) ==> r->Some_0@
                == spec_error_line(
                req_id_of(message@),
                NOT_FOUND_CODE as int,
                spec_not_found_prefix() + req_fn_of(message@),
                Option::None,
            ),
            req_decodes(message@) && self.has_tool(req_fn_of(message@)) ==> ((exists|t: Seq<char>|
                r->Some_0@ == spec_success_line(req_id_of(message@), t)) || (exists|m: Seq<char>|
                r->Some_0@ == spec_error_line(
                    req_id_of(message@),
                    HANDLER_ERROR_CODE as int,
                    spec_handler_error_prefix() + m,
                    Option::None,
                ))),
    {
        match decode_request(message) {
            Option::None => {
                let resp = parse_failure_response();
                Option::Some(encode_response(&resp))
            },
            Option::Some(request) => {
                let ghost gid = request.id@;
                let ghost gfn = request.function@;
                let resp = self.dispatch(request);
                let line = encode_response(&resp);
                proof {
                    assert(gid == req_id_of(message@));
                    assert(gfn == req_fn_of(message@));
                    if self.has_tool(gfn) {
                        match resp.body {
                            ResponseBody::Success { result } => {
                                let t = choose|t: Seq<char>|
                                    line@ == spec_success_line(resp.id@, t);
                                assert(exists|tt: Seq<char>|
                                    line@ == spec_success_line(req_id_of(message@), tt)) by {
                                    assert(line@ == spec_success_line(req_id_of(message@), t));
                                }
                            },
                            ResponseBody::Failure { error } => {
                                let m = choose|m: Seq<char>|
                                    error.message@ == spec_handler_error_prefix() + m;
                                assert(exists|mm: Seq<char>|
                                    line@ == spec_error_line(
                                        req_id_of(message@),
                                        HANDLER_ERROR_CODE as int,
                                        spec_handler_error_prefix() + mm,
                                        Option::None,
                                    )) by {
                                    assert(line@ == spec_error_line(
                                        req_id_of(message@),
                                        HANDLER_ERROR_CODE as int,
                                        spec_handler_error_prefix() + m,
                                        Option::None,
                                    ));
                                }
                            },
                        }
                    }
                }
                Option::Some(line)
            },
        }
    }

    /// Build an error response line directly, for failures noticed outside
    /// the decode-dispatch path.
    pub fn create_error_response(
        &self,
        id: &str,
        code: i32,
        message: &str,
        data: Option<serde_json::Value>,
    ) -> (r: String)
        ensures
            data is None ==> r@ == spec_error_line(id@, code as int, message@, Option::None),
            data is Some ==> (exists|t: Seq<char>|
                r@ == spec_error_line(id@, code as int, message@, Option::Some(t))),
    {
        match data {
            Option::Some(d) => encode_error_line(id, code, message, Option::Some(&d)),
            Option::None => encode_error_line(id, code, message, Option::None),
        }
    }
}

/// The result of handling one framed line.
pub enum LineOutcome {
    /// The line was handled; this reply goes back to the client.
    Reply(String),
    /// The line was not valid UTF-8; it is reported as a decode failure and
    /// skipped, and the connection goes on.
    SkippedInvalidUtf8,
}

impl<H: ToolHandler> Router<H> {
    /// Handle one framed line and keep the books: a line that is not valid
    /// UTF-8 counts as an error and is skipped; any other line counts as a
    /// framed message and is processed into a reply, with the reply lines
    /// fixed exactly as `process_message` fixes them.
    pub fn handle_line(&self, line: &Vec<u8>, stats: &mut ServerStats) -> (r: LineOutcome)
        requires
            self.wf(),
            old(stats).total_messages < usize::MAX,
            old(stats).total_errors < usize::MAX,
        ensures
            !valid_utf8(line@) ==> (r is SkippedInvalidUtf8 && final(stats).total_errors == old(
                stats,
            ).total_errors + 1 && final(stats).total_messages == old(stats).total_messages),
            valid_utf8(line@) ==> (r is Reply && final(stats).total_messages == old(
                stats,
            ).total_messages + 1 && final(stats).total_errors == old(stats).total_errors),
            valid_utf8(line@) && !req_decodes(decode_utf8(line@)) ==> (r
                matches LineOutcome::Reply(reply) && reply@ == spec_error_line(
                spec_invalid_request_id(),
                PARSE_ERROR_CODE as int,
                spec_parse_error_message(),
                Option::None,
            )),
            valid_utf8(line@) && req_decodes(decode_utf8(line@)) && !self.has_tool(
                req_fn_of(decode_utf8(line@)),
            ) ==> (r matches LineOutcome::Reply(reply) && reply@ == spec_error_line(
                req_id_of(decode_utf8(line@)),
                NOT_FOUND_CODE as int,
                spec_not_found_prefix() + req_fn_of(decode_utf8(line@)),
                Option::None,
            )),
            valid_utf8(line@) && req_decodes(decode_utf8(line@)) && self.has_tool(
                req_fn_of(decode_utf8(line@)),
            ) ==> (r matches LineOutcome::Reply(reply) && ((exists|t: Seq<char>|
                reply@ == spec_success_line(req_id_of(decode_utf8(line@)), t)) || (exists|
                m: Seq<char>,
            |
                reply@ == spec_error_line(
                    req_id_of(decode_utf8(line@)),
                    HANDLER_ERROR_CODE as int,
                    spec_handler_error_prefix() + m,
                    Option::None,
                )))),
            final(stats).total_connections == old(stats).total_connections,
            final(stats).active_connections == old(stats).active_connections,
    {
        match bytes_to_str(line) {
            Option::None => {
                stats.record_error();
                LineOutcome::SkippedInvalidUtf8
            },
            Option::Some(message) => {
                stats.record_message();
                match self.process_message(message) {
                    Option::Some(reply) => LineOutcome::Reply(reply),
                    Option::None => LineOutcome::Reply(String::new()),
                }
            },
        }
    }
}

/// Law: registering the same name twice leaves only the second entry
/// reachable — after `register_tool(name, d1, h1)` and then
/// `register_tool(name, d2, h2)` on a well-formed registry, the entry for
/// `name` holds `d2` and `h2`, and every other name resolves exactly as it
/// did before either registration.
pub proof fn lemma_register_replace<H>(
    r0: Router<H>,
    r1: Router<H>,
    r2: Router<H>,
    name: Seq<char>,
    d1: ToolDefinition,
    h1: H,
    d2: ToolDefinition,
    h2: H,
)
    requires
        r0.wf(),
        // what register_tool(name, d1, h1) ensures of r1:
        r1.wf(),
        r1.has_tool(name),
        r1.entry_for(name).definition == d1,
        r1.entry_for(name).handler == h1,
        forall|n: Seq<char>|
            n != name ==> (#[trigger] r1.has_tool(n) == r0.has_tool(n) && (r0.has_tool(n)
                ==> r1.entry_for(n) == r0.entry_for(n))),
        // what register_tool(name, d2, h2) ensures of r2:
        r2.wf(),
        r2.has_tool(name),
        r2.entry_for(name).definition == d2,
        r2.entry_for(name).handler == h2,
        forall|n: Seq<char>|
            n != name ==> (#[trigger] r2.has_tool(n) == r1.has_tool(n) && (r1.has_tool(n)
                ==> r2.entry_for(n) == r1.entry_for(n))),
    ensures
        r2.entry_for(name).definition == d2,
        r2.entry_for(name).handler == h2,
        forall|n: Seq<char>|
            n != name ==> (#[trigger] r2.has_tool(n) == r0.has_tool(n) && (r0.has_tool(n)
                ==> r2.entry_for(n) == r0.entry_for(n))),
{
}

} // verus!
