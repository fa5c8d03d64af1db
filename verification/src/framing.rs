//! Framing: splitting a continuous byte stream into discrete
//! newline-terminated messages over a growable buffer. Bytes are fed in as
//! they arrive; complete lines come out one at a time, in arrival order.

use vstd::prelude::*;
use vstd::pervasive::VecAdditionalExecFns;

verus! {

/// The newline byte that terminates each message.
pub const NEWLINE: u8 = 10;

/// Index of the first newline byte, if any.
pub open spec fn spec_find_newline(s: Seq<u8>) -> Option<int>
    decreases s.len(),
{
    if s.len() == 0 {
        Option::None
    } else if s[0] == NEWLINE {
        Option::Some(0)
    } else {
        match spec_find_newline(s.drop_first()) {
            Option::Some(i) => Option::Some(i + 1),
            Option::None => Option::None,
        }
    }
}

/// What `spec_find_newline` finds is the first newline.
pub proof fn lemma_find_newline(s: Seq<u8>)
    ensures
        spec_find_newline(s) matches Some(i) ==> 0 <= i < s.len() && s[i] == NEWLINE && (forall|
            k: int,
        | 0 <= k < i ==> s[k] != NEWLINE),
        spec_find_newline(s) is None ==> forall|k: int| 0 <= k < s.len() ==> s[k] != NEWLINE,
    decreases s.len(),
{
    if s.len() > 0 && s[0] != NEWLINE {
        let t = s.drop_first();
        lemma_find_newline(t);
        match spec_find_newline(t) {
            Option::Some(i) => {
                assert(s[i + 1] == t[i]);
                assert forall|k: int| 0 <= k < i + 1 implies s[k] != NEWLINE by {
                    if k > 0 {
                        assert(s[k] == t[k - 1]);
                    }
                }
            },
            Option::None => {
                assert forall|k: int| 0 <= k < s.len() implies s[k] != NEWLINE by {
                    if k > 0 {
                        assert(s[k] == t[k - 1]);
                    }
                }
            },
        }
    }
}

/// Conversely: the first newline is what `spec_find_newline` finds.
pub proof fn lemma_newline_at(s: Seq<u8>, i: int)
    requires
        0 <= i < s.len(),
        s[i] == NEWLINE,
        forall|k: int| 0 <= k < i ==> s[k] != NEWLINE,
    ensures
        spec_find_newline(s) == Option::Some(i),
    decreases s.len(),
{
    if i > 0 {
        let t = s.drop_first();
        assert(t[i - 1] == s[i]);
        assert forall|k: int| 0 <= k < i - 1 implies t[k] != NEWLINE by {
            assert(t[k] == s[k + 1]);
        }
        lemma_newline_at(t, i - 1);
    }
}

/// A read buffer that frames newline-terminated messages. Fed bytes append
/// to the unprocessed region; extracting a message removes the first
/// complete line and its newline. The backing allocation starts at 8 KiB;
/// when the unprocessed bytes would not fit, it grows by half as often as
/// needed, so large messages cost few reallocations.
pub struct FrameBuffer {
    buf: Vec<u8>,
    len: usize,
}

impl FrameBuffer {
    /// The unprocessed bytes: fed, but not yet extracted as messages.
    pub closed spec fn contents(self) -> Seq<u8> {
        self.buf@.take(self.len as int)
    }

    /// The unprocessed bytes fit in the backing allocation.
    pub closed spec fn wf(self) -> bool {
        self.len <= self.buf@.len()
    }

    /// The size of the backing allocation.
    pub closed spec fn spec_capacity(self) -> int {
        self.buf@.len() as int
    }

    /// The size of the backing allocation.
    pub fn capacity(&self) -> (r: usize)
        ensures
            r == self.spec_capacity(),
    {
        self.buf.len()
    }

    /// How many unprocessed bytes the buffer holds.
    pub fn pending_len(&self) -> (r: usize)
        requires
            self.wf(),
        ensures
            r == self.contents().len(),
    {
        self.len
    }

    /// A fresh, empty buffer with the initial 8 KiB allocation.
    pub fn new() -> (r: FrameBuffer)
        ensures
            r.wf(),
            r.contents() == Seq::<u8>::empty(),
            r.spec_capacity() == 8192,
    {
        let r = FrameBuffer { buf: vec![0u8; 8192], len: 0 };
        proof {
            assert(r.contents() =~= Seq::<u8>::empty());
        }
        r
    }

    /// Append freshly read bytes to the unprocessed region, growing the
    /// allocation by half (repeatedly) when they would not fit.
    pub fn feed(&mut self, chunk: &[u8])
        requires
            old(self).wf(),
            old(self).contents().len() + chunk@.len() <= usize::MAX / 2,
        ensures
            final(self).wf(),
            final(self).contents() == old(self).contents() + chunk@,
    {
        let need: usize = self.len + chunk.len();
        let mut cap: usize = self.buf.len();
        while cap < need
            invariant
                need <= usize::MAX / 2,
            decreases (if cap < need {
                need - cap
            } else {
                0int
            }),
        {
            cap = cap + cap / 2 + 1;
        }
        if cap > self.buf.len() {
            let ghost pre = self.buf@;
            self.buf.resize(cap, 0);
            proof {
                assert(self.buf@.take(self.len as int) =~= pre.take(self.len as int));
            }
        }
        let ghost base = self.buf@;
        let mut j: usize = 0;
        while j < chunk.len()
            invariant
                j <= chunk@.len(),
                self.len + chunk@.len() <= self.buf@.len(),
                self.buf@.len() <= usize::MAX,
                self.buf@.len() == base.len(),
                self.len == old(self).len,
                forall|m: int| 0 <= m < self.len ==> self.buf@[m] == base[m],
                forall|m: int| 0 <= m < j ==> self.buf@[self.len + m] == chunk@[m],
                base.take(self.len as int) == old(self).contents(),
            decreases chunk@.len() - j,
        {
            self.buf.set(self.len + j, chunk[j]);
            j = j + 1;
        }
        self.len = need;
        proof {
            assert(self.contents() =~= old(self).contents() + chunk@);
        }
    }

    /// Extract the next complete message: the bytes before the first
    /// newline, which are removed from the buffer along with the newline.
    /// `None` when no complete line is buffered yet; the buffer is then
    /// unchanged.
    pub fn next_message(&mut self) -> (r: Option<Vec<u8>>)
        requires
            old(self).wf(),
        ensures
            final(self).wf(),
            spec_find_newline(old(self).contents()) is None ==> r is None && final(self).contents()
                == old(self).contents(),
            spec_find_newline(old(self).contents()) matches Some(i) ==> (r matches Some(line)
                && line@ == old(self).contents().take(i) && final(self).contents() == old(
                self,
            ).contents().skip(i + 1)),
    {
        let mut i: usize = 0;
        let mut found = false;
        while i < self.len && !found
            invariant
                self == old(self),
                self.wf(),
                i <= self.len,
                !found ==> forall|k: int| 0 <= k < i ==> self.contents()[k] != NEWLINE,
                found ==> i < self.len && self.contents()[i as int] == NEWLINE && (forall|k: int|
                    0 <= k < i ==> self.contents()[k] != NEWLINE),
            decreases self.len - i + (if found { 0int } else { 1int }),
        {
            if self.buf[i] == NEWLINE {
                found = true;
            } else {
                i = i + 1;
            }
        }
        if !found {
            proof {
                lemma_find_newline(self.contents());
                match spec_find_newline(self.contents()) {
                    Option::Some(k) => {
                        assert(self.contents()[k] != NEWLINE);
                    },
                    Option::None => {},
                }
            }
            return Option::None;
        }
        proof {
            lemma_newline_at(self.contents(), i as int);
        }
        let mut line: Vec<u8> = Vec::new();
        let mut j: usize = 0;
        while j < i
            invariant
                self == old(self),
                self.wf(),
                i < self.len,
                j <= i,
                line@ == self.contents().take(i as int).take(j as int),
            decreases i - j,
        {
            line.push(self.buf[j]);
            j = j + 1;
            proof {
                assert(line@ =~= self.contents().take(i as int).take(j as int));
            }
        }
        proof {
            assert(line@ =~= self.contents().take(i as int));
        }
        let ghost before = self.contents();
        let rest: usize = self.len - i - 1;
        let mut k: usize = 0;
        while k < rest
            invariant
                self.wf(),
                i + 1 + rest <= self.len,
                self.len == old(self).len,
                self.buf@.len() == old(self).buf@.len(),
                k <= rest,
                forall|m: int| k <= m < self.len ==> self.buf@[m] == old(self).buf@[m],
                forall|m: int| 0 <= m < k ==> self.buf@[m] == before[i + 1 + m],
                before == old(self).contents(),
            decreases rest - k,
        {
            let b = self.buf[i + 1 + k];
            proof {
                assert(self.buf@[i + 1 + k] == old(self).buf@[i + 1 + k]);
                assert(old(self).buf@[i + 1 + k] == before[i + 1 + k]);
            }
            self.buf.set(k, b);
            k = k + 1;
        }
        self.len = rest;
        proof {
            assert(self.contents() =~= before.skip(i + 1));
        }
        Option::Some(line)
    }
}

/// Law: framing is insensitive to how reads split the stream — feeding `x`
/// and then `y` leaves the same unprocessed bytes as feeding `x + y` at
/// once, whatever was buffered before.
pub proof fn lemma_feed_in_pieces(initial: Seq<u8>, x: Seq<u8>, y: Seq<u8>)
    ensures
        (initial + x) + y == initial + (x + y),
{
    assert((initial + x) + y =~= initial + (x + y));
}

/// Law: one chunk holding two complete lines yields exactly those two
/// messages, in order — after the first extraction the buffer holds the
/// second line, and after the second it is empty.
pub proof fn lemma_two_messages_in_one_chunk(a: Seq<u8>, b: Seq<u8>)
    requires
        !a.contains(NEWLINE),
        !b.contains(NEWLINE),
    ensures
        ({
            let s = a + seq![NEWLINE] + b + seq![NEWLINE];
            let t = b + seq![NEWLINE];
            &&& spec_find_newline(s) == Option::Some(a.len() as int)
            &&& s.take(a.len() as int) == a
            &&& s.skip(a.len() as int + 1) == t
            &&& spec_find_newline(t) == Option::Some(b.len() as int)
            &&& t.take(b.len() as int) == b
            &&& t.skip(b.len() as int + 1) == Seq::<u8>::empty()
        }),
{
    let s = a + seq![NEWLINE] + b + seq![NEWLINE];
    let t = b + seq![NEWLINE];
    assert forall|k: int| 0 <= k < a.len() implies s[k] != NEWLINE by {
        assert(s[k] == a[k]);
        assert(!a.contains(NEWLINE));
        if a[k] == NEWLINE {
            assert(a.contains(NEWLINE));
        }
    }
    assert(s[a.len() as int] == NEWLINE);
    lemma_newline_at(s, a.len() as int);
    assert(s.take(a.len() as int) =~= a);
    assert(s.skip(a.len() as int + 1) =~= t);
    assert forall|k: int| 0 <= k < b.len() implies t[k] != NEWLINE by {
        assert(t[k] == b[k]);
        if b[k] == NEWLINE {
            assert(b.contains(NEWLINE));
        }
    }
    assert(t[b.len() as int] == NEWLINE);
    lemma_newline_at(t, b.len() as int);
    assert(t.take(b.len() as int) =~= b);
    assert(t.skip(b.len() as int + 1) =~= Seq::<u8>::empty());
}

} // verus!
