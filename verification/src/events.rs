//! Event envelopes and the per-client subscription set.

use vstd::prelude::*;
use vstd::string::StringSliceAdditionalSpecFns;

verus! {

/// The five kinds of event a session can emit.
#[derive(Clone, Copy, PartialEq, Eq, Structural, Debug)]
pub enum EventKind {
    Init,
    Output,
    Resize,
    Snapshot,
    Exit,
}

/// An event delivered to subscribers.  `Init` reports the session's
/// geometry and child pid; `Output` carries a chunk of the child's output;
/// `Resize` reports a new geometry; `Snapshot` carries a screen dump;
/// `Exit` is terminal and carries the child's exit report.
pub enum Event {
    Init { cols: usize, rows: usize, pid: i32 },
    Output { seq: String },
    Resize { cols: usize, rows: usize },
    Snapshot { data: String },
    Exit { code: i32, signal: Option<i32> },
}

impl Event {
    /// The kind tag of this event.
    pub open spec fn kind(self) -> EventKind {
        match self {
            Event::Init { .. } => EventKind::Init,
            Event::Output { .. } => EventKind::Output,
            Event::Resize { .. } => EventKind::Resize,
            Event::Snapshot { .. } => EventKind::Snapshot,
            Event::Exit { .. } => EventKind::Exit,
        }
    }

    pub fn get_kind(&self) -> (k: EventKind)
        ensures
            k == self.kind(),
    {
        match self {
            Event::Init { .. } => EventKind::Init,
            Event::Output { .. } => EventKind::Output,
            Event::Resize { .. } => EventKind::Resize,
            Event::Snapshot { .. } => EventKind::Snapshot,
            Event::Exit { .. } => EventKind::Exit,
        }
    }

    /// An exact copy of this event.
    pub fn duplicate(&self) -> (r: Event)
        ensures
            r == *self,
    {
        match self {
            Event::Init { cols, rows, pid } => Event::Init { cols: *cols, rows: *rows, pid: *pid },
            Event::Output { seq } => Event::Output { seq: seq.clone() },
            Event::Resize { cols, rows } => Event::Resize { cols: *cols, rows: *rows },
            Event::Snapshot { data } => Event::Snapshot { data: data.clone() },
            Event::Exit { code, signal } => Event::Exit { code: *code, signal: *signal },
        }
    }
}

/// The set of event kinds a client has opted in to receive.  The empty set
/// is legal: such a client receives nothing but may still issue commands.
#[derive(Clone, Copy, Debug)]
pub struct Subscription {
    pub init: bool,
    pub snapshot: bool,
    pub resize: bool,
    pub output: bool,
    pub exit: bool,
}

impl Subscription {
    /// Whether events of kind `k` are delivered under this subscription.
    pub open spec fn spec_allows(self, k: EventKind) -> bool {
        match k {
            EventKind::Init => self.init,
            EventKind::Output => self.output,
            EventKind::Resize => self.resize,
            EventKind::Snapshot => self.snapshot,
            EventKind::Exit => self.exit,
        }
    }

    pub fn allows(&self, k: EventKind) -> (r: bool)
        ensures
            r == self.spec_allows(k),
    {
        match k {
            EventKind::Init => self.init,
            EventKind::Output => self.output,
            EventKind::Resize => self.resize,
            EventKind::Snapshot => self.snapshot,
            EventKind::Exit => self.exit,
        }
    }

    /// The subscription with every kind enabled.
    pub fn all() -> (r: Subscription)
        ensures
            forall|k: EventKind| r.spec_allows(k),
    {
        Subscription { init: true, snapshot: true, resize: true, output: true, exit: true }
    }
}

impl Default for Subscription {
    /// The empty subscription: no kind is delivered.
    fn default() -> (r: Subscription)
        ensures
            forall|k: EventKind| !r.spec_allows(k),
    {
        Subscription { init: false, snapshot: false, resize: false, output: false, exit: false }
    }
}

/// The ASCII comma that separates event names.
pub open spec fn comma() -> u8 {
    44u8
}

/// `[i, j)` is one comma-separated token of `s`: it abuts a comma or an
/// end of the string on both sides and holds no comma itself.
pub open spec fn is_token_range(s: Seq<u8>, i: int, j: int) -> bool {
    &&& 0 <= i <= j <= s.len()
    &&& (i == 0 || s[i - 1] == comma())
    &&& (j == s.len() || s[j] == comma())
    &&& forall|k: int| i <= k < j ==> s[k] != comma()
}

pub open spec fn name_init() -> Seq<u8> {
    seq![105u8, 110u8, 105u8, 116u8]
}

pub open spec fn name_output() -> Seq<u8> {
    seq![111u8, 117u8, 116u8, 112u8, 117u8, 116u8]
}

pub open spec fn name_resize() -> Seq<u8> {
    seq![114u8, 101u8, 115u8, 105u8, 122u8, 101u8]
}

pub open spec fn name_snapshot() -> Seq<u8> {
    seq![115u8, 110u8, 97u8, 112u8, 115u8, 104u8, 111u8, 116u8]
}

pub open spec fn name_exit() -> Seq<u8> {
    seq![101u8, 120u8, 105u8, 116u8]
}

/// A token is a known event name.
pub open spec fn valid_event_name(t: Seq<u8>) -> bool {
    ||| t == name_init()
    ||| t == name_output()
    ||| t == name_resize()
    ||| t == name_snapshot()
    ||| t == name_exit()
}

/// The classification of one token.
enum TokenKind {
    Init,
    Output,
    Resize,
    Snapshot,
    Exit,
    Unknown,
}

/// Compare the token `[start, end)` of `b` against `name_init`.
fn token_is_init(b: &[u8], start: usize, end: usize) -> (r: bool)
    requires
        start <= end <= b@.len(),
    ensures
        r == (b@.subrange(start as int, end as int) =~= name_init()),
{
    end - start == 4 && b[start] == 105 && b[start + 1] == 110 && b[start + 2] == 105 && b[start
        + 3] == 116
}

/// Compare the token `[start, end)` of `b` against `name_output`.
fn token_is_output(b: &[u8], start: usize, end: usize) -> (r: bool)
    requires
        start <= end <= b@.len(),
    ensures
        r == (b@.subrange(start as int, end as int) =~= name_output()),
{
    end - start == 6 && b[start] == 111 && b[start + 1] == 117 && b[start + 2] == 116 && b[start
        + 3] == 112 && b[start + 4] == 117 && b[start + 5] == 116
}

/// Compare the token `[start, end)` of `b` against `name_resize`.
fn token_is_resize(b: &[u8], start: usize, end: usize) -> (r: bool)
    requires
        start <= end <= b@.len(),
    ensures
        r == (b@.subrange(start as int, end as int) =~= name_resize()),
{
    end - start == 6 && b[start] == 114 && b[start + 1] == 101 && b[start + 2] == 115 && b[start
        + 3] == 105 && b[start + 4] == 122 && b[start + 5] == 101
}

/// Compare the token `[start, end)` of `b` against `name_snapshot`.
fn token_is_snapshot(b: &[u8], start: usize, end: usize) -> (r: bool)
    requires
        start <= end <= b@.len(),
    ensures
        r == (b@.subrange(start as int, end as int) =~= name_snapshot()),
{
    end - start == 8 && b[start] == 115 && b[start + 1] == 110 && b[start + 2] == 97 && b[start
        + 3] == 112 && b[start + 4] == 115 && b[start + 5] == 104 && b[start + 6] == 111 && b[start
        + 7] == 116
}

/// Compare the token `[start, end)` of `b` against `name_exit`.
fn token_is_exit(b: &[u8], start: usize, end: usize) -> (r: bool)
    requires
        start <= end <= b@.len(),
    ensures
        r == (b@.subrange(start as int, end as int) =~= name_exit()),
{
    end - start == 4 && b[start] == 101 && b[start + 1] == 120 && b[start + 2] == 105 && b[start
        + 3] == 116
}

/// Classify the token `[start, end)` of `b`: which event name it is, if
/// any.  The five names are pairwise distinct, so exactly one arm of the
/// contract can hold.
fn classify_token(b: &[u8], start: usize, end: usize) -> (r: TokenKind)
    requires
        start <= end <= b@.len(),
    ensures
        (r is Init) == (b@.subrange(start as int, end as int) == name_init()),
        (r is Output) == (b@.subrange(start as int, end as int) == name_output()),
        (r is Resize) == (b@.subrange(start as int, end as int) == name_resize()),
        (r is Snapshot) == (b@.subrange(start as int, end as int) == name_snapshot()),
        (r is Exit) == (b@.subrange(start as int, end as int) == name_exit()),
        (r is Unknown) == !valid_event_name(b@.subrange(start as int, end as int)),
{
    if token_is_init(b, start, end) {
        TokenKind::Init
    } else if token_is_output(b, start, end) {
        TokenKind::Output
    } else if token_is_resize(b, start, end) {
        TokenKind::Resize
    } else if token_is_snapshot(b, start, end) {
        TokenKind::Snapshot
    } else if token_is_exit(b, start, end) {
        TokenKind::Exit
    } else {
        TokenKind::Unknown
    }
}

/// The first token of `s` that is not a known event name, as its byte
/// range.
#[derive(Debug, Clone, Copy, PartialEq, Eq, Structural)]
pub struct InvalidEventName {
    pub start: usize,
    pub end: usize,
}

/// Some token of `s` ending before `bound` equals `name`.
pub open spec fn has_token_below(s: Seq<u8>, name: Seq<u8>, bound: int) -> bool {
    exists|i: int, j: int| is_token_range(s, i, j) && j < bound && s.subrange(i, j) == name
}

/// Some token of `s` equals `name`.
pub open spec fn subscribes_to(s: Seq<u8>, name: Seq<u8>) -> bool {
    exists|i: int, j: int| is_token_range(s, i, j) && s.subrange(i, j) == name
}

/// Every token of `s` ending before `bound` is a known event name.
pub open spec fn all_tokens_valid_below(s: Seq<u8>, bound: int) -> bool {
    forall|i: int, j: int|
        is_token_range(s, i, j) && j < bound ==> valid_event_name(#[trigger] s.subrange(i, j))
}

/// Every token of `s` is a known event name.
pub open spec fn all_tokens_valid(s: Seq<u8>) -> bool {
    forall|i: int, j: int|
        is_token_range(s, i, j) ==> valid_event_name(#[trigger] s.subrange(i, j))
}

/// The five event names are pairwise distinct.
proof fn lemma_names_distinct()
    ensures
        name_init() != name_output(),
        name_init() != name_resize(),
        name_init() != name_snapshot(),
        name_init() != name_exit(),
        name_output() != name_resize(),
        name_output() != name_snapshot(),
        name_output() != name_exit(),
        name_resize() != name_snapshot(),
        name_resize() != name_exit(),
        name_snapshot() != name_exit(),
{
    assert(name_init().len() == 4 && name_exit().len() == 4);
    assert(name_output().len() == 6 && name_resize().len() == 6);
    assert(name_snapshot().len() == 8);
    assert(name_init()[0] == 105u8 && name_exit()[0] == 101u8);
    assert(name_output()[0] == 111u8 && name_resize()[0] == 114u8);
}

/// Inside a comma-free stretch `[start, pos)` that begins after a comma or
/// the start of the string and ends before a comma or the end of the
/// string, the only token reaching into the stretch is `[start, pos)`
/// itself.
proof fn lemma_token_in_stretch(s: Seq<u8>, start: int, pos: int, i: int, j: int)
    requires
        0 <= start <= pos <= s.len(),
        start == 0 || s[start - 1] == comma(),
        pos == s.len() || s[pos] == comma(),
        forall|k: int| start <= k < pos ==> s[k] != comma(),
        is_token_range(s, i, j),
        start <= j <= pos,
    ensures
        i == start,
        j == pos,
{
    if j < pos {
        assert(s[j] == comma());
    }
    if i < start {
        assert(s[start - 1] == comma());
        assert(i <= start - 1 < j);
    }
    if i > start {
        assert(s[i - 1] == comma());
        assert(start <= i - 1 < pos);
    }
}

/// Extending the processed region of `s` across the token `[start, pos)`
/// adds exactly that token: `name` occurs below `pos + 1` iff it occurred
/// below `start` or the new token is `name`.
proof fn lemma_has_token_extend(s: Seq<u8>, start: int, pos: int, name: Seq<u8>)
    requires
        0 <= start <= pos <= s.len(),
        start == 0 || s[start - 1] == comma(),
        pos == s.len() || s[pos] == comma(),
        forall|k: int| start <= k < pos ==> s[k] != comma(),
    ensures
        has_token_below(s, name, pos + 1) == (has_token_below(s, name, start) || s.subrange(
            start,
            pos,
        ) == name),
{
    if has_token_below(s, name, pos + 1) {
        let (i, j) = choose|i: int, j: int|
            is_token_range(s, i, j) && j < pos + 1 && s.subrange(i, j) == name;
        if j >= start {
            lemma_token_in_stretch(s, start, pos, i, j);
        }
    }
    if has_token_below(s, name, start) {
        let (i, j) = choose|i: int, j: int|
            is_token_range(s, i, j) && j < start && s.subrange(i, j) == name;
        assert(is_token_range(s, i, j) && j < pos + 1 && s.subrange(i, j) == name);
    }
    if s.subrange(start, pos) == name {
        assert(is_token_range(s, start, pos) && pos < pos + 1);
    }
}

/// Extending the processed region of `s` across the token `[start, pos)`
/// keeps every processed token valid iff the new token is valid too.
proof fn lemma_valid_extend(s: Seq<u8>, start: int, pos: int)
    requires
        0 <= start <= pos <= s.len(),
        start == 0 || s[start - 1] == comma(),
        pos == s.len() || s[pos] == comma(),
        forall|k: int| start <= k < pos ==> s[k] != comma(),
        all_tokens_valid_below(s, start),
        valid_event_name(s.subrange(start, pos)),
    ensures
        all_tokens_valid_below(s, pos + 1),
{
    assert forall|i: int, j: int| is_token_range(s, i, j) && j < pos + 1 implies valid_event_name(
        #[trigger] s.subrange(i, j),
    ) by {
        if j >= start {
            lemma_token_in_stretch(s, start, pos, i, j);
        }
    }
}

/// Every token ends at or before the end of the string, so a bound past
/// the end bounds nothing.
proof fn lemma_below_is_all(s: Seq<u8>, name: Seq<u8>)
    ensures
        has_token_below(s, name, s.len() as int + 1) == subscribes_to(s, name),
        all_tokens_valid_below(s, s.len() as int + 1) == all_tokens_valid(s),
{
    if has_token_below(s, name, s.len() as int + 1) {
        let (i, j) = choose|i: int, j: int|
            is_token_range(s, i, j) && j < s.len() as int + 1 && s.subrange(i, j) == name;
        assert(is_token_range(s, i, j) && s.subrange(i, j) == name);
    }
    if subscribes_to(s, name) {
        let (i, j) = choose|i: int, j: int| is_token_range(s, i, j) && s.subrange(i, j) == name;
        assert(is_token_range(s, i, j) && j < s.len() as int + 1 && s.subrange(i, j) == name);
    }
    if all_tokens_valid_below(s, s.len() as int + 1) {
        assert forall|i: int, j: int| is_token_range(s, i, j) implies valid_event_name(
            #[trigger] s.subrange(i, j),
        ) by {
            assert(j < s.len() as int + 1);
        }
    }
}

/// Parse a comma-separated subscription list.
///
/// Exactly the five event names are admitted.  On success, each field of
/// the result holds iff some comma-separated token of the input equals
/// its name; on failure, the returned range is the first token that is
/// not a known event name, and every token ending before it is one.
pub fn parse_subscription(s: &str) -> (r: Result<Subscription, InvalidEventName>)
    ensures
        match r {
            Ok(sub) => {
                &&& all_tokens_valid(s.spec_bytes())
                &&& sub.init == subscribes_to(s.spec_bytes(), name_init())
                &&& sub.output == subscribes_to(s.spec_bytes(), name_output())
                &&& sub.resize == subscribes_to(s.spec_bytes(), name_resize())
                &&& sub.snapshot == subscribes_to(s.spec_bytes(), name_snapshot())
                &&& sub.exit == subscribes_to(s.spec_bytes(), name_exit())
            },
            Err(e) => {
                &&& is_token_range(s.spec_bytes(), e.start as int, e.end as int)
                &&& !valid_event_name(s.spec_bytes().subrange(e.start as int, e.end as int))
                &&& all_tokens_valid_below(s.spec_bytes(), e.end as int)
            },
        },
{
    let b = s.as_bytes();
    let n = b.len();
    let ghost bs = s.spec_bytes();
    let mut sub = Subscription {
        init: false,
        snapshot: false,
        resize: false,
        output: false,
        exit: false,
    };
    let mut start: usize = 0;
    let mut pos: usize = 0;
    while pos <= n
        invariant
            bs == s.spec_bytes(),
            b@ == bs,
            n == bs.len(),
            start <= pos <= n,
            start == 0 || bs[start as int - 1] == comma(),
            forall|k: int| start <= k < pos ==> bs[k] != comma(),
            all_tokens_valid_below(bs, start as int),
            sub.init == has_token_below(bs, name_init(), start as int),
            sub.output == has_token_below(bs, name_output(), start as int),
            sub.resize == has_token_below(bs, name_resize(), start as int),
            sub.snapshot == has_token_below(bs, name_snapshot(), start as int),
            sub.exit == has_token_below(bs, name_exit(), start as int),
        decreases n - pos,
    {
        if pos == n || b[pos] == 44 {
            proof {
                assert(is_token_range(bs, start as int, pos as int));
            }
            let kind = classify_token(b, start, pos);
            let ghost tok = bs.subrange(start as int, pos as int);
            let ghost old_sub = sub;
            proof {
                lemma_names_distinct();
                lemma_has_token_extend(bs, start as int, pos as int, name_init());
                lemma_has_token_extend(bs, start as int, pos as int, name_output());
                lemma_has_token_extend(bs, start as int, pos as int, name_resize());
                lemma_has_token_extend(bs, start as int, pos as int, name_snapshot());
                lemma_has_token_extend(bs, start as int, pos as int, name_exit());
            }
            match kind {
                TokenKind::Init => {
                    sub.init = true;
                },
                TokenKind::Output => {
                    sub.output = true;
                },
                TokenKind::Resize => {
                    sub.resize = true;
                },
                TokenKind::Snapshot => {
                    sub.snapshot = true;
                },
                TokenKind::Exit => {
                    sub.exit = true;
                },
                TokenKind::Unknown => {
                    proof {
                        assert forall|i: int, j: int|
                            is_token_range(bs, i, j) && j < pos as int implies valid_event_name(
                            #[trigger] bs.subrange(i, j),
                        ) by {
                            if j >= start {
                                lemma_token_in_stretch(bs, start as int, pos as int, i, j);
                            }
                        }
                    }
                    return Err(InvalidEventName { start, end: pos });
                },
            }
            proof {
                lemma_valid_extend(bs, start as int, pos as int);
                assert(sub.init == has_token_below(bs, name_init(), pos as int + 1));
                assert(sub.output == has_token_below(bs, name_output(), pos as int + 1));
                assert(sub.resize == has_token_below(bs, name_resize(), pos as int + 1));
                assert(sub.snapshot == has_token_below(bs, name_snapshot(), pos as int + 1));
                assert(sub.exit == has_token_below(bs, name_exit(), pos as int + 1));
            }
            if pos == n {
                proof {
                    lemma_below_is_all(bs, name_init());
                    lemma_below_is_all(bs, name_output());
                    lemma_below_is_all(bs, name_resize());
                    lemma_below_is_all(bs, name_snapshot());
                    lemma_below_is_all(bs, name_exit());
                }
                return Ok(sub);
            } else {
                start = pos + 1;
                pos = pos + 1;
            }
        } else {
            pos = pos + 1;
        }
    }
    proof {
        assert(false);
    }
    Ok(sub)
}

} // verus!
