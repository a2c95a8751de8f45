//! One agent turn's stream, folded item by item: the reply text, the token
//! usage of every completion call, and the arguments of each tool call, so a
//! tool result can be matched with what its execution recorded for display.
//!
//! The host drives the stream: it feeds each item to `StreamFold::step`,
//! sends the events the step returns, and looks up the display record for the
//! arguments the step hands back.

use vstd::prelude::*;

use crate::error::EngineError;
use crate::json::{clone_json, Json, JsonV};
use crate::text::{chars_eq, chars_of, extend_str, string_of};

verus! {

/// Per-turn token usage accumulated from all completion calls in the turn.
#[derive(Debug, Clone, Copy)]
pub struct TurnUsage {
    pub input_tokens: u64,
    pub output_tokens: u64,
    pub cached_input_tokens: u64,
    pub cache_creation_input_tokens: u64,
}

impl Default for TurnUsage {
    fn default() -> (r: Self)
        ensures
            r.input_tokens == 0,
            r.output_tokens == 0,
            r.cached_input_tokens == 0,
            r.cache_creation_input_tokens == 0,
    {
        TurnUsage {
            input_tokens: 0,
            output_tokens: 0,
            cached_input_tokens: 0,
            cache_creation_input_tokens: 0,
        }
    }
}

impl TurnUsage {
    /// Sum of the four counters.
    pub open spec fn spec_total(&self) -> int {
        self.input_tokens + self.output_tokens + self.cached_input_tokens
            + self.cache_creation_input_tokens
    }

    /// The counters of `self` and `other` added pairwise.
    pub open spec fn fits_sum(&self, other: &TurnUsage) -> bool {
        &&& self.input_tokens + other.input_tokens <= u64::MAX
        &&& self.output_tokens + other.output_tokens <= u64::MAX
        &&& self.cached_input_tokens + other.cached_input_tokens <= u64::MAX
        &&& self.cache_creation_input_tokens + other.cache_creation_input_tokens <= u64::MAX
    }

    /// Total tokens consumed this turn (input + output + cache).
    pub fn total(&self) -> (r: u64)
        requires
            self.spec_total() <= u64::MAX,
        ensures
            r == self.spec_total(),
    {
        self.input_tokens + self.output_tokens + self.cached_input_tokens
            + self.cache_creation_input_tokens
    }

    /// Whether any usage was reported.
    pub fn is_empty(&self) -> (r: bool)
        ensures
            r == (self.input_tokens == 0 && self.output_tokens == 0 && self.cached_input_tokens
                == 0 && self.cache_creation_input_tokens == 0),
    {
        self.input_tokens == 0 && self.output_tokens == 0 && self.cached_input_tokens == 0
            && self.cache_creation_input_tokens == 0
    }

    /// Add the usage of one completion call.
    pub fn record(&mut self, call: &TurnUsage)
        requires
            old(self).fits_sum(call),
        ensures
            final(self).input_tokens == old(self).input_tokens + call.input_tokens,
            final(self).output_tokens == old(self).output_tokens + call.output_tokens,
            final(self).cached_input_tokens == old(self).cached_input_tokens
                + call.cached_input_tokens,
            final(self).cache_creation_input_tokens == old(self).cache_creation_input_tokens
                + call.cache_creation_input_tokens,
    {
        self.input_tokens = self.input_tokens + call.input_tokens;
        self.output_tokens = self.output_tokens + call.output_tokens;
        self.cached_input_tokens = self.cached_input_tokens + call.cached_input_tokens;
        self.cache_creation_input_tokens = self.cache_creation_input_tokens
            + call.cache_creation_input_tokens;
    }
}

/// One item of an agent turn's stream.
#[derive(Debug)]
pub enum StreamItem {
    /// A piece of the assistant's reply.
    Text(String),
    /// The model asked for a tool.
    ToolCall { id: String, name: String, arguments: Json },
    /// A tool's result, already parsed (a plain string when it is not JSON).
    ToolResult { id: String, output: Json },
    /// The usage of one completion call.
    CompletionCall(TurnUsage),
    /// The final response text.
    FinalResponse(String),
    /// The stream failed with this message.
    Failed(String),
    /// Any other item; ignored.
    Other,
}

/// An event sent to the client while the turn streams.
#[derive(Debug)]
pub enum StreamEvent {
    TextDelta { delta: String },
    ToolInputAvailable { tool_call_id: String, tool_name: String, input: Json },
    ToolOutputAvailable { tool_call_id: String, output: Json },
}

/// What the host does after one item.
#[derive(Debug)]
pub enum StreamStep {
    /// Send `events` in order; when `display_args` is present, take the
    /// display record with these arguments and send it after them.
    Continue { events: Vec<StreamEvent>, display_args: Option<Json> },
    /// Stop the turn with this error.
    Stop(EngineError),
}

/// The fold's state.
#[derive(Debug)]
pub struct StreamFold {
    reply: Vec<char>,
    usage: TurnUsage,
    call_args: Vec<(String, Json)>,
}

/// The value of the fold: the reply so far, the usage so far, and the
/// arguments of each tool call by call id (the last call with an id wins).
pub struct StreamFoldV {
    pub reply: Seq<char>,
    pub usage: TurnUsage,
    pub call_args: Map<Seq<char>, JsonV>,
}

/// The map that a list of `(id, arguments)` pairs with distinct ids denotes.
pub open spec fn args_map(pairs: Seq<(String, Json)>) -> Map<Seq<char>, JsonV>
    decreases pairs.len(),
{
    if pairs.len() == 0 {
        Map::empty()
    } else {
        args_map(pairs.drop_last()).insert(pairs.last().0@, pairs.last().1@)
    }
}

/// No id occurs twice.
pub open spec fn distinct_ids(pairs: Seq<(String, Json)>) -> bool {
    forall|i: int, j: int| 0 <= i < j < pairs.len() ==> pairs[i].0@ != pairs[j].0@
}

proof fn lemma_args_map_index(pairs: Seq<(String, Json)>, k: int)
    requires
        distinct_ids(pairs),
        0 <= k < pairs.len(),
    ensures
        args_map(pairs).contains_key(pairs[k].0@),
        args_map(pairs)[pairs[k].0@] == pairs[k].1@,
    decreases pairs.len(),
{
    if k < pairs.len() - 1 {
        lemma_args_map_index(pairs.drop_last(), k);
    }
}

proof fn lemma_args_map_keys(pairs: Seq<(String, Json)>, key: Seq<char>)
    requires
        args_map(pairs).contains_key(key),
    ensures
        exists|k: int| 0 <= k < pairs.len() && pairs[k].0@ == key,
    decreases pairs.len(),
{
    if pairs.last().0@ != key {
        lemma_args_map_keys(pairs.drop_last(), key);
        let k = choose|k: int| 0 <= k < pairs.len() - 1 && pairs.drop_last()[k].0@ == key;
        assert(pairs[k].0@ == key);
    }
}

proof fn lemma_args_map_update(pairs: Seq<(String, Json)>, k: int, v: (String, Json))
    requires
        distinct_ids(pairs),
        0 <= k < pairs.len(),
        v.0@ == pairs[k].0@,
    ensures
        distinct_ids(pairs.update(k, v)),
        args_map(pairs.update(k, v)) == args_map(pairs).insert(v.0@, v.1@),
    decreases pairs.len(),
{
    let u = pairs.update(k, v);
    if k == pairs.len() - 1 {
        assert(u.drop_last() =~= pairs.drop_last());
        assert(!args_map(pairs.drop_last()).contains_key(v.0@)) by {
            if args_map(pairs.drop_last()).contains_key(v.0@) {
                lemma_args_map_keys(pairs.drop_last(), v.0@);
            }
        }
        assert(args_map(u) =~= args_map(pairs).insert(v.0@, v.1@));
    } else {
        lemma_args_map_update(pairs.drop_last(), k, v);
        assert(u.drop_last() =~= pairs.drop_last().update(k, v));
        assert(pairs.last().0@ != v.0@);
        assert(args_map(u) =~= args_map(pairs).insert(v.0@, v.1@));
    }
}

impl View for StreamFold {
    type V = StreamFoldV;

    closed spec fn view(&self) -> StreamFoldV {
        StreamFoldV { reply: self.reply@, usage: self.usage, call_args: args_map(self.call_args@) }
    }
}

/// What one item does to the fold's value (a failure leaves it unchanged).
pub open spec fn spec_step(s: StreamFoldV, item: StreamItem) -> StreamFoldV {
    match item {
        StreamItem::Text(t) => StreamFoldV { reply: s.reply + t@, ..s },
        StreamItem::ToolCall { id, name, arguments } => StreamFoldV {
            call_args: s.call_args.insert(id@, arguments@),
            ..s
        },
        StreamItem::CompletionCall(u) => StreamFoldV {
            usage: TurnUsage {
                input_tokens: (s.usage.input_tokens + u.input_tokens) as u64,
                output_tokens: (s.usage.output_tokens + u.output_tokens) as u64,
                cached_input_tokens: (s.usage.cached_input_tokens + u.cached_input_tokens) as u64,
                cache_creation_input_tokens: (s.usage.cache_creation_input_tokens
                    + u.cache_creation_input_tokens) as u64,
            },
            ..s
        },
        StreamItem::FinalResponse(t) => if s.reply.len() == 0 && t@.len() > 0 {
            StreamFoldV { reply: t@, ..s }
        } else {
            s
        },
        _ => s,
    }
}

/// The events and display lookup one (non-failing) item produces from `s`.
pub open spec fn step_output(s: StreamFoldV, item: StreamItem, r: StreamStep) -> bool {
    match r {
        StreamStep::Stop(_) => false,
        StreamStep::Continue { events, display_args } => match item {
            StreamItem::Text(t) => display_args is None && events@.len() == 1 && (
            events@[0] matches StreamEvent::TextDelta { delta } && delta == t),
            StreamItem::ToolCall { id, name, arguments } => display_args is None && events@.len()
                == 1 && (events@[0] matches StreamEvent::ToolInputAvailable {
                tool_call_id,
                tool_name,
                input,
            } && tool_call_id == id && tool_name == name && input@ == arguments@),
            StreamItem::ToolResult { id, output } => events@.len() == 1 && (
            events@[0] matches StreamEvent::ToolOutputAvailable { tool_call_id, output: o }
                && tool_call_id == id && o@ == output@) && match display_args {
                Some(a) => s.call_args.contains_key(id@) && a@ == s.call_args[id@],
                None => !s.call_args.contains_key(id@),
            },
            StreamItem::FinalResponse(t) => display_args is None && if s.reply.len() == 0
                && t@.len() > 0 {
                events@.len() == 1 && (events@[0] matches StreamEvent::TextDelta { delta }
                    && delta == t)
            } else {
                events@.len() == 0
            },
            _ => display_args is None && events@.len() == 0,
        },
    }
}

/// The reply text one item streams to the client from state `s`.
pub open spec fn streamed_text(s: StreamFoldV, item: StreamItem) -> Seq<char> {
    match item {
        StreamItem::Text(t) => t@,
        StreamItem::FinalResponse(t) => if s.reply.len() == 0 && t@.len() > 0 {
            t@
        } else {
            Seq::empty()
        },
        _ => Seq::empty(),
    }
}

/// The text carried by the text deltas among `events`, in order.
pub open spec fn events_text(events: Seq<StreamEvent>) -> Seq<char>
    decreases events.len(),
{
    if events.len() == 0 {
        Seq::empty()
    } else {
        events_text(events.drop_last()) + match events.last() {
            StreamEvent::TextDelta { delta } => delta@,
            _ => Seq::empty(),
        }
    }
}

proof fn lemma_events_text_one(e: StreamEvent)
    ensures
        events_text(seq![e]) == match e {
            StreamEvent::TextDelta { delta } => delta@,
            _ => Seq::empty(),
        },
{
    let one = seq![e];
    let d = match e {
        StreamEvent::TextDelta { delta } => delta@,
        _ => Seq::<char>::empty(),
    };
    assert(one.len() == 1);
    assert(one.last() == e);
    assert(one.drop_last() =~= Seq::<StreamEvent>::empty());
    assert(events_text(Seq::<StreamEvent>::empty()) == Seq::<char>::empty());
    assert(events_text(one) == events_text(one.drop_last()) + d);
    assert(Seq::<char>::empty() + d =~= d);
}

/// The state after folding `items` in order, from `s`.
pub open spec fn fold_items(s: StreamFoldV, items: Seq<StreamItem>) -> StreamFoldV
    decreases items.len(),
{
    if items.len() == 0 {
        s
    } else {
        spec_step(fold_items(s, items.drop_last()), items.last())
    }
}

/// The reply text streamed to the client while folding `items` from `s`.
pub open spec fn sent_text(s: StreamFoldV, items: Seq<StreamItem>) -> Seq<char>
    decreases items.len(),
{
    if items.len() == 0 {
        Seq::empty()
    } else {
        sent_text(s, items.drop_last()) + streamed_text(
            fold_items(s, items.drop_last()),
            items.last(),
        )
    }
}

/// The reply a turn returns is exactly the text it streamed: after any run of
/// items, the reply is the starting reply followed by every text delta sent.
pub proof fn lemma_reply_is_streamed_text(s: StreamFoldV, items: Seq<StreamItem>)
    ensures
        fold_items(s, items).reply == s.reply + sent_text(s, items),
    decreases items.len(),
{
    if items.len() == 0 {
        assert(s.reply + Seq::<char>::empty() =~= s.reply);
    } else {
        lemma_reply_is_streamed_text(s, items.drop_last());
        let p = fold_items(s, items.drop_last());
        match items.last() {
            StreamItem::FinalResponse(t) => {
                if p.reply.len() == 0 && t@.len() > 0 {
                    assert(s.reply + sent_text(s, items.drop_last()) =~= Seq::<char>::empty());
                    assert(s.reply + sent_text(s, items) =~= t@);
                } else {
                    assert(s.reply + sent_text(s, items) =~= s.reply + sent_text(s, items.drop_last()));
                }
            },
            StreamItem::Text(t) => {
                assert(s.reply + sent_text(s, items) =~= s.reply + sent_text(s, items.drop_last())
                    + t@);
            },
            _ => {
                assert(s.reply + sent_text(s, items) =~= s.reply + sent_text(s, items.drop_last()));
            },
        }
    }
}

/// Whether one item fits the fold without a counter overflowing.
pub open spec fn step_fits(s: StreamFoldV, item: StreamItem) -> bool {
    match item {
        StreamItem::CompletionCall(u) => s.usage.fits_sum(&u),
        _ => true,
    }
}

impl StreamFold {
    /// Invariant: tool-call ids are distinct.
    pub closed spec fn wf(&self) -> bool {
        distinct_ids(self.call_args@)
    }

    /// A fold before the first item: no reply, no usage, no calls.
    pub fn new() -> (r: Self)
        ensures
            r.wf(),
            r@.reply.len() == 0,
            r@.usage.input_tokens == 0 && r@.usage.output_tokens == 0,
            r@.usage.cached_input_tokens == 0 && r@.usage.cache_creation_input_tokens == 0,
            r@.call_args == Map::<Seq<char>, JsonV>::empty(),
    {
        StreamFold { reply: Vec::new(), usage: TurnUsage::default(), call_args: Vec::new() }
    }

    /// The arguments recorded for call `id`.
    fn args_for(&self, id: &str) -> (r: Option<Json>)
        requires
            self.wf(),
        ensures
            match r {
                Some(a) => self@.call_args.contains_key(id@) && a@ == self@.call_args[id@],
                None => !self@.call_args.contains_key(id@),
            },
    {
        let key = chars_of(id);
        let mut i: usize = 0;
        while i < self.call_args.len()
            invariant
                self.wf(),
                i <= self.call_args@.len(),
                key@ == id@,
                forall|j: int| 0 <= j < i ==> #[trigger] self.call_args@[j].0@ != id@,
            decreases self.call_args@.len() - i,
        {
            if chars_eq(&chars_of(self.call_args[i].0.as_str()), &key) {
                proof {
                    lemma_args_map_index(self.call_args@, i as int);
                }
                return Some(clone_json(&self.call_args[i].1));
            }
            i += 1;
        }
        proof {
            if args_map(self.call_args@).contains_key(id@) {
                lemma_args_map_keys(self.call_args@, id@);
            }
        }
        None
    }

    /// Record the arguments of call `id`, replacing earlier ones.
    fn remember_call(&mut self, id: String, arguments: Json)
        requires
            old(self).wf(),
        ensures
            final(self).wf(),
            final(self)@ == (StreamFoldV {
                call_args: old(self)@.call_args.insert(id@, arguments@),
                ..old(self)@
            }),
    {
        let key = chars_of(id.as_str());
        let mut i: usize = 0;
        while i < self.call_args.len()
            invariant
                *self == *old(self),
                self.wf(),
                i <= self.call_args@.len(),
                key@ == id@,
                forall|j: int| 0 <= j < i ==> #[trigger] self.call_args@[j].0@ != id@,
            decreases self.call_args@.len() - i,
        {
            if chars_eq(&chars_of(self.call_args[i].0.as_str()), &key) {
                let ghost before = self.call_args@;
                let ghost pair = (id, arguments);
                proof {
                    lemma_args_map_update(before, i as int, pair);
                }
                self.call_args.set(i, (id, arguments));
                proof {
                    assert(self.call_args@ =~= before.update(i as int, pair));
                }
                return;
            }
            i += 1;
        }
        let ghost before = self.call_args@;
        self.call_args.push((id, arguments));
        proof {
            assert(self.call_args@.drop_last() =~= before);
            assert(distinct_ids(self.call_args@)) by {
                assert forall|a: int, b: int| 0 <= a < b < self.call_args@.len() implies
                    self.call_args@[a].0@ != self.call_args@[b].0@ by {
                    if b < before.len() {
                        assert(self.call_args@[a] == before[a]);
                        assert(self.call_args@[b] == before[b]);
                    } else {
                        assert(self.call_args@[a] == before[a]);
                    }
                }
            }
        }
    }

    /// Fold one item.
    ///
    /// Text is appended to the reply and sent as a delta. A tool call's
    /// arguments are remembered under its id and its input is sent. A tool
    /// result's output is sent, and the arguments of its call (when known) are
    /// handed back for the display lookup. A completion call's usage is added.
    /// The final response replaces the reply, and is sent, only when nothing
    /// was streamed before and it is not empty. A failure stops the turn with
    /// `EngineError::Other` carrying the message. Other items change nothing.
    pub fn step(&mut self, item: StreamItem) -> (r: StreamStep)
        requires
            old(self).wf(),
            step_fits(old(self)@, item),
        ensures
            final(self).wf(),
            match item {
                StreamItem::Failed(m) => final(self)@ == old(self)@ && (r matches StreamStep::Stop(
                    EngineError::Other(e),
                ) && e == m),
                _ => final(self)@ == spec_step(old(self)@, item) && step_output(old(self)@, item, r),
            },
            r matches StreamStep::Continue { events, display_args } ==> events_text(events@)
                == streamed_text(old(self)@, item),
    {
        match item {
            StreamItem::Text(t) => {
                let delta = t.clone();
                extend_str(&mut self.reply, t.as_str());
                let events = vec![StreamEvent::TextDelta { delta }];
                proof {
                    lemma_events_text_one(events@[0]);
                    assert(events@ =~= seq![events@[0]]);
                }
                StreamStep::Continue { events, display_args: None }
            },
            StreamItem::ToolCall { id, name, arguments } => {
                let event = StreamEvent::ToolInputAvailable {
                    tool_call_id: id.clone(),
                    tool_name: name,
                    input: clone_json(&arguments),
                };
                self.remember_call(id, arguments);
                let events = vec![event];
                proof {
                    lemma_events_text_one(events@[0]);
                    assert(events@ =~= seq![events@[0]]);
                }
                StreamStep::Continue { events, display_args: None }
            },
            StreamItem::ToolResult { id, output } => {
                let display_args = self.args_for(id.as_str());
                let events = vec![StreamEvent::ToolOutputAvailable { tool_call_id: id, output }];
                proof {
                    lemma_events_text_one(events@[0]);
                    assert(events@ =~= seq![events@[0]]);
                }
                StreamStep::Continue { events, display_args }
            },
            StreamItem::CompletionCall(u) => {
                self.usage.record(&u);
                StreamStep::Continue { events: Vec::new(), display_args: None }
            },
            StreamItem::FinalResponse(t) => {
                if self.reply.len() == 0 && !t.as_str().is_empty() {
                    let text = chars_of(t.as_str());
                    self.reply = text;
                    let events = vec![StreamEvent::TextDelta { delta: t }];
                    proof {
                        lemma_events_text_one(events@[0]);
                        assert(events@ =~= seq![events@[0]]);
                    }
                    StreamStep::Continue { events, display_args: None }
                } else {
                    StreamStep::Continue { events: Vec::new(), display_args: None }
                }
            },
            StreamItem::Failed(m) => StreamStep::Stop(EngineError::Other(m)),
            StreamItem::Other => StreamStep::Continue { events: Vec::new(), display_args: None },
        }
    }

    /// The usage accumulated so far.
    pub fn usage(&self) -> (r: TurnUsage)
        ensures
            r == self@.usage,
    {
        self.usage
    }

    /// The full reply text and the accumulated usage, once the stream ends.
    pub fn finish(self) -> (r: (String, TurnUsage))
        ensures
            r.0@ == self@.reply,
            r.1 == self@.usage,
    {
        (string_of(&self.reply), self.usage)
    }
}

} // verus!
