//! Token budgeting for the conversational workshop: estimating how many
//! tokens a chat history costs and trimming it to the input limit, keeping
//! the system prompt and the most recent conversation.

use vstd::prelude::*;
use vstd::utf8::encode_utf8;

verus! {

/// The input-token budget one request may spend.
pub const MAX_INPUT_TOKENS: usize = 180000;

/// Estimated per-message overhead for role and formatting.
pub const TOKENS_PER_MESSAGE_OVERHEAD: usize = 4;

/// Estimated extra cost of a message that names its author.
pub const TOKENS_PER_NAME: usize = 1;

/// Estimated cost of one tool definition handed to the model.
pub const TOKENS_PER_TOOL: usize = 100;

/// Estimated extra cost of one tool call's structure.
pub const TOKENS_PER_TOOL_CALL: usize = 4;

/// Estimated cost of a message of an unmodelled kind.
pub const TOKENS_PER_OTHER_MESSAGE: usize = 50;

/// One tool invocation recorded on an assistant message.
#[derive(Clone, Debug)]
pub struct ToolCallFn {
    pub name: String,
    pub arguments: String,
}

/// One message of a chat history, as far as token budgeting reads it.
#[derive(Clone, Debug)]
pub enum ChatMessage {
    System { content: String, name: Option<String> },
    User { content: String, name: Option<String> },
    Assistant { content: Option<String>, name: Option<String>, tool_calls: Option<Vec<ToolCallFn>> },
    Tool { content: String, tool_call_id: String },
    Other,
}

/// How many UTF-8 bytes a text takes.
pub open spec fn spec_byte_len(s: Seq<char>) -> nat {
    encode_utf8(s).len()
}

/// The token estimate for a text: three and a half bytes per token, rounded
/// up, deliberately overestimating so a runaway history is caught early.
pub open spec fn spec_text_tokens(s: Seq<char>) -> int {
    (2 * spec_byte_len(s) as int + 6) / 7
}

/// The extra token charged when a name is present.
pub open spec fn spec_name_tokens(name: Option<String>) -> int {
    match name {
        Some(_) => TOKENS_PER_NAME as int,
        None => 0,
    }
}

/// The token estimate for one recorded tool call.
pub open spec fn spec_tool_call_tokens(c: ToolCallFn) -> int {
    spec_text_tokens(c.name@) + spec_text_tokens(c.arguments@) + TOKENS_PER_TOOL_CALL as int
}

/// The token estimate for a message's recorded tool calls.
pub open spec fn spec_tool_calls_tokens(calls: Seq<ToolCallFn>) -> int
    decreases calls.len(),
{
    if calls.len() == 0 {
        0
    } else {
        spec_tool_calls_tokens(calls.drop_last()) + spec_tool_call_tokens(calls.last())
    }
}

/// The token estimate for one message.
pub open spec fn spec_message_tokens(m: ChatMessage) -> int {
    TOKENS_PER_MESSAGE_OVERHEAD as int + match m {
        ChatMessage::System { content, name } => spec_text_tokens(content@) + spec_name_tokens(
            name,
        ),
        ChatMessage::User { content, name } => spec_text_tokens(content@) + spec_name_tokens(name),
        ChatMessage::Assistant { content, name, tool_calls } => {
            (match content {
                Some(c) => spec_text_tokens(c@),
                None => 0,
            }) + spec_name_tokens(name) + (match tool_calls {
                Some(calls) => spec_tool_calls_tokens(calls@),
                None => 0,
            })
        },
        ChatMessage::Tool { content, tool_call_id } => spec_text_tokens(content@)
            + spec_text_tokens(tool_call_id@),
        ChatMessage::Other => TOKENS_PER_OTHER_MESSAGE as int,
    }
}

/// A text's token estimate is non-negative and no bigger than its byte
/// length.
proof fn lemma_text_tokens_bounds(s: Seq<char>)
    ensures
        0 <= spec_text_tokens(s),
        spec_text_tokens(s) <= spec_byte_len(s) || spec_byte_len(s) == 0,
        spec_byte_len(s) == 0 ==> spec_text_tokens(s) == 0,
{
    let n = spec_byte_len(s) as int;
    if n == 0 {
    } else {
        assert((2 * n + 6) / 7 <= n) by (nonlinear_arith)
            requires
                n >= 1,
        ;
    }
}

/// Every component of a message estimate is non-negative.
proof fn lemma_tool_calls_tokens_nonneg(calls: Seq<ToolCallFn>)
    ensures
        spec_tool_calls_tokens(calls) >= 0,
    decreases calls.len(),
{
    if calls.len() > 0 {
        lemma_tool_calls_tokens_nonneg(calls.drop_last());
        lemma_text_tokens_bounds(calls.last().name@);
        lemma_text_tokens_bounds(calls.last().arguments@);
    }
}

/// A message estimate is at least the per-message overhead.
proof fn lemma_message_tokens_nonneg(m: ChatMessage)
    ensures
        spec_message_tokens(m) >= TOKENS_PER_MESSAGE_OVERHEAD,
{
    match m {
        ChatMessage::System { content, name } => {
            lemma_text_tokens_bounds(content@);
        },
        ChatMessage::User { content, name } => {
            lemma_text_tokens_bounds(content@);
        },
        ChatMessage::Assistant { content, name, tool_calls } => {
            match content {
                Some(c) => lemma_text_tokens_bounds(c@),
                None => (),
            }
            match tool_calls {
                Some(calls) => lemma_tool_calls_tokens_nonneg(calls@),
                None => (),
            }
        },
        ChatMessage::Tool { content, tool_call_id } => {
            lemma_text_tokens_bounds(content@);
            lemma_text_tokens_bounds(tool_call_id@);
        },
        ChatMessage::Other => (),
    }
}

/// With non-negative summands, a prefix of the tool calls costs no more
/// than all of them.
proof fn lemma_tool_calls_prefix_bound(calls: Seq<ToolCallFn>, j: int)
    requires
        0 <= j <= calls.len(),
    ensures
        0 <= spec_tool_calls_tokens(calls.subrange(0, j)),
        spec_tool_calls_tokens(calls.subrange(0, j)) <= spec_tool_calls_tokens(calls),
    decreases calls.len(),
{
    lemma_tool_calls_tokens_nonneg(calls.subrange(0, j));
    if j == calls.len() {
        assert(calls.subrange(0, j) =~= calls);
    } else {
        let shorter = calls.drop_last();
        assert(shorter.subrange(0, j) =~= calls.subrange(0, j));
        lemma_tool_calls_prefix_bound(shorter, j);
        lemma_tool_calls_tokens_nonneg(calls.drop_last());
        lemma_text_tokens_bounds(calls.last().name@);
        lemma_text_tokens_bounds(calls.last().arguments@);
    }
}

/// Estimates the tokens of a text: roughly three and a half bytes per
/// token, rounded up.
pub fn estimate_tokens_in_text(text: &str) -> (r: usize)
    ensures
        r == spec_text_tokens(text@),
{
    let len = text.as_bytes().len();
    let q = (2 * (len as u128) + 6) / 7;
    proof {
        assert(len == spec_byte_len(text@));
        lemma_text_tokens_bounds(text@);
        assert(q <= len as u128);
    }
    q as usize
}

/// Whether a message is the system prompt.
fn is_system(m: &ChatMessage) -> (r: bool)
    ensures
        r == (*m is System),
{
    match m {
        ChatMessage::System { .. } => true,
        _ => false,
    }
}

/// Estimates the tokens of one message: its text, its author name, its
/// recorded tool calls, and the per-message overhead.
pub fn estimate_tokens_in_message(message: &ChatMessage) -> (r: usize)
    requires
        spec_message_tokens(*message) <= usize::MAX,
    ensures
        r == spec_message_tokens(*message),
{
    proof {
        lemma_message_tokens_nonneg(*message);
    }
    match message {
        ChatMessage::System { content, name } => {
            proof {
                lemma_text_tokens_bounds(content@);
            }
            let mut r = TOKENS_PER_MESSAGE_OVERHEAD;
            r = r + estimate_tokens_in_text(content.as_str());
            if name.is_some() {
                r = r + TOKENS_PER_NAME;
            }
            r
        },
        ChatMessage::User { content, name } => {
            proof {
                lemma_text_tokens_bounds(content@);
            }
            let mut r = TOKENS_PER_MESSAGE_OVERHEAD;
            r = r + estimate_tokens_in_text(content.as_str());
            if name.is_some() {
                r = r + TOKENS_PER_NAME;
            }
            r
        },
        ChatMessage::Assistant { content, name, tool_calls } => {
            let mut r = TOKENS_PER_MESSAGE_OVERHEAD;
            match content {
                Some(c) => {
                    proof {
                        lemma_text_tokens_bounds(c@);
                        match tool_calls {
                            Some(calls) => lemma_tool_calls_tokens_nonneg(calls@),
                            None => (),
                        }
                    }
                    r = r + estimate_tokens_in_text(c.as_str());
                },
                None => (),
            }
            if name.is_some() {
                proof {
                    match tool_calls {
                        Some(calls) => lemma_tool_calls_tokens_nonneg(calls@),
                        None => (),
                    }
                }
                r = r + TOKENS_PER_NAME;
            }
            match tool_calls {
                Some(calls) => {
                    let ghost base = r as int;
                    let mut i: usize = 0;
                    proof {
                        assert(calls@.subrange(0, 0) =~= Seq::<ToolCallFn>::empty());
                    }
                    while i < calls.len()
                        invariant
                            i <= calls@.len(),
                            base + spec_tool_calls_tokens(calls@) <= usize::MAX,
                            base >= 0,
                            r == base + spec_tool_calls_tokens(calls@.subrange(0, i as int)),
                        decreases calls@.len() - i,
                    {
                        proof {
                            let prefix = calls@.subrange(0, i as int + 1);
                            assert(prefix.drop_last() =~= calls@.subrange(0, i as int));
                            assert(prefix.last() == calls@[i as int]);
                            lemma_tool_calls_prefix_bound(calls@, i as int + 1);
                            lemma_text_tokens_bounds(calls@[i as int].name@);
                            lemma_text_tokens_bounds(calls@[i as int].arguments@);
                            lemma_tool_calls_prefix_bound(calls@, i as int);
                        }
                        r = r + estimate_tokens_in_text(calls[i].name.as_str());
                        r = r + estimate_tokens_in_text(calls[i].arguments.as_str());
                        r = r + TOKENS_PER_TOOL_CALL;
                        i += 1;
                    }
                    proof {
                        assert(calls@.subrange(0, calls@.len() as int) =~= calls@);
                    }
                },
                None => (),
            }
            r
        },
        ChatMessage::Tool { content, tool_call_id } => {
            proof {
                lemma_text_tokens_bounds(content@);
                lemma_text_tokens_bounds(tool_call_id@);
            }
            let mut r = TOKENS_PER_MESSAGE_OVERHEAD;
            r = r + estimate_tokens_in_text(content.as_str());
            r = r + estimate_tokens_in_text(tool_call_id.as_str());
            r
        },
        ChatMessage::Other => TOKENS_PER_MESSAGE_OVERHEAD + TOKENS_PER_OTHER_MESSAGE,
    }
}

/// The messages kept when the tail of the history is scanned newest-first
/// against a token budget: a message is kept when it still fits, and the
/// scan goes on past one that does not, so older but smaller messages may
/// still make it.  The result lists the kept messages oldest-first.
pub open spec fn spec_kept(s: Seq<ChatMessage>, budget: int) -> Seq<ChatMessage>
    decreases s.len(),
{
    if s.len() == 0 {
        Seq::empty()
    } else {
        let t = spec_message_tokens(s.last());
        if t <= budget {
            spec_kept(s.drop_last(), budget - t).push(s.last())
        } else {
            spec_kept(s.drop_last(), budget)
        }
    }
}

/// How many tokens the kept messages cost.
pub open spec fn spec_kept_used(s: Seq<ChatMessage>, budget: int) -> int
    decreases s.len(),
{
    if s.len() == 0 {
        0
    } else {
        let t = spec_message_tokens(s.last());
        if t <= budget {
            t + spec_kept_used(s.drop_last(), budget - t)
        } else {
            spec_kept_used(s.drop_last(), budget)
        }
    }
}

/// Scanning one more (older) message decides it against whatever budget
/// the newer messages left over, and puts it, if kept, before them.
proof fn lemma_kept_unfold_front(x: ChatMessage, s: Seq<ChatMessage>, b: int)
    ensures
        spec_kept(seq![x] + s, b) == if spec_message_tokens(x) <= b - spec_kept_used(s, b) {
            seq![x] + spec_kept(s, b)
        } else {
            spec_kept(s, b)
        },
        spec_kept_used(seq![x] + s, b) == if spec_message_tokens(x) <= b - spec_kept_used(s, b) {
            spec_message_tokens(x) + spec_kept_used(s, b)
        } else {
            spec_kept_used(s, b)
        },
    decreases s.len(),
{
    let xs = seq![x] + s;
    if s.len() == 0 {
        let t = spec_message_tokens(x);
        let e = Seq::<ChatMessage>::empty();
        assert(xs =~= seq![x]);
        assert(xs.last() == x);
        assert(xs.drop_last() =~= e);
        assert(spec_kept(s, b) =~= e);
        assert(spec_kept_used(s, b) == 0);
        if t <= b {
            assert(spec_kept(e, b - t) =~= e);
            assert(spec_kept_used(e, b - t) == 0);
            assert(spec_kept(xs, b) =~= e.push(x));
            assert(e.push(x) =~= seq![x] + spec_kept(s, b));
        } else {
            assert(spec_kept(e, b) =~= e);
            assert(spec_kept_used(e, b) == 0);
            assert(spec_kept(xs, b) =~= e);
        }
    } else {
        assert(xs.last() == s.last());
        assert(xs.drop_last() =~= seq![x] + s.drop_last());
        let t = spec_message_tokens(s.last());
        if t <= b {
            lemma_kept_unfold_front(x, s.drop_last(), b - t);
            assert(spec_kept(xs, b) == spec_kept(seq![x] + s.drop_last(), b - t).push(s.last()));
            assert(spec_kept_used(xs, b) == t + spec_kept_used(seq![x] + s.drop_last(), b - t));
            if spec_message_tokens(x) <= b - spec_kept_used(s, b) {
                assert((seq![x] + spec_kept(s.drop_last(), b - t)).push(s.last()) =~= seq![x]
                    + spec_kept(s.drop_last(), b - t).push(s.last()));
            }
        } else {
            lemma_kept_unfold_front(x, s.drop_last(), b);
            assert(spec_kept(xs, b) == spec_kept(seq![x] + s.drop_last(), b));
            assert(spec_kept_used(xs, b) == spec_kept_used(seq![x] + s.drop_last(), b));
        }
    }
}

/// What trimming a history to the input budget returns: the leading system
/// prompt always stays and charges the budget first, along with the
/// estimated cost of the tool definitions; the rest of the history is kept
/// newest-first as the budget allows.  The kept conversation is ordered
/// oldest-first, except that without a system prompt the newest kept
/// message leads.
pub open spec fn spec_truncated(msgs: Seq<ChatMessage>, tool_count: int) -> Seq<ChatMessage> {
    let tool_tokens = TOKENS_PER_TOOL as int * tool_count;
    if msgs.len() > 0 && msgs[0] is System {
        seq![msgs[0]] + spec_kept(
            msgs.drop_first(),
            MAX_INPUT_TOKENS as int - tool_tokens - spec_message_tokens(msgs[0]),
        )
    } else {
        let k = spec_kept(msgs, MAX_INPUT_TOKENS as int - tool_tokens);
        if k.len() == 0 {
            Seq::empty()
        } else {
            seq![k.last()] + k.drop_last()
        }
    }
}

/// The token cost charged before any conversation message: the tool
/// definitions, plus the leading system prompt when there is one.
pub open spec fn spec_base_tokens(msgs: Seq<ChatMessage>, tool_count: int) -> int {
    TOKENS_PER_TOOL as int * tool_count + if msgs.len() > 0 && msgs[0] is System {
        spec_message_tokens(msgs[0])
    } else {
        0
    }
}

/// Trims a chat history to the input-token budget.  The leading system
/// prompt, when present, is always kept; the remaining messages are kept
/// newest-first while the estimate stays within the budget, and handed
/// back oldest-first.  `tool_count` is how many tool definitions ride
/// along, each charged a flat estimate.
pub fn truncate_messages_to_token_limit(messages: Vec<ChatMessage>, tool_count: usize) -> (kept:
    Vec<ChatMessage>)
    requires
        forall|i: int|
            0 <= i < messages@.len() ==> spec_message_tokens(#[trigger] messages@[i])
                <= usize::MAX,
        spec_base_tokens(messages@, tool_count as int) <= usize::MAX,
    ensures
        kept@ == spec_truncated(messages@, tool_count as int),
{
    let ghost orig = messages@;
    let mut rest = messages;
    let mut kept: Vec<ChatMessage> = Vec::new();
    let mut total: usize = TOKENS_PER_TOOL * tool_count;
    let mut has_system = false;
    if rest.len() > 0 && is_system(&rest[0]) {
        let sys = rest.remove(0);
        total = total + estimate_tokens_in_message(&sys);
        kept.push(sys);
        has_system = true;
    }
    let ghost conversation = rest@;
    let ghost base = total as int;
    let ghost budget0 = MAX_INPUT_TOKENS as int - base;
    proof {
        assert(conversation.subrange(conversation.len() as int, conversation.len() as int)
            =~= Seq::<ChatMessage>::empty());
    }
    while rest.len() > 0
        invariant
            rest@ =~= conversation.subrange(0, rest@.len() as int),
            rest@.len() <= conversation.len(),
            forall|i: int|
                0 <= i < conversation.len() ==> spec_message_tokens(#[trigger] conversation[i])
                    <= usize::MAX,
            base >= 0,
            base <= usize::MAX,
            budget0 == MAX_INPUT_TOKENS as int - base,
            total == base + spec_kept_used(
                conversation.subrange(rest@.len() as int, conversation.len() as int),
                budget0,
            ),
            total <= usize::MAX,
            spec_kept_used(
                conversation.subrange(rest@.len() as int, conversation.len() as int),
                budget0,
            ) >= 0,
            has_system ==> kept@ == seq![orig[0]] + spec_kept(
                conversation.subrange(rest@.len() as int, conversation.len() as int),
                budget0,
            ),
            !has_system ==> kept@ == {
                let k = spec_kept(
                    conversation.subrange(rest@.len() as int, conversation.len() as int),
                    budget0,
                );
                if k.len() == 0 {
                    Seq::<ChatMessage>::empty()
                } else {
                    seq![k.last()] + k.drop_last()
                }
            },
            has_system ==> orig.len() > 0 && orig[0] is System && conversation
                =~= orig.drop_first(),
            !has_system ==> conversation =~= orig && !(orig.len() > 0 && orig[0] is System),
        decreases rest@.len(),
    {
        let ghost n = rest@.len() as int;
        let ghost suffix = conversation.subrange(n, conversation.len() as int);
        let m = rest.pop().unwrap();
        proof {
            assert(m == conversation[n - 1]);
            assert(rest@ =~= conversation.subrange(0, n - 1));
            assert(conversation.subrange(n - 1, conversation.len() as int) =~= seq![m] + suffix);
            lemma_kept_unfold_front(m, suffix, budget0);
            lemma_message_tokens_nonneg(m);
        }
        let mt = estimate_tokens_in_message(&m);
        if mt <= MAX_INPUT_TOKENS && total <= MAX_INPUT_TOKENS - mt {
            total = total + mt;
            let ghost old_kept = spec_kept(suffix, budget0);
            if kept.len() == 0 {
                kept.insert(0, m);
                proof {
                    assert(!has_system);
                    assert(old_kept.len() == 0);
                    let k2 = spec_kept(seq![m] + suffix, budget0);
                    assert(k2 =~= seq![m] + old_kept);
                    assert(k2.len() == 1);
                    assert(k2.last() == m);
                    assert(kept@ =~= seq![k2.last()] + k2.drop_last());
                }
            } else {
                kept.insert(1, m);
                proof {
                    let k2 = spec_kept(seq![m] + suffix, budget0);
                    assert(k2 =~= seq![m] + old_kept);
                    if has_system {
                        assert(kept@ =~= seq![orig[0]] + k2);
                    } else {
                        assert(old_kept.len() > 0);
                        assert(k2.last() == old_kept.last());
                        assert(k2.drop_last() =~= seq![m] + old_kept.drop_last());
                        assert(kept@ =~= seq![k2.last()] + k2.drop_last());
                    }
                }
            }
        }
    }
    proof {
        assert(conversation.subrange(0, conversation.len() as int) =~= conversation);
        if has_system {
            assert(orig[0] == orig.first());
            assert(kept@ == spec_truncated(orig, tool_count as int));
        } else {
            assert(kept@ == spec_truncated(orig, tool_count as int));
        }
    }
    kept
}

/// One entry of the streamed answer: plain content, or a tool call's
/// lifecycle.
#[derive(Clone, Debug)]
pub struct StreamingEntry {
    pub content: String,
    pub entry_type: StreamingEntryType,
    pub tool_call: Option<ToolCallEntry>,
}

/// What kind of entry a streamed chunk is.
#[derive(Clone, Copy, Debug, PartialEq, Eq, Structural)]
pub enum StreamingEntryType {
    Content,
    ToolCallStart,
    ToolCallResult,
    ToolCallError,
}

/// A tool call as the stream reports it.
#[derive(Clone, Debug)]
pub struct ToolCallEntry {
    pub tool_name: String,
    pub tool_id: String,
    pub arguments: Option<String>,
    pub result: Option<String>,
    pub status: ToolCallStatus,
}

/// Where a streamed tool call stands.
#[derive(Clone, Copy, Debug, PartialEq, Eq, Structural)]
pub enum ToolCallStatus {
    Starting,
    Executing,
    Success,
    Error,
}

} // verus!
