//! Records of what the use of models cost. Amounts of money are held as the bits of 64-bit
//! floating-point numbers.

use crate::ids::fresh_id;
use crate::text_map::TextMap;
use vstd::prelude::*;

verus! {

/// Tokens used by one request.
#[derive(Debug)]
pub struct TokenUsage {
    /// The model, with its provider.
    pub model: String,
    /// Tokens read.
    pub input_tokens: u64,
    /// Tokens written.
    pub output_tokens: u64,
    /// Tokens read and written.
    pub total_tokens: u64,
    /// Cost in dollars.
    pub cost_usd: u64,
    /// When the request was made, in nanoseconds since the epoch.
    pub timestamp: i128,
    /// Tokens read from the prompt cache.
    pub cache_read_tokens: Option<u64>,
    /// Tokens written to the prompt cache.
    pub cache_write_tokens: Option<u64>,
}

/// The sum of two counts, or the largest count where it is larger.
pub open spec fn capped_sum(a: u64, b: u64) -> u64 {
    if a + b <= u64::MAX {
        (a + b) as u64
    } else {
        u64::MAX
    }
}

impl TokenUsage {
    /// What one request used, and what it cost.
    pub fn new(
        model: &str,
        input_tokens: u64,
        output_tokens: u64,
        cost_usd: u64,
        timestamp: i128,
    ) -> (r: Self)
        ensures
            r.model@ == model@,
            r.input_tokens == input_tokens,
            r.output_tokens == output_tokens,
            r.total_tokens == capped_sum(input_tokens, output_tokens),
            r.cost_usd == cost_usd,
            r.timestamp == timestamp,
            r.cache_read_tokens is None,
            r.cache_write_tokens is None,
    {
        TokenUsage::with_cache(model, input_tokens, output_tokens, cost_usd, timestamp, None, None)
    }

    /// What one request used, with its use of the prompt cache.
    pub fn with_cache(
        model: &str,
        input_tokens: u64,
        output_tokens: u64,
        cost_usd: u64,
        timestamp: i128,
        cache_read_tokens: Option<u64>,
        cache_write_tokens: Option<u64>,
    ) -> (r: Self)
        ensures
            r.model@ == model@,
            r.input_tokens == input_tokens,
            r.output_tokens == output_tokens,
            r.total_tokens == capped_sum(input_tokens, output_tokens),
            r.cost_usd == cost_usd,
            r.timestamp == timestamp,
            r.cache_read_tokens == cache_read_tokens,
            r.cache_write_tokens == cache_write_tokens,
    {
        let total_tokens: u64 = if input_tokens <= u64::MAX - output_tokens {
            input_tokens + output_tokens
        } else {
            u64::MAX
        };
        TokenUsage {
            model: model.to_owned(),
            input_tokens,
            output_tokens,
            total_tokens,
            cost_usd,
            timestamp,
            cache_read_tokens,
            cache_write_tokens,
        }
    }

    /// The cost.
    pub fn cost(&self) -> (r: u64)
        ensures
            r == self.cost_usd,
    {
        self.cost_usd
    }
}

/// Where the tokens of a request went, in bytes.
#[derive(Debug, Clone, Copy)]
pub struct TokenBreakdown {
    /// Tool descriptions and hardware instructions.
    pub tooling: u64,
    /// Guardrails and security rules.
    pub safety: u64,
    /// Skill instructions.
    pub skills: u64,
    /// Who the agent and its user are.
    pub identity: u64,
    /// Notes of the workspace.
    pub workspace_files: u64,
    /// Date, model, workspace and channel.
    pub runtime: u64,
    /// Earlier turns.
    pub conversation_history: u64,
    /// Outputs of earlier tool calls.
    pub tool_results: u64,
    /// What was recalled.
    pub memory_context: u64,
    /// The incoming message.
    pub user_message: u64,
    /// Group history, participants and metadata.
    pub channel_context: u64,
    /// The reply.
    pub assistant_response: u64,
    /// Tool calls.
    pub tool_calls_output: u64,
    /// Reasoning.
    pub thinking: u64,
}

impl Default for TokenBreakdown {
    fn default() -> (r: Self)
        ensures
            r.input_bytes() == 0,
            r.output_bytes() == 0,
    {
        TokenBreakdown {
            tooling: 0,
            safety: 0,
            skills: 0,
            identity: 0,
            workspace_files: 0,
            runtime: 0,
            conversation_history: 0,
            tool_results: 0,
            memory_context: 0,
            user_message: 0,
            channel_context: 0,
            assistant_response: 0,
            tool_calls_output: 0,
            thinking: 0,
        }
    }
}

impl TokenBreakdown {
    /// Bytes read.
    pub open spec fn input_bytes(&self) -> int {
        self.tooling + self.safety + self.skills + self.identity + self.workspace_files
            + self.runtime + self.conversation_history + self.tool_results + self.memory_context
            + self.user_message + self.channel_context
    }

    /// Bytes written.
    pub open spec fn output_bytes(&self) -> int {
        self.assistant_response + self.tool_calls_output + self.thinking
    }

    /// Bytes read.
    pub fn total_input_bytes(&self) -> (r: u64)
        requires
            self.input_bytes() <= u64::MAX,
        ensures
            r == self.input_bytes(),
    {
        self.tooling + self.safety + self.skills + self.identity + self.workspace_files
            + self.runtime + self.conversation_history + self.tool_results + self.memory_context
            + self.user_message + self.channel_context
    }

    /// Bytes written.
    pub fn total_output_bytes(&self) -> (r: u64)
        requires
            self.output_bytes() <= u64::MAX,
        ensures
            r == self.output_bytes(),
    {
        self.assistant_response + self.tool_calls_output + self.thinking
    }
}

/// Sizes of the sections of a system prompt, in bytes.
#[derive(Debug, Clone, Copy)]
pub struct PromptBreakdown {
    pub tooling: u64,
    pub safety: u64,
    pub skills: u64,
    pub identity: u64,
    pub workspace_files: u64,
    pub runtime: u64,
}

/// A period over which costs are added up.
#[derive(Debug, Clone, Copy, PartialEq, Eq, Structural)]
pub enum UsagePeriod {
    Session,
    Day,
    Month,
}

/// A record of what a request cost.
#[derive(Debug)]
pub struct CostRecord {
    pub id: String,
    pub usage: TokenUsage,
    /// The session.
    pub session_id: String,
    /// The channel.
    pub channel: Option<String>,
    /// The room within the channel.
    pub room: Option<String>,
    /// What kind of message led to the request.
    pub message_type: Option<String>,
    /// Where the tokens went.
    pub breakdown: Option<TokenBreakdown>,
}

impl CostRecord {
    /// A record of a request, under a fresh id.
    pub fn new(session_id: &str, usage: TokenUsage) -> (r: Self)
        ensures
            r.id@.len() == 36,
            r.usage == usage,
            r.session_id@ == session_id@,
            r.channel is None,
            r.room is None,
            r.message_type is None,
            r.breakdown is None,
    {
        CostRecord::with_breakdown(session_id, usage, None, None, None, None)
    }

    /// A record of a request and where it came from, under a fresh id.
    pub fn with_context(
        session_id: &str,
        usage: TokenUsage,
        channel: Option<String>,
        room: Option<String>,
        message_type: Option<String>,
    ) -> (r: Self)
        ensures
            r.id@.len() == 36,
            r.usage == usage,
            r.session_id@ == session_id@,
            r.channel == channel,
            r.room == room,
            r.message_type == message_type,
            r.breakdown is None,
    {
        CostRecord::with_breakdown(session_id, usage, channel, room, message_type, None)
    }

    /// A record of a request, where it came from and where its tokens went, under a fresh id.
    pub fn with_breakdown(
        session_id: &str,
        usage: TokenUsage,
        channel: Option<String>,
        room: Option<String>,
        message_type: Option<String>,
        breakdown: Option<TokenBreakdown>,
    ) -> (r: Self)
        ensures
            r.id@.len() == 36,
            r.usage == usage,
            r.session_id@ == session_id@,
            r.channel == channel,
            r.room == room,
            r.message_type == message_type,
            r.breakdown == breakdown,
    {
        CostRecord {
            id: fresh_id(),
            usage,
            session_id: session_id.to_owned(),
            channel,
            room,
            message_type,
            breakdown,
        }
    }
}

/// Whether a request fits the budget.
#[derive(Debug, Clone, Copy)]
pub enum BudgetCheck {
    /// It may go on.
    Allowed,
    /// It may go on, but little is left.
    Warning { current_usd: u64, limit_usd: u64, period: UsagePeriod },
    /// It may not.
    Exceeded { current_usd: u64, limit_usd: u64, period: UsagePeriod },
}

/// What was spent on a model.
#[derive(Debug)]
pub struct ModelStats {
    pub model: String,
    pub cost_usd: u64,
    pub total_tokens: u64,
    pub request_count: usize,
}

/// What was spent in a room.
#[derive(Debug)]
pub struct RoomStats {
    pub room: String,
    pub cost_usd: u64,
    pub total_tokens: u64,
    pub request_count: usize,
}

/// What was spent on a channel.
pub struct ChannelStats {
    pub channel: String,
    pub cost_usd: u64,
    pub total_tokens: u64,
    pub request_count: usize,
    pub by_room: TextMap<RoomStats>,
}

/// What was spent in a session, a day and a month.
pub struct CostSummary {
    pub session_cost_usd: u64,
    pub daily_cost_usd: u64,
    pub monthly_cost_usd: u64,
    pub total_tokens: u64,
    pub request_count: usize,
    pub by_model: TextMap<ModelStats>,
}

impl Default for CostSummary {
    fn default() -> (r: Self)
        ensures
            r.session_cost_usd == 0,
            r.daily_cost_usd == 0,
            r.monthly_cost_usd == 0,
            r.total_tokens == 0,
            r.request_count == 0,
            r.by_model@ == Map::<Seq<char>, ModelStats>::empty(),
    {
        CostSummary {
            session_cost_usd: 0,
            daily_cost_usd: 0,
            monthly_cost_usd: 0,
            total_tokens: 0,
            request_count: 0,
            by_model: TextMap::new(),
        }
    }
}

/// What was used in a period, by model and by channel.
pub struct UsageBreakdown {
    pub total_cost_usd: u64,
    pub total_input_tokens: u64,
    pub total_output_tokens: u64,
    pub total_cache_read_tokens: u64,
    pub total_cache_write_tokens: u64,
    pub request_count: usize,
    pub by_model: TextMap<ModelStats>,
    pub by_channel: TextMap<ChannelStats>,
    pub token_breakdown: Option<TokenBreakdown>,
}

/// The sum of two counts, unless it is too large: then it is the largest count.
pub proof fn sums_are_capped(a: u64, b: u64)
    ensures
        capped_sum(a, b) <= a + b,
        capped_sum(a, b) == a + b || capped_sum(a, b) == u64::MAX,
        a + b <= u64::MAX ==> capped_sum(a, b) == a + b,
{
}

/// What the model wrote counts as written, and everything else as read.
pub proof fn written_and_read(b: TokenBreakdown)
    ensures
        ({
            let read = TokenBreakdown {
                assistant_response: 0,
                tool_calls_output: 0,
                thinking: 0,
                ..b
            };
            &&& read.output_bytes() == 0
            &&& read.input_bytes() == b.input_bytes()
        }),
        ({
            let none = TokenBreakdown {
                tooling: 0,
                safety: 0,
                skills: 0,
                identity: 0,
                workspace_files: 0,
                runtime: 0,
                conversation_history: 0,
                tool_results: 0,
                memory_context: 0,
                user_message: 0,
                channel_context: 0,
                ..b
            };
            &&& none.input_bytes() == 0
            &&& none.output_bytes() == b.output_bytes()
            &&& b.output_bytes() == b.assistant_response + b.tool_calls_output + b.thinking
        }),
{
}

/// Each part of a prompt counts once among the bytes read, and each part of an answer once among the
/// bytes written: a byte more in one of them is a byte more in the sum, and nothing else counts.
pub proof fn each_part_counts_once(a: TokenBreakdown, b: TokenBreakdown)
    ensures
        a.input_bytes() - b.input_bytes() == (a.tooling - b.tooling) + (a.safety - b.safety) + (
        a.skills - b.skills) + (a.identity - b.identity) + (a.workspace_files - b.workspace_files) + (
        a.runtime - b.runtime) + (a.conversation_history - b.conversation_history) + (a.tool_results
            - b.tool_results) + (a.memory_context - b.memory_context) + (a.user_message
            - b.user_message) + (a.channel_context - b.channel_context),
        a.output_bytes() - b.output_bytes() == (a.assistant_response - b.assistant_response) + (
        a.tool_calls_output - b.tool_calls_output) + (a.thinking - b.thinking),
        a.input_bytes() >= a.channel_context,
        a.output_bytes() >= a.thinking,
{
}

} // verus!
