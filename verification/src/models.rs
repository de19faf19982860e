//! Requests to a language model, and its replies.

use vstd::prelude::*;

verus! {

/// The system prompt of a request.
#[non_exhaustive]
#[derive(Debug)]
pub enum SystemPrompt {
    /// The prompt as one text.
    Text(String),
}

/// The tokens that a request took.
#[derive(Debug, Clone, Copy, PartialEq, Eq, Structural)]
pub struct Usage {
    pub input_tokens: u32,
    pub output_tokens: u32,
}

/// A part of a message.
#[derive(Debug)]
pub enum ContentBlock {
    /// Text. Its cache control, if any, is JSON text.
    Text { text: String, cache_control: Option<String> },
    /// A part that holds no text.
    Other,
}

/// A message of a conversation.
#[derive(Debug)]
pub struct Message {
    pub role: String,
    pub content: Vec<ContentBlock>,
}

/// A request to a language model. Tools, the choice among them, metadata and the thinking
/// configuration are JSON text.
#[derive(Debug)]
pub struct MessageRequest {
    pub model: String,
    pub messages: Vec<Message>,
    pub max_tokens: u32,
    pub system: Option<SystemPrompt>,
    pub tools: Option<String>,
    pub tool_choice: Option<String>,
    pub metadata: Option<String>,
    pub thinking: Option<String>,
    pub reasoning_effort: Option<String>,
    pub stream: Option<bool>,
    /// The sampling temperature, in tenths.
    pub temperature_tenths: Option<u32>,
    /// The probability mass of nucleus sampling, in tenths.
    pub top_p_tenths: Option<u32>,
}

/// The reply to a request.
#[derive(Debug)]
pub struct MessageResponse {
    pub content: Vec<ContentBlock>,
    pub usage: Usage,
}

/// The sum of `a` and `b`, or the largest `u32` where it is larger.
pub open spec fn capped_sum(a: u32, b: u32) -> u32 {
    if a + b <= u32::MAX {
        (a + b) as u32
    } else {
        u32::MAX
    }
}

/// The tokens of `a` and of `b` together.
pub open spec fn usage_sum(a: Usage, b: Usage) -> Usage {
    Usage {
        input_tokens: capped_sum(a.input_tokens, b.input_tokens),
        output_tokens: capped_sum(a.output_tokens, b.output_tokens),
    }
}

/// No tokens.
pub open spec fn no_usage() -> Usage {
    Usage { input_tokens: 0, output_tokens: 0 }
}

impl Default for Usage {
    fn default() -> (u: Self)
        ensures
            u == no_usage(),
    {
        Usage { input_tokens: 0, output_tokens: 0 }
    }
}

impl Usage {
    /// Counts the tokens of `other` too.
    pub fn accumulate(&mut self, other: &Usage)
        ensures
            *final(self) == usage_sum(*old(self), *other),
            final(self).input_tokens == if old(self).input_tokens + other.input_tokens <= u32::MAX {
                old(self).input_tokens + other.input_tokens
            } else {
                u32::MAX as int
            },
            final(self).output_tokens == if old(self).output_tokens + other.output_tokens
                <= u32::MAX {
                old(self).output_tokens + other.output_tokens
            } else {
                u32::MAX as int
            },
    {
        self.input_tokens = self.input_tokens.saturating_add(other.input_tokens);
        self.output_tokens = self.output_tokens.saturating_add(other.output_tokens);
    }
}

/// The texts of the text blocks of `content`, in order.
pub open spec fn block_texts(content: Seq<ContentBlock>) -> Seq<Seq<char>>
    decreases content.len(),
{
    if content.len() == 0 {
        seq![]
    } else {
        let before = block_texts(content.drop_last());
        match content.last() {
            ContentBlock::Text { text, .. } => before.push(text@),
            ContentBlock::Other => before,
        }
    }
}

/// The tokens of `start` and of all of `list`.
pub open spec fn usage_total(start: Usage, list: Seq<Usage>) -> Usage
    decreases list.len(),
{
    if list.len() == 0 {
        start
    } else {
        usage_sum(usage_total(start, list.drop_last()), list.last())
    }
}

/// The sum of the input tokens of `list`.
pub open spec fn input_sum(list: Seq<Usage>) -> nat
    decreases list.len(),
{
    if list.len() == 0 {
        0
    } else {
        input_sum(list.drop_last()) + list.last().input_tokens as nat
    }
}

/// The sum of the output tokens of `list`.
pub open spec fn output_sum(list: Seq<Usage>) -> nat
    decreases list.len(),
{
    if list.len() == 0 {
        0
    } else {
        output_sum(list.drop_last()) + list.last().output_tokens as nat
    }
}

/// What has been counted is the exact sum, or the largest `u32` where that is larger.
pub proof fn law_usage_total_is_the_capped_sum(list: Seq<Usage>)
    ensures
        usage_total(no_usage(), list).input_tokens == if input_sum(list) <= u32::MAX {
            input_sum(list) as int
        } else {
            u32::MAX as int
        },
        usage_total(no_usage(), list).output_tokens == if output_sum(list) <= u32::MAX {
            output_sum(list) as int
        } else {
            u32::MAX as int
        },
    decreases list.len(),
{
    if list.len() > 0 {
        law_usage_total_is_the_capped_sum(list.drop_last());
    }
}

/// The order in which usage is counted does not matter, counting never lowers it, and a call that
/// took no tokens leaves it as it was.
pub proof fn law_usage_counting(total: Usage, a: Usage, b: Usage)
    ensures
        usage_sum(total, no_usage()) == total,
        no_usage().input_tokens == 0,
        no_usage().output_tokens == 0,
        total.input_tokens + a.input_tokens <= u32::MAX ==> usage_sum(total, a).input_tokens
            == total.input_tokens + a.input_tokens,
        total.input_tokens + a.input_tokens > u32::MAX ==> usage_sum(total, a).input_tokens
            == u32::MAX,
        total.output_tokens + a.output_tokens <= u32::MAX ==> usage_sum(total, a).output_tokens
            == total.output_tokens + a.output_tokens,
        total.output_tokens + a.output_tokens > u32::MAX ==> usage_sum(total, a).output_tokens
            == u32::MAX,
        usage_sum(usage_sum(total, a), b) == usage_sum(usage_sum(total, b), a),
        usage_sum(total, a).input_tokens >= total.input_tokens,
        usage_sum(total, a).output_tokens >= total.output_tokens,
{
}

/// The texts of two contents in a row are those of the one and then those of the other. A text
/// block has its text, and any other block none.
pub proof fn law_block_texts_add_up(a: Seq<ContentBlock>, b: Seq<ContentBlock>, block: ContentBlock)
    ensures
        block_texts(a + b) == block_texts(a) + block_texts(b),
        block matches ContentBlock::Text { text, .. } ==> block_texts(seq![block]) == seq![text@],
        block is Other ==> block_texts(seq![block]).len() == 0,
    decreases b.len(),
{
    reveal_with_fuel(block_texts, 2);
    assert(seq![block].drop_last() =~= seq![]);
    assert(seq![block].last() == block);
    if let ContentBlock::Text { text, .. } = block {
        assert(block_texts(seq![block]) =~= seq![text@]);
    }
    if b.len() == 0 {
        assert(a + b =~= a);
        assert(block_texts(a) + block_texts(b) =~= block_texts(a));
    } else {
        assert((a + b).drop_last() =~= a + b.drop_last());
        assert((a + b).last() == b.last());
        law_block_texts_add_up(a, b.drop_last(), block);
        assert(block_texts(a + b) =~= block_texts(a) + block_texts(b));
    }
}

} // verus!
