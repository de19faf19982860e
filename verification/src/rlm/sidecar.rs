//! The sidecar that serves `llm_query()` and `sub_rlm()` calls of the code in a round.
//!
//! It listens on the local host for the time of one root turn. `POST /llm` is one completion of
//! the child model, `POST /rlm` a whole recursive turn with one less level of recursion. The
//! tokens that both take are counted, for the turn that the sidecar belongs to.

use vstd::prelude::*;

use crate::models;
use crate::models::{ContentBlock, Message, MessageRequest, MessageResponse, SystemPrompt, Usage};
use crate::rlm::json;
use crate::text::chars;
use crate::text::lines;
use crate::text::number;

verus! {

/// The seconds after which a child completion is given up.
pub const CHILD_TIMEOUT_SECS: u64 = 120;

/// The most tokens of a child completion, where the request names no number.
pub const DEFAULT_CHILD_MAX_TOKENS: u32 = 4096;

/// Where the sidecar listens: on the local host, at a port that the system picks.
pub const BIND_ADDR: &'static str = "127.0.0.1:0";

/// The path for child completions.
pub const LLM_ROUTE: &'static str = "/llm";

/// The path for recursive turns.
pub const RLM_ROUTE: &'static str = "/rlm";

/// The answer to a recursive call for which no level of recursion is left.
pub const DEPTH_EXHAUSTED: &'static str =
    "sub_rlm: recursion depth budget exhausted (configure /rlm with deeper budget)";

/// What a sidecar keeps for the turn that it belongs to.
#[derive(Debug)]
pub struct SidecarCtx {
    /// The model of child completions and recursive turns.
    pub child_model: String,
    /// The levels of recursion that are left. With `0`, recursive calls are refused.
    pub depth_remaining: u32,
    /// The tokens of all calls that were served.
    pub usage: Usage,
}

/// A request for a child completion.
#[derive(Debug)]
pub struct LlmReq {
    pub prompt: String,
    pub model: Option<String>,
    pub max_tokens: Option<u32>,
    pub system: Option<String>,
}

/// The answer to a request.
#[derive(Debug)]
pub struct LlmResp {
    pub text: String,
    pub error: Option<String>,
}

/// A request for a recursive turn.
#[derive(Debug)]
pub struct SubRlmReq {
    pub prompt: String,
}

/// What came of a child completion.
#[derive(Debug)]
pub enum LlmOutcome {
    /// The model replied.
    Replied(MessageResponse),
    /// The call failed, for the reason given.
    Failed(String),
    /// The call did not end in time.
    TimedOut,
}

/// A recursive turn to run.
#[derive(Debug)]
pub struct SubTurn {
    pub model: String,
    pub prompt: String,
    pub child_model: String,
    pub depth: u32,
}

/// What to do about a request for a recursive turn.
#[derive(Debug)]
pub enum SubRlmStep {
    /// Answer at once.
    Refuse(LlmResp),
    /// Run this turn, and answer with its result.
    Run(SubTurn),
}

/// The result of a recursive turn.
#[derive(Debug)]
pub struct RlmTurnResult {
    pub answer: String,
    pub usage: Usage,
    pub error: Option<String>,
}

/// The model that a completion uses: the one that the request names, unless its name is empty.
pub open spec fn chosen_model(named: Option<String>, child_model: Seq<char>) -> Seq<char> {
    match named {
        Some(name) => if name@.len() > 0 {
            name@
        } else {
            child_model
        },
        None => child_model,
    }
}

/// The levels of recursion of a turn that is called with `depth` levels left, if it may run.
pub open spec fn sub_turn_depth(depth: u32) -> Option<u32> {
    if depth == 0 {
        None
    } else {
        Some((depth - 1) as u32)
    }
}

/// The request of a child completion.
pub open spec fn is_child_request(
    request: MessageRequest,
    req: LlmReq,
    child_model: Seq<char>,
) -> bool {
    &&& request.model@ == chosen_model(req.model, child_model)
    &&& request.messages@.len() == 1
    &&& request.messages@[0].role@ == "user"@
    &&& request.messages@[0].content@ == seq![
        ContentBlock::Text { text: req.prompt, cache_control: None },
    ]
    &&& request.max_tokens == match req.max_tokens {
        Some(n) => n,
        None => DEFAULT_CHILD_MAX_TOKENS,
    }
    &&& request.system == match req.system {
        Some(text) => Some(SystemPrompt::Text(text)),
        None => None,
    }
    &&& request.tools is None
    &&& request.tool_choice is None
    &&& request.metadata is None
    &&& request.thinking is None
    &&& request.reasoning_effort is None
    &&& request.stream == Some(false)
    &&& request.temperature_tenths == Some(4u32)
    &&& request.top_p_tenths == Some(9u32)
}

/// The text of the answer to a child completion.
pub open spec fn outcome_text(outcome: LlmOutcome) -> Seq<char> {
    match outcome {
        LlmOutcome::Replied(response) => lines::joined(
            models::block_texts(response.content@),
            seq!['\n'],
        ),
        _ => seq![],
    }
}

/// The error of the answer to a child completion.
pub open spec fn outcome_error(outcome: LlmOutcome) -> Option<Seq<char>> {
    match outcome {
        LlmOutcome::Replied(_) => None,
        LlmOutcome::Failed(reason) => Some("llm_query failed: "@ + reason@),
        LlmOutcome::TimedOut => Some(
            "llm_query timed out after "@ + number::decimal(CHILD_TIMEOUT_SECS as nat) + "s"@,
        ),
    }
}

/// The tokens that a child completion is known to have taken.
pub open spec fn outcome_usage(outcome: LlmOutcome) -> Usage {
    match outcome {
        LlmOutcome::Replied(response) => response.usage,
        _ => models::no_usage(),
    }
}

/// The text of an error, if there is one.
pub open spec fn error_text(error: Option<String>) -> Option<Seq<char>> {
    match error {
        Some(e) => Some(e@),
        None => None,
    }
}

/// An answer as a JSON object. It has the key `error` only where there is an error.
pub open spec fn resp_json(text: Seq<char>, error: Option<Seq<char>>) -> Seq<char> {
    "{\"text\":"@ + json::json_string(text) + match error {
        Some(e) => ",\"error\":"@ + json::json_string(e) + "}"@,
        None => "}"@,
    }
}

impl LlmResp {
    /// The answer as a JSON object.
    pub fn to_json(&self) -> (s: String)
        ensures
            s@ == resp_json(self.text@, error_text(self.error)),
            self.error is None ==> s@ == "{\"text\":"@ + json::json_string(self.text@) + "}"@,
            self.error matches Some(e) ==> s@ == "{\"text\":"@ + json::json_string(self.text@)
                + ",\"error\":"@ + json::json_string(e@) + "}"@,
    {
        let mut s = String::from("{\"text\":");
        s.append(json::string_to_json(self.text.as_str()).as_str());
        match &self.error {
            Some(e) => {
                s.append(",\"error\":");
                s.append(json::string_to_json(e.as_str()).as_str());
                s.append("}");
            },
            None => {
                s.append("}");
            },
        }
        assert(s@ =~= resp_json(self.text@, error_text(self.error)));
        s
    }
}

fn join_text_blocks(content: &Vec<ContentBlock>) -> (s: String)
    ensures
        s@ == lines::joined(models::block_texts(content@), seq!['\n']),
{
    let mut texts: Vec<String> = Vec::new();
    let mut i: usize = 0;
    assert(chars::texts(texts@) =~= models::block_texts(content@.take(0)));
    while i < content.len()
        invariant
            i <= content@.len(),
            chars::texts(texts@) == models::block_texts(content@.take(i as int)),
        decreases content@.len() - i,
    {
        assert(content@.take(i + 1).drop_last() =~= content@.take(i as int));
        let ghost before = chars::texts(texts@);
        match &content[i] {
            ContentBlock::Text { text, .. } => {
                texts.push(text.clone());
                assert(chars::texts(texts@) =~= before.push(text@));
            },
            ContentBlock::Other => {},
        }
        i += 1;
    }
    assert(content@.take(i as int) =~= content@);
    proof {
        reveal_strlit("\n");
        assert("\n"@ =~= seq!['\n']);
    }
    lines::join(&texts, "\n")
}

impl SidecarCtx {
    /// What a sidecar keeps at its start.
    pub fn new(child_model: String, depth_remaining: u32) -> (ctx: Self)
        ensures
            ctx.child_model == child_model,
            ctx.depth_remaining == depth_remaining,
            ctx.usage == models::no_usage(),
    {
        SidecarCtx { child_model, depth_remaining, usage: Usage::default() }
    }

    /// The request to send to the model for a child completion.
    pub fn llm_request(&self, req: LlmReq) -> (request: MessageRequest)
        ensures
            is_child_request(request, req, self.child_model@),
            req.model matches Some(name) && name@.len() > 0 ==> request.model@ == req.model->0@,
            req.model is None || req.model->0@.len() == 0 ==> request.model@ == self.child_model@,
            req.max_tokens matches Some(n) ==> request.max_tokens == n,
            req.max_tokens is None ==> request.max_tokens == 4096,
            request.system is Some <==> req.system is Some,
            req.system matches Some(text) ==> request.system == Some(SystemPrompt::Text(text)),
            request.messages@.len() == 1,
            request.messages@[0].role@ == "user"@,
            request.messages@[0].content@.len() == 1,
            request.messages@[0].content@[0] == (ContentBlock::Text {
                text: req.prompt,
                cache_control: None,
            }),
    {
        let model = match req.model {
            Some(name) => if name.as_str().is_empty() {
                self.child_model.clone()
            } else {
                name
            },
            None => self.child_model.clone(),
        };
        let max_tokens: u32 = match req.max_tokens {
            Some(n) => n,
            None => DEFAULT_CHILD_MAX_TOKENS,
        };
        let system = match req.system {
            Some(text) => Some(SystemPrompt::Text(text)),
            None => None,
        };
        let mut content: Vec<ContentBlock> = Vec::new();
        content.push(ContentBlock::Text { text: req.prompt, cache_control: None });
        let mut messages: Vec<Message> = Vec::new();
        messages.push(Message { role: String::from("user"), content });
        MessageRequest {
            model,
            messages,
            max_tokens,
            system,
            tools: None,
            tool_choice: None,
            metadata: None,
            thinking: None,
            reasoning_effort: None,
            stream: Some(false),
            temperature_tenths: Some(4),
            top_p_tenths: Some(9),
        }
    }

    /// The answer to a child completion. Its tokens are counted.
    pub fn llm_reply(&mut self, outcome: LlmOutcome) -> (resp: LlmResp)
        ensures
            resp.text@ == outcome_text(outcome),
            error_text(resp.error) == outcome_error(outcome),
            outcome matches LlmOutcome::Replied(response) ==> {
                &&& resp.error is None
                &&& resp.text@ == lines::joined(
                    models::block_texts(response.content@),
                    seq!['\n'],
                )
                &&& final(self).usage == models::usage_sum(old(self).usage, response.usage)
                &&& old(self).usage.input_tokens + response.usage.input_tokens <= u32::MAX
                    ==> final(self).usage.input_tokens == old(self).usage.input_tokens
                    + response.usage.input_tokens
                &&& old(self).usage.output_tokens + response.usage.output_tokens <= u32::MAX
                    ==> final(self).usage.output_tokens == old(self).usage.output_tokens
                    + response.usage.output_tokens
            },
            outcome matches LlmOutcome::Failed(reason) ==> {
                &&& resp.error matches Some(e)
                &&& e@ == "llm_query failed: "@ + reason@
            },
            outcome is TimedOut ==> {
                &&& resp.error matches Some(e)
                &&& e@ == "llm_query timed out after 120s"@
            },
            outcome !is Replied ==> resp.text@.len() == 0 && final(self).usage == old(self).usage,
            final(self).usage == models::usage_sum(old(self).usage, outcome_usage(outcome)),
            final(self).child_model == old(self).child_model,
            final(self).depth_remaining == old(self).depth_remaining,
    {
        match outcome {
            LlmOutcome::Replied(response) => {
                let text = join_text_blocks(&response.content);
                self.usage.accumulate(&response.usage);
                LlmResp { text, error: None }
            },
            LlmOutcome::Failed(reason) => {
                let mut e = String::from("llm_query failed: ");
                e.append(reason.as_str());
                LlmResp { text: String::new(), error: Some(e) }
            },
            LlmOutcome::TimedOut => {
                let mut e = String::from("llm_query timed out after ");
                number::push_decimal(&mut e, CHILD_TIMEOUT_SECS);
                e.append("s");
                proof {
                    lemma_timeout_text();
                }
                LlmResp { text: String::new(), error: Some(e) }
            },
        }
    }

    /// What to do about a request for a recursive turn: refuse it where no level of recursion is
    /// left, else run it with the child model, and with one level less.
    pub fn sub_rlm_start(&self, req: SubRlmReq) -> (step: SubRlmStep)
        ensures
            match sub_turn_depth(self.depth_remaining) {
                None => step matches SubRlmStep::Refuse(resp) && resp.text@ == Seq::<char>::empty()
                    && error_text(resp.error) == Some(DEPTH_EXHAUSTED@),
                Some(depth) => step matches SubRlmStep::Run(turn) && turn.model
                    == self.child_model && turn.prompt == req.prompt && turn.child_model
                    == self.child_model && turn.depth == depth,
            },
            self.depth_remaining == 0 ==> {
                &&& step matches SubRlmStep::Refuse(resp)
                &&& resp.text@.len() == 0
                &&& resp.error matches Some(e)
                &&& e@
                    == "sub_rlm: recursion depth budget exhausted (configure /rlm with deeper budget)"@
            },
            self.depth_remaining > 0 ==> {
                &&& step matches SubRlmStep::Run(turn)
                &&& turn.depth == self.depth_remaining - 1
                &&& turn.prompt@ == req.prompt@
                &&& turn.model@ == self.child_model@
                &&& turn.child_model@ == self.child_model@
            },
    {
        if self.depth_remaining == 0 {
            return SubRlmStep::Refuse(
                LlmResp { text: String::new(), error: Some(String::from(DEPTH_EXHAUSTED)) },
            );
        }
        SubRlmStep::Run(
            SubTurn {
                model: self.child_model.clone(),
                prompt: req.prompt,
                child_model: self.child_model.clone(),
                depth: self.depth_remaining - 1,
            },
        )
    }

    /// The answer to a recursive turn. Its tokens are counted.
    pub fn sub_rlm_finish(&mut self, result: RlmTurnResult) -> (resp: LlmResp)
        ensures
            resp.text == result.answer,
            resp.error == result.error,
            final(self).usage == models::usage_sum(old(self).usage, result.usage),
            old(self).usage.input_tokens + result.usage.input_tokens <= u32::MAX
                ==> final(self).usage.input_tokens == old(self).usage.input_tokens
                + result.usage.input_tokens,
            old(self).usage.output_tokens + result.usage.output_tokens <= u32::MAX
                ==> final(self).usage.output_tokens == old(self).usage.output_tokens
                + result.usage.output_tokens,
            final(self).child_model == old(self).child_model,
            final(self).depth_remaining == old(self).depth_remaining,
    {
        self.usage.accumulate(&result.usage);
        LlmResp { text: result.answer, error: result.error }
    }
}

/// A sidecar that listens.
#[derive(Debug)]
pub struct SidecarHandle {
    /// Where it listens: the address and the port, with a colon between them.
    pub addr: String,
}

/// The URL of `route` at `addr`.
pub open spec fn url(addr: Seq<char>, route: Seq<char>) -> Seq<char> {
    "http://"@ + addr + route
}

impl SidecarHandle {
    /// The URL for child completions.
    pub fn llm_url(&self) -> (s: String)
        ensures
            s@ == url(self.addr@, LLM_ROUTE@),
            s@ == "http://"@ + self.addr@ + "/llm"@,
    {
        let mut s = String::from("http://");
        s.append(self.addr.as_str());
        s.append(LLM_ROUTE);
        s
    }

    /// The URL for recursive turns.
    pub fn rlm_url(&self) -> (s: String)
        ensures
            s@ == url(self.addr@, RLM_ROUTE@),
            s@ == "http://"@ + self.addr@ + "/rlm"@,
    {
        let mut s = String::from("http://");
        s.append(self.addr.as_str());
        s.append(RLM_ROUTE);
        s
    }
}

/// Recursive turns nest at most as deep as the budget of the root: a chain of turns, each called
/// from the one before it, has at most one turn more than the first has levels.
pub proof fn law_nesting_is_bounded(depths: Seq<u32>)
    requires
        depths.len() > 0,
        forall|i: int|
            0 <= i < depths.len() - 1 ==> sub_turn_depth(#[trigger] depths[i]) == Some(
                depths[i + 1],
            ),
    ensures
        depths.len() <= depths[0] + 1,
        forall|i: int| 0 <= i < depths.len() ==> #[trigger] depths[i] == depths[0] - i,
    decreases depths.len(),
{
    if depths.len() > 1 {
        let shorter = depths.drop_last();
        assert forall|i: int| 0 <= i < shorter.len() - 1 implies sub_turn_depth(
            #[trigger] shorter[i],
        ) == Some(shorter[i + 1]) by {
            assert(depths[i] == shorter[i]);
        }
        law_nesting_is_bounded(shorter);
        let n = depths.len() - 2;
        assert(shorter[n] == depths[0] - n);
        assert(sub_turn_depth(depths[n]) == Some(depths[n + 1]));
        assert forall|i: int| 0 <= i < depths.len() implies #[trigger] depths[i] == depths[0]
            - i by {
            if i < shorter.len() {
                assert(depths[i] == shorter[i]);
            }
        }
    }
}

/// The JSON of an answer tells its text and its error: answers with the same JSON are the same.
pub proof fn law_answer_json_is_readable(
    text: Seq<char>,
    error: Option<Seq<char>>,
    other_text: Seq<char>,
    other_error: Option<Seq<char>>,
)
    requires
        resp_json(text, error) == resp_json(other_text, other_error),
    ensures
        text == other_text,
        error == other_error,
{
    reveal_strlit("}");
    reveal_strlit(",\"error\":");
    let open = "{\"text\":"@;
    let key = ",\"error\":"@;
    let x = match error {
        Some(e) => key + json::json_string(e) + "}"@,
        None => "}"@,
    };
    let y = match other_error {
        Some(e) => key + json::json_string(e) + "}"@,
        None => "}"@,
    };
    let l = resp_json(text, error);
    let r = resp_json(other_text, other_error);
    assert(l.skip(open.len() as int) =~= json::json_string(text) + x);
    assert(r.skip(open.len() as int) =~= json::json_string(other_text) + y);
    json::law_json_string_is_readable(text, other_text, x, y);
    assert(x[0] == y[0]);
    if let (Some(e), Some(f)) = (error, other_error) {
        assert(x.skip(key.len() as int) =~= json::json_string(e) + "}"@);
        assert(y.skip(key.len() as int) =~= json::json_string(f) + "}"@);
        json::law_json_string_is_readable(e, f, "}"@, "}"@);
    }
}

proof fn lemma_timeout_text()
    ensures
        "llm_query timed out after "@ + number::decimal(CHILD_TIMEOUT_SECS as nat) + "s"@
            == "llm_query timed out after 120s"@,
{
    reveal_strlit("llm_query timed out after ");
    reveal_strlit("s");
    reveal_strlit("llm_query timed out after 120s");
    reveal_with_fuel(number::decimal, 4);
    assert(number::decimal(120) =~= seq!['1', '2', '0']);
    assert("llm_query timed out after "@ + number::decimal(120) + "s"@
        =~= "llm_query timed out after 120s"@);
}

/// The text for a reply of one text block is the text of that block, and a reply without text
/// blocks has none.
pub proof fn law_text_of_one_block(response: MessageResponse)
    ensures
        response.content@.len() == 1 && response.content@[0] is Text ==> outcome_text(
            LlmOutcome::Replied(response),
        ) == response.content@[0]->text@,
        (forall|i: int|
            0 <= i < response.content@.len() ==> #[trigger] response.content@[i] is Other)
            ==> outcome_text(LlmOutcome::Replied(response)).len() == 0,
{
    let content = response.content@;
    if content.len() == 1 && content[0] is Text {
        assert(content =~= seq![content[0]]);
        models::law_block_texts_add_up(seq![], seq![], content[0]);
    }
    if forall|i: int| 0 <= i < content.len() ==> #[trigger] content[i] is Other {
        lemma_no_texts(content);
    }
}

/// Where two contents both hold a text block, the text for the one followed by the other is the
/// text for the one, a line feed, and the text for the other.
pub proof fn law_texts_add_up(
    a: MessageResponse,
    b: MessageResponse,
    both: MessageResponse,
    i: int,
    j: int,
)
    requires
        both.content@ == a.content@ + b.content@,
        0 <= i < a.content@.len(),
        a.content@[i] is Text,
        0 <= j < b.content@.len(),
        b.content@[j] is Text,
    ensures
        outcome_text(LlmOutcome::Replied(both)) == outcome_text(LlmOutcome::Replied(a)) + seq![
            '\n',
        ] + outcome_text(LlmOutcome::Replied(b)),
{
    models::law_block_texts_add_up(a.content@, b.content@, a.content@[i]);
    lemma_some_texts(a.content@, i);
    lemma_some_texts(b.content@, j);
    lines::law_joined_groups(
        models::block_texts(a.content@),
        models::block_texts(b.content@),
        seq!['\n'],
    );
}

/// A block that is no text makes no difference to the text, wherever it stands.
pub proof fn law_other_blocks_have_no_text(
    before: Seq<ContentBlock>,
    after: Seq<ContentBlock>,
    with: MessageResponse,
    without: MessageResponse,
)
    requires
        with.content@ == before + seq![ContentBlock::Other] + after,
        without.content@ == before + after,
    ensures
        outcome_text(LlmOutcome::Replied(with)) == outcome_text(LlmOutcome::Replied(without)),
{
    let other = ContentBlock::Other;
    models::law_block_texts_add_up(before + seq![other], after, other);
    models::law_block_texts_add_up(before, seq![other], other);
    models::law_block_texts_add_up(before, after, other);
    assert(models::block_texts(seq![other]) =~= seq![]);
    assert(models::block_texts(with.content@) =~= models::block_texts(without.content@));
}

/// A reply of one text block is answered with the text of that block, and one without text blocks
/// with no text. Neither is an error.
pub proof fn law_answer_to_one_text_block(
    ctx: &mut SidecarCtx,
    response: MessageResponse,
    resp: LlmResp,
)
    requires
        call_ensures(SidecarCtx::llm_reply, (ctx, LlmOutcome::Replied(response)), resp),
    ensures
        resp.error is None,
        response.content@.len() == 1 && response.content@[0] is Text ==> resp.text@
            == response.content@[0]->text@,
        (forall|i: int|
            0 <= i < response.content@.len() ==> #[trigger] response.content@[i] is Other)
            ==> resp.text@.len() == 0,
{
    law_text_of_one_block(response);
}

proof fn lemma_no_texts(content: Seq<ContentBlock>)
    requires
        forall|i: int| 0 <= i < content.len() ==> #[trigger] content[i] is Other,
    ensures
        models::block_texts(content).len() == 0,
    decreases content.len(),
{
    if content.len() > 0 {
        assert(content[content.len() - 1] is Other);
        lemma_no_texts(content.drop_last());
    }
}

proof fn lemma_some_texts(content: Seq<ContentBlock>, i: int)
    requires
        0 <= i < content.len(),
        content[i] is Text,
    ensures
        models::block_texts(content).len() > 0,
    decreases content.len(),
{
    if i < content.len() - 1 {
        lemma_some_texts(content.drop_last(), i);
    }
}

/// Where two contents both hold a text block, the answer to the one followed by the other is the
/// answer to the one, a line feed, and the answer to the other.
pub proof fn law_answers_add_up(
    ctx_a: &mut SidecarCtx,
    ctx_b: &mut SidecarCtx,
    ctx_both: &mut SidecarCtx,
    a: MessageResponse,
    b: MessageResponse,
    both: MessageResponse,
    i: int,
    j: int,
    answer_a: LlmResp,
    answer_b: LlmResp,
    answer_both: LlmResp,
)
    requires
        both.content@ == a.content@ + b.content@,
        0 <= i < a.content@.len(),
        a.content@[i] is Text,
        0 <= j < b.content@.len(),
        b.content@[j] is Text,
        call_ensures(SidecarCtx::llm_reply, (ctx_a, LlmOutcome::Replied(a)), answer_a),
        call_ensures(SidecarCtx::llm_reply, (ctx_b, LlmOutcome::Replied(b)), answer_b),
        call_ensures(SidecarCtx::llm_reply, (ctx_both, LlmOutcome::Replied(both)), answer_both),
    ensures
        answer_both.text@ == answer_a.text@ + seq!['\n'] + answer_b.text@,
{
    law_texts_add_up(a, b, both, i, j);
}

/// A block that is no text makes no difference to the answer, wherever it stands.
pub proof fn law_other_blocks_make_no_difference(
    ctx: &mut SidecarCtx,
    other_ctx: &mut SidecarCtx,
    before: Seq<ContentBlock>,
    after: Seq<ContentBlock>,
    with: MessageResponse,
    without: MessageResponse,
    answer_with: LlmResp,
    answer_without: LlmResp,
)
    requires
        with.content@ == before + seq![ContentBlock::Other] + after,
        without.content@ == before + after,
        call_ensures(SidecarCtx::llm_reply, (ctx, LlmOutcome::Replied(with)), answer_with),
        call_ensures(SidecarCtx::llm_reply, (other_ctx, LlmOutcome::Replied(without)), answer_without),
    ensures
        answer_with.text@ == answer_without.text@,
{
    law_other_blocks_have_no_text(before, after, with, without);
}

/// A child completion that gave no reply is answered with an error that says why, and no text.
pub proof fn law_failures_are_answered(
    ctx: &mut SidecarCtx,
    other_ctx: &mut SidecarCtx,
    reason: String,
    failed: LlmResp,
    timed_out: LlmResp,
)
    requires
        call_ensures(SidecarCtx::llm_reply, (ctx, LlmOutcome::Failed(reason)), failed),
        call_ensures(SidecarCtx::llm_reply, (other_ctx, LlmOutcome::TimedOut), timed_out),
    ensures
        failed.text@.len() == 0,
        failed.error matches Some(e) && e@ == "llm_query failed: "@ + reason@,
        timed_out.text@.len() == 0,
        timed_out.error matches Some(e) && e@ == "llm_query timed out after 120s"@,
{
}

/// The tokens of a reply are counted, up to the largest `u32`.
pub proof fn law_replies_are_counted(
    ctx: &mut SidecarCtx,
    response: MessageResponse,
    resp: LlmResp,
)
    requires
        call_ensures(SidecarCtx::llm_reply, (ctx, LlmOutcome::Replied(response)), resp),
    ensures
        final(ctx).usage.input_tokens == if old(ctx).usage.input_tokens
            + response.usage.input_tokens <= u32::MAX {
            old(ctx).usage.input_tokens + response.usage.input_tokens
        } else {
            u32::MAX as int
        },
        final(ctx).usage.output_tokens == if old(ctx).usage.output_tokens
            + response.usage.output_tokens <= u32::MAX {
            old(ctx).usage.output_tokens + response.usage.output_tokens
        } else {
            u32::MAX as int
        },
        final(ctx).child_model == old(ctx).child_model,
        final(ctx).depth_remaining == old(ctx).depth_remaining,
{
}

/// A completion that gave no reply leaves what was counted as it was.
pub proof fn law_failures_are_not_counted(ctx: &mut SidecarCtx, outcome: LlmOutcome, resp: LlmResp)
    requires
        outcome !is Replied,
        call_ensures(SidecarCtx::llm_reply, (ctx, outcome), resp),
    ensures
        *final(ctx) == *old(ctx),
{
}

/// A recursive turn is answered with its answer and its error, and its tokens are counted, whether
/// it failed or not.
pub proof fn law_turns_are_answered_and_counted(
    ctx: &mut SidecarCtx,
    result: RlmTurnResult,
    resp: LlmResp,
)
    requires
        call_ensures(SidecarCtx::sub_rlm_finish, (ctx, result), resp),
    ensures
        resp.text@ == result.answer@,
        resp.error == result.error,
        final(ctx).usage.input_tokens == if old(ctx).usage.input_tokens + result.usage.input_tokens
            <= u32::MAX {
            old(ctx).usage.input_tokens + result.usage.input_tokens
        } else {
            u32::MAX as int
        },
        final(ctx).usage.output_tokens == if old(ctx).usage.output_tokens
            + result.usage.output_tokens <= u32::MAX {
            old(ctx).usage.output_tokens + result.usage.output_tokens
        } else {
            u32::MAX as int
        },
        final(ctx).child_model == old(ctx).child_model,
        final(ctx).depth_remaining == old(ctx).depth_remaining,
{
}

/// A child request carries what the call gave: its prompt as the one user message, its model
/// unless that is missing or empty, its token limit unless that is missing, its system prompt
/// where there is one. None of them depends on the others.
pub proof fn law_child_request_carries_the_call(
    ctx: SidecarCtx,
    req: LlmReq,
    request: MessageRequest,
)
    requires
        call_ensures(SidecarCtx::llm_request, (&ctx, req), request),
    ensures
        req.model matches Some(name) && name@.len() > 0 ==> request.model@ == req.model->0@,
        req.model is None || req.model->0@.len() == 0 ==> request.model@ == ctx.child_model@,
        req.max_tokens is Some ==> request.max_tokens == req.max_tokens->0,
        req.max_tokens is None ==> request.max_tokens == 4096,
        request.system is Some <==> req.system is Some,
        req.system is Some ==> (request.system->0 matches SystemPrompt::Text(text) && text@
            == req.system->0@),
        request.messages@.len() == 1,
        request.messages@[0].role@ == "user"@,
        request.messages@[0].content@.len() == 1,
        request.messages@[0].content@[0] matches ContentBlock::Text { text, cache_control }
            && text@ == req.prompt@ && cache_control is None,
        request.tools is None && request.tool_choice is None && request.metadata is None
            && request.thinking is None && request.reasoning_effort is None,
        request.stream == Some(false),
        request.temperature_tenths == Some(4u32),
        request.top_p_tenths == Some(9u32),
{
}

/// A recursive call runs if and only if a level of recursion is left, with the prompt of the call,
/// the child model, and one level less.
pub proof fn law_sub_rlm_spends_one_level(ctx: SidecarCtx, req: SubRlmReq, step: SubRlmStep)
    requires
        call_ensures(SidecarCtx::sub_rlm_start, (&ctx, req), step),
    ensures
        step is Run <==> ctx.depth_remaining > 0,
        step matches SubRlmStep::Run(turn) ==> turn.depth + 1 == ctx.depth_remaining
            && turn.prompt@ == req.prompt@ && turn.model@ == ctx.child_model@ && turn.child_model@
            == ctx.child_model@,
        step matches SubRlmStep::Refuse(resp) ==> resp.text@.len() == 0 && resp.error is Some,
{
}

/// A sidecar starts with the model and the levels of recursion that it is given, and nothing
/// counted.
pub proof fn law_sidecar_starts_with_nothing_counted(
    child_model: String,
    depth_remaining: u32,
    ctx: SidecarCtx,
)
    requires
        call_ensures(SidecarCtx::new, (child_model, depth_remaining), ctx),
    ensures
        ctx.child_model@ == child_model@,
        ctx.depth_remaining == depth_remaining,
        ctx.usage.input_tokens == 0,
        ctx.usage.output_tokens == 0,
{
}

/// Both URLs lead to the address of the sidecar, the one to its completions, the other to its
/// recursive turns.
pub proof fn law_urls_name_the_routes(handle: SidecarHandle, llm: String, rlm: String)
    requires
        call_ensures(SidecarHandle::llm_url, (&handle,), llm),
        call_ensures(SidecarHandle::rlm_url, (&handle,), rlm),
    ensures
        llm@ == "http://"@ + handle.addr@ + "/llm"@,
        rlm@ == "http://"@ + handle.addr@ + "/rlm"@,
{
}

/// The JSON of an answer holds its text, and its error where there is one. Answers with the same
/// JSON are the same.
pub proof fn law_json_holds_the_answer(resp: LlmResp, other: LlmResp, s: String, t: String)
    requires
        call_ensures(LlmResp::to_json, (&resp,), s),
        call_ensures(LlmResp::to_json, (&other,), t),
    ensures
        resp.error is None ==> s@ == "{\"text\":"@ + json::json_string(resp.text@) + "}"@,
        resp.error matches Some(e) ==> s@ == "{\"text\":"@ + json::json_string(resp.text@)
            + ",\"error\":"@ + json::json_string(e@) + "}"@,
        s@ == t@ ==> {
            &&& resp.text@ == other.text@
            &&& resp.error is Some <==> other.error is Some
            &&& resp.error is Some ==> resp.error->0@ == other.error->0@
        },
{
    if s@ == t@ {
        law_answer_json_is_readable(
            resp.text@,
            error_text(resp.error),
            other.text@,
            error_text(other.error),
        );
    }
}

} // verus!
