use rlm_repl::models::{ContentBlock, MessageResponse, SystemPrompt, Usage};
use rlm_repl::rlm::prompt::RLM_SYSTEM_PROMPT;
use rlm_repl::rlm::rlm_system_prompt;
use rlm_repl::rlm::sidecar::{
    LlmOutcome, LlmReq, LlmResp, RlmTurnResult, SidecarCtx, SidecarHandle, SubRlmReq, SubRlmStep,
    SubTurn,
};

fn req(prompt: &str) -> LlmReq {
    LlmReq { prompt: prompt.to_string(), model: None, max_tokens: None, system: None }
}

fn usage(input_tokens: u32, output_tokens: u32) -> Usage {
    Usage { input_tokens, output_tokens }
}

fn text(s: &str) -> ContentBlock {
    ContentBlock::Text { text: s.to_string(), cache_control: None }
}

fn run(step: SubRlmStep) -> SubTurn {
    match step {
        SubRlmStep::Run(turn) => turn,
        SubRlmStep::Refuse(resp) => panic!("refused: {:?}", resp),
    }
}

#[test]
fn rlm_prompt_is_not_empty() {
    let prompt = rlm_system_prompt();
    match prompt {
        SystemPrompt::Text(text) => assert!(!text.is_empty()),
        _ => panic!("expected Text"),
    }
}

#[test]
fn rlm_prompt_mentions_llm_query() {
    let prompt = rlm_system_prompt();
    match prompt {
        SystemPrompt::Text(text) => assert!(text.contains("llm_query")),
        _ => panic!("expected Text"),
    }
}

#[test]
fn rlm_prompt_mentions_sub_rlm() {
    let prompt = rlm_system_prompt();
    match prompt {
        SystemPrompt::Text(text) => assert!(text.contains("sub_rlm")),
        _ => panic!("expected Text"),
    }
}

#[test]
fn rlm_prompt_mentions_final() {
    let prompt = rlm_system_prompt();
    match prompt {
        SystemPrompt::Text(text) => assert!(text.contains("FINAL")),
        _ => panic!("expected Text"),
    }
}

#[test]
fn rlm_prompt_mentions_python_fence() {
    let prompt = rlm_system_prompt();
    match prompt {
        SystemPrompt::Text(text) => assert!(text.contains("```python")),
        _ => panic!("expected Text"),
    }
}

#[test]
fn rlm_prompt_forbids_plaintext_exit() {
    let prompt = rlm_system_prompt();
    match prompt {
        SystemPrompt::Text(text) => {
            assert!(!text.contains("without code fences and the RLM loop will end"));
        }
        _ => panic!("expected Text"),
    }
}

#[test]
fn rlm_prompt_is_trimmed() {
    match rlm_system_prompt() {
        SystemPrompt::Text(text) => {
            assert_eq!(text, RLM_SYSTEM_PROMPT.trim());
            assert!(text.starts_with("You are a Recursive Language Model (RLM)."));
            assert!(text.ends_with("with repl_get across rounds."));
        }
        _ => panic!("expected Text"),
    }
}

#[test]
fn llm_resp_skips_none_error() {
    let r = LlmResp { text: "hello".to_string(), error: None };
    let s = r.to_json();
    assert!(!s.contains("error"));
    assert!(s.contains("hello"));
}

#[test]
fn llm_resp_includes_error_when_set() {
    let r = LlmResp { text: String::new(), error: Some("boom".to_string()) };
    let s = r.to_json();
    assert!(s.contains("boom"));
}

#[test]
fn llm_resp_json_is_exact() {
    let r = LlmResp { text: "a\"b\\\n\u{1}\u{1f}é".to_string(), error: None };
    assert_eq!(r.to_json(), "{\"text\":\"a\\\"b\\\\\\n\\u0001\\u001fé\"}");
    let r = LlmResp { text: String::new(), error: Some("boom".to_string()) };
    assert_eq!(r.to_json(), "{\"text\":\"\",\"error\":\"boom\"}");
}

#[test]
fn llm_resp_json_can_be_read_back() {
    let mut all = String::new();
    for u in 0u32..0x300 {
        if let Some(c) = char::from_u32(u) {
            all.push(c);
        }
    }
    let r = LlmResp { text: all.clone(), error: Some("\u{7f}\"}".to_string()) };
    let v: serde_json::Value = serde_json::from_str(&r.to_json()).unwrap();
    assert_eq!(v["text"].as_str(), Some(all.as_str()));
    assert_eq!(v["error"].as_str(), Some("\u{7f}\"}"));
    let r = LlmResp { text: "x".to_string(), error: None };
    let v: serde_json::Value = serde_json::from_str(&r.to_json()).unwrap();
    assert!(v.get("error").is_none());
}

#[test]
fn child_requests_have_defaults() {
    let ctx = SidecarCtx::new("child".to_string(), 1);
    let request = ctx.llm_request(req("why?"));
    assert_eq!(request.model, "child");
    assert_eq!(request.max_tokens, 4096);
    assert!(request.system.is_none());
    assert_eq!(request.messages.len(), 1);
    assert_eq!(request.messages[0].role, "user");
    assert_eq!(request.messages[0].content.len(), 1);
    match &request.messages[0].content[0] {
        ContentBlock::Text { text, cache_control } => {
            assert_eq!(text, "why?");
            assert!(cache_control.is_none());
        }
        ContentBlock::Other => panic!("expected text"),
    }
    assert!(request.tools.is_none());
    assert!(request.tool_choice.is_none());
    assert!(request.metadata.is_none());
    assert!(request.thinking.is_none());
    assert!(request.reasoning_effort.is_none());
    assert_eq!(request.stream, Some(false));
    assert_eq!(request.temperature_tenths, Some(4));
    assert_eq!(request.top_p_tenths, Some(9));
}

#[test]
fn child_requests_can_choose() {
    let ctx = SidecarCtx::new("child".to_string(), 1);
    let request = ctx.llm_request(LlmReq {
        prompt: "p".to_string(),
        model: Some("big".to_string()),
        max_tokens: Some(7),
        system: Some("be brief".to_string()),
    });
    assert_eq!(request.model, "big");
    assert_eq!(request.max_tokens, 7);
    match request.system {
        Some(SystemPrompt::Text(text)) => assert_eq!(text, "be brief"),
        _ => panic!("expected Text"),
    }
    let mut unnamed = req("p");
    unnamed.model = Some(String::new());
    assert_eq!(ctx.llm_request(unnamed).model, "child");
}

#[test]
fn replies_join_their_text_blocks() {
    let mut ctx = SidecarCtx::new("child".to_string(), 1);
    let resp = ctx.llm_reply(LlmOutcome::Replied(MessageResponse {
        content: vec![text("a"), ContentBlock::Other, text(""), text("b")],
        usage: usage(10, 3),
    }));
    assert_eq!(resp.text, "a\n\nb");
    assert!(resp.error.is_none());
    assert_eq!(ctx.usage, usage(10, 3));
    let resp = ctx.llm_reply(LlmOutcome::Replied(MessageResponse {
        content: vec![ContentBlock::Other],
        usage: usage(1, 1),
    }));
    assert_eq!(resp.text, "");
    assert_eq!(ctx.usage, usage(11, 4));
}

#[test]
fn failed_completions_are_reported() {
    let mut ctx = SidecarCtx::new("child".to_string(), 1);
    let resp = ctx.llm_reply(LlmOutcome::Failed("503".to_string()));
    assert_eq!(resp.text, "");
    assert_eq!(resp.error.as_deref(), Some("llm_query failed: 503"));
    let resp = ctx.llm_reply(LlmOutcome::TimedOut);
    assert_eq!(resp.text, "");
    assert_eq!(resp.error.as_deref(), Some("llm_query timed out after 120s"));
    assert_eq!(ctx.usage, Usage::default());
}

#[test]
fn usage_is_capped_and_order_does_not_matter() {
    let mut a = usage(u32::MAX - 1, 5);
    a.accumulate(&usage(3, 6));
    assert_eq!(a, usage(u32::MAX, 11));
    let mut b = usage(3, 6);
    b.accumulate(&usage(u32::MAX - 1, 5));
    assert_eq!(a, b);
}

#[test]
fn recursion_without_budget_is_refused() {
    let ctx = SidecarCtx::new("child".to_string(), 0);
    match ctx.sub_rlm_start(SubRlmReq { prompt: "p".to_string() }) {
        SubRlmStep::Refuse(resp) => {
            assert_eq!(resp.text, "");
            assert_eq!(
                resp.error.as_deref(),
                Some("sub_rlm: recursion depth budget exhausted (configure /rlm with deeper budget)")
            );
        }
        SubRlmStep::Run(_) => panic!("expected a refusal"),
    }
}

#[test]
fn recursion_goes_down_one_level() {
    let ctx = SidecarCtx::new("child".to_string(), 3);
    let turn = run(ctx.sub_rlm_start(SubRlmReq { prompt: "p".to_string() }));
    assert_eq!(turn.model, "child");
    assert_eq!(turn.child_model, "child");
    assert_eq!(turn.prompt, "p");
    assert_eq!(turn.depth, 2);
}

#[test]
fn nesting_ends_with_the_budget() {
    let mut ctx = SidecarCtx::new("child".to_string(), 4);
    for expected in [3, 2, 1, 0] {
        let turn = run(ctx.sub_rlm_start(SubRlmReq { prompt: "p".to_string() }));
        assert_eq!(turn.depth, expected);
        ctx = SidecarCtx::new(turn.child_model, turn.depth);
    }
    assert!(matches!(
        ctx.sub_rlm_start(SubRlmReq { prompt: "p".to_string() }),
        SubRlmStep::Refuse(_)
    ));
}

#[test]
fn recursive_turns_are_answered_and_counted() {
    let mut ctx = SidecarCtx::new("child".to_string(), 1);
    let resp = ctx.sub_rlm_finish(RlmTurnResult {
        answer: "42".to_string(),
        usage: usage(5, 6),
        error: None,
    });
    assert_eq!(resp.text, "42");
    assert!(resp.error.is_none());
    let resp = ctx.sub_rlm_finish(RlmTurnResult {
        answer: String::new(),
        usage: usage(1, 2),
        error: Some("iterations exhausted".to_string()),
    });
    assert_eq!(resp.error.as_deref(), Some("iterations exhausted"));
    assert_eq!(ctx.usage, usage(6, 8));
    assert_eq!(ctx.depth_remaining, 1);
}

#[test]
fn urls_name_the_routes() {
    let handle = SidecarHandle { addr: "127.0.0.1:4711".to_string() };
    assert_eq!(handle.llm_url(), "http://127.0.0.1:4711/llm");
    assert_eq!(handle.rlm_url(), "http://127.0.0.1:4711/rlm");
}
