//! The assistant: diagnosing pip errors, finding packages from a
//! description, and free conversation, through an OpenAI-compatible
//! (`/chat/completions`) or an Anthropic (`/v1/messages`) endpoint. This
//! module builds each request and reads the recommendations back; sending
//! is the caller's part.
use crate::error::{ErrView, PvmError};
use crate::text::{cat, eq_ignore_case, eq_ignore_case_str, find_char, find_first, find_last,
    lemma_find_from, lemma_rfind_before, rfind_char};
use vstd::prelude::*;

verus! {

/// Where and how to reach the model.
pub struct AiConfig {
    /// `openai` or `anthropic`.
    pub provider: String,
    pub base_url: String,
    pub key: String,
    pub model: String,
}

/// One message of a conversation; `role` is `user` or `assistant`.
pub struct ChatMessage {
    pub role: String,
    pub content: String,
}

/// The two wire formats.
#[derive(Clone, Copy, PartialEq, Eq, Debug, Structural)]
pub enum Provider {
    OpenAi,
    Anthropic,
}

/// A request to send: the endpoint, the headers, the model, the system
/// prompt where the format carries it apart, the messages, the token limit
/// where the format asks for one, and where the reply's text is found
/// (a JSON pointer).
pub struct AiRequest {
    pub provider: Provider,
    pub url: String,
    pub headers: Vec<(String, String)>,
    pub model: String,
    pub system: Option<String>,
    pub messages: Vec<ChatMessage>,
    pub max_tokens: Option<u32>,
    pub reply_pointer: String,
}

/// The prompt for diagnosing pip errors.
pub const DIAGNOSE_PROMPT: &'static str = "你是 Python 包安装错误诊断助手。根据 pip 的报错输出，用简体中文简洁给出：1) 最可能的根因；2) 具体可执行的修复步骤（命令或操作）。直接给结论，不要寒暄。";

/// The prompt for recommending packages.
pub const FIND_PROMPT: &'static str = "你是 Python 包推荐助手。根据用户需求，推荐 3-6 个 PyPI 上合适、活跃的包。只返回 JSON 数组，格式 [{\"name\":\"包名\",\"reason\":\"一句话推荐理由\"}]，不要任何额外文字或代码块标记。";

/// The prompt for conversation.
pub const CHAT_PROMPT: &'static str = "你是 pvm 的内置助手。pvm 是 Windows 平台的 Python 版本管理器 + 包管理器。回答聚焦 Python 版本管理、虚拟环境、pip/包管理、依赖与报错排查等开发问题，用简体中文，简洁直接、给可执行步骤；涉及命令时用代码块。不确定就说明，不要编造。";

/// The format a configuration names: Anthropic's for `anthropic` in any
/// ASCII case, OpenAI's otherwise.
pub open spec fn provider_of(cfg_provider: Seq<char>) -> Provider {
    if eq_ignore_case(cfg_provider, "anthropic"@) {
        Provider::Anthropic
    } else {
        Provider::OpenAi
    }
}

/// `s` without the `/`s at its end.
pub open spec fn trim_slashes_of(s: Seq<char>) -> Seq<char>
    decreases s.len(),
{
    if s.len() > 0 && s.last() == '/' {
        trim_slashes_of(s.drop_last())
    } else {
        s
    }
}

fn trim_slashes(s: &str) -> (r: &str)
    ensures
        r@ == trim_slashes_of(s@),
{
    let n = s.unicode_len();
    let mut b: usize = n;
    assert(s@.subrange(0, n as int) =~= s@);
    while b > 0 && s.get_char(b - 1) == '/'
        invariant
            n == s@.len(),
            b <= n,
            trim_slashes_of(s@.subrange(0, b as int)) == trim_slashes_of(s@),
        decreases b,
    {
        assert(s@.subrange(0, b as int).drop_last() =~= s@.subrange(0, b - 1));
        b = b - 1;
    }
    s.substring_char(0, b)
}

/// The endpoint of a format under a base URL.
pub open spec fn endpoint_of(p: Provider, base_url: Seq<char>) -> Seq<char> {
    match p {
        Provider::OpenAi => trim_slashes_of(base_url) + "/chat/completions"@,
        Provider::Anthropic => trim_slashes_of(base_url) + "/v1/messages"@,
    }
}

pub open spec fn header_views(h: Seq<(String, String)>) -> Seq<(Seq<char>, Seq<char>)> {
    h.map_values(|p: (String, String)| (p.0@, p.1@))
}

/// The headers of a format: the key as a bearer token (OpenAI) or as
/// `x-api-key` with the API version (Anthropic), and the JSON content type.
pub open spec fn headers_of(p: Provider, key: Seq<char>) -> Seq<(Seq<char>, Seq<char>)> {
    match p {
        Provider::OpenAi => seq![
            ("Authorization"@, "Bearer "@ + key),
            ("Content-Type"@, "application/json"@),
        ],
        Provider::Anthropic => seq![
            ("x-api-key"@, key),
            ("anthropic-version"@, "2023-06-01"@),
            ("Content-Type"@, "application/json"@),
        ],
    }
}

pub open spec fn message_views(m: Seq<ChatMessage>) -> Seq<(Seq<char>, Seq<char>)> {
    m.map_values(|x: ChatMessage| (x.role@, x.content@))
}

pub open spec fn opt_sv(o: Option<String>) -> Option<Seq<char>> {
    match o {
        Some(s) => Some(s@),
        None => None,
    }
}

/// The request for a system prompt and a conversation: OpenAI's format
/// sends the prompt as the first message; Anthropic's sends it apart, with
/// a limit of 2048 tokens.
pub open spec fn request_ok(
    r: AiRequest,
    cfg: AiConfig,
    system: Seq<char>,
    history: Seq<(Seq<char>, Seq<char>)>,
) -> bool {
    let p = provider_of(cfg.provider@);
    &&& r.provider == p
    &&& r.url@ == endpoint_of(p, cfg.base_url@)
    &&& header_views(r.headers@) == headers_of(p, cfg.key@)
    &&& r.model@ == cfg.model@
    &&& match p {
        Provider::OpenAi => {
            &&& r.system is None
            &&& message_views(r.messages@) == seq![("system"@, system)] + history
            &&& r.max_tokens is None
            &&& r.reply_pointer@ == "/choices/0/message/content"@
        },
        Provider::Anthropic => {
            &&& opt_sv(r.system) == Some(system)
            &&& message_views(r.messages@) == history
            &&& r.max_tokens == Some(2048u32)
            &&& r.reply_pointer@ == "/content/0/text"@
        },
    }
}

fn provider(cfg: &AiConfig) -> (r: Provider)
    ensures
        r == provider_of(cfg.provider@),
{
    if eq_ignore_case_str(cfg.provider.as_str(), "anthropic") {
        Provider::Anthropic
    } else {
        Provider::OpenAi
    }
}

fn copy_message(m: &ChatMessage) -> (r: ChatMessage)
    ensures
        r.role@ == m.role@,
        r.content@ == m.content@,
{
    ChatMessage { role: m.role.clone(), content: m.content.clone() }
}

fn pair(a: &str, b: &str) -> (r: (String, String))
    ensures
        r.0@ == a@,
        r.1@ == b@,
{
    (String::from_str(a), String::from_str(b))
}

/// The request that puts `history` to the model configured in `cfg`,
/// under the system prompt `system`.
pub fn dispatch(cfg: &AiConfig, system: &str, history: &Vec<ChatMessage>) -> (r: AiRequest)
    ensures
        request_ok(r, *cfg, system@, message_views(history@)),
{
    let p = provider(cfg);
    let base = trim_slashes(cfg.base_url.as_str());
    let mut messages: Vec<ChatMessage> = Vec::new();
    let mut headers: Vec<(String, String)> = Vec::new();
    match p {
        Provider::OpenAi => {
            messages.push(
                ChatMessage { role: String::from_str("system"), content: String::from_str(system) },
            );
            headers.push(pair("Authorization", cat("Bearer ", cfg.key.as_str()).as_str()));
            headers.push(pair("Content-Type", "application/json"));
        },
        Provider::Anthropic => {
            headers.push(pair("x-api-key", cfg.key.as_str()));
            headers.push(pair("anthropic-version", "2023-06-01"));
            headers.push(pair("Content-Type", "application/json"));
        },
    }
    let ghost start = message_views(messages@);
    let mut i: usize = 0;
    while i < history.len()
        invariant
            i <= history@.len(),
            message_views(messages@) == start + message_views(history@).take(i as int),
        decreases history@.len() - i,
    {
        let ghost before = message_views(messages@);
        let m = copy_message(&history[i]);
        messages.push(m);
        proof {
            assert(message_views(messages@) =~= before.push((history@[i as int].role@, history@[i as int].content@)));
            assert(message_views(history@).take(i + 1) =~= message_views(history@).take(i as int).push(
                (history@[i as int].role@, history@[i as int].content@),
            ));
        }
        i = i + 1;
    }
    assert(message_views(history@).take(history@.len() as int) =~= message_views(history@));
    match p {
        Provider::OpenAi => {
            assert(header_views(headers@) =~= headers_of(p, cfg.key@));
            assert(message_views(messages@) =~= seq![("system"@, system@)] + message_views(history@));
            AiRequest {
                provider: p,
                url: cat(base, "/chat/completions"),
                headers,
                model: cfg.model.clone(),
                system: None,
                messages,
                max_tokens: None,
                reply_pointer: String::from_str("/choices/0/message/content"),
            }
        },
        Provider::Anthropic => {
            assert(header_views(headers@) =~= headers_of(p, cfg.key@));
            assert(message_views(messages@) =~= message_views(history@));
            AiRequest {
                provider: p,
                url: cat(base, "/v1/messages"),
                headers,
                model: cfg.model.clone(),
                system: Some(String::from_str(system)),
                messages,
                max_tokens: Some(2048),
                reply_pointer: String::from_str("/content/0/text"),
            }
        },
    }
}

fn user_msg(content: String) -> (r: ChatMessage)
    ensures
        r.role@ == "user"@,
        r.content@ == content@,
{
    ChatMessage { role: String::from_str("user"), content }
}

/// At most the first `n` characters.
pub open spec fn clip_of(s: Seq<char>, n: nat) -> Seq<char> {
    if s.len() <= n {
        s
    } else {
        s.take(n as int)
    }
}

fn clip(s: &str, n: usize) -> (r: &str)
    ensures
        r@ == clip_of(s@, n as nat),
{
    let len = s.unicode_len();
    if len <= n {
        s
    } else {
        s.substring_char(0, n)
    }
}

/// The question put for a pip error output (its first 4000 characters,
/// fenced as code).
pub open spec fn diagnose_question_of(error_log: Seq<char>) -> Seq<char> {
    "pip 安装/操作失败，错误输出如下：\n```\n"@ + clip_of(error_log, 4000) + "\n```"@
}

/// Asks for the cause of a pip error and how to fix it.
pub fn diagnose(cfg: &AiConfig, error_log: &str) -> (r: AiRequest)
    ensures
        request_ok(r, *cfg, DIAGNOSE_PROMPT@, seq![("user"@, diagnose_question_of(error_log@))]),
{
    let mut q = String::from_str("pip 安装/操作失败，错误输出如下：\n```\n");
    q.append(clip(error_log, 4000));
    q.append("\n```");
    let mut h: Vec<ChatMessage> = Vec::new();
    h.push(user_msg(q));
    assert(message_views(h@) =~= seq![("user"@, diagnose_question_of(error_log@))]);
    dispatch(cfg, DIAGNOSE_PROMPT, &h)
}

/// Asks for packages that meet a need described in words.
pub fn find_packages(cfg: &AiConfig, query: &str) -> (r: AiRequest)
    ensures
        request_ok(r, *cfg, FIND_PROMPT@, seq![("user"@, "需求："@ + query@)]),
{
    let q = cat("需求：", query);
    let mut h: Vec<ChatMessage> = Vec::new();
    h.push(user_msg(q));
    assert(message_views(h@) =~= seq![("user"@, "需求："@ + query@)]);
    dispatch(cfg, FIND_PROMPT, &h)
}

/// Continues a conversation; an empty one is refused.
pub fn chat(cfg: &AiConfig, history: &Vec<ChatMessage>) -> (r: Result<AiRequest, PvmError>)
    ensures
        r is Ok <==> history@.len() > 0,
        match r {
            Ok(q) => request_ok(q, *cfg, CHAT_PROMPT@, message_views(history@)),
            Err(e) => e@ == ErrView::Http("对话内容为空"@),
        },
{
    if history.len() == 0 {
        return Err(PvmError::Http(String::from_str("对话内容为空")));
    }
    Ok(dispatch(cfg, CHAT_PROMPT, history))
}

/// The part of a reply that holds the JSON array: from its first `[` to
/// its last `]` where both occur in that order, else the whole reply.
pub open spec fn array_text_of(text: Seq<char>) -> Seq<char> {
    match (find_first(text, '['), find_last(text, ']')) {
        (Some(s), Some(e)) => if e > s {
            text.subrange(s, e + 1)
        } else {
            text
        },
        _ => text,
    }
}

pub fn array_text(text: &str) -> (r: &str)
    ensures
        r@ == array_text_of(text@),
{
    proof {
        lemma_find_from(text@, '[', 0);
        lemma_rfind_before(text@, ']', text@.len() as int);
    }
    let _n = text.unicode_len();
    match (find_char(text, '['), rfind_char(text, ']')) {
        (Some(s), Some(e)) => if e > s {
            text.substring_char(s, e + 1)
        } else {
            text
        },
        _ => text,
    }
}

/// The recommendations read from the array's entries (name and reason,
/// where each is text): those with a name, a missing reason read as empty.
pub open spec fn recommendations_of(es: Seq<(Option<String>, Option<String>)>) -> Seq<(Seq<char>, Seq<char>)>
    decreases es.len(),
{
    if es.len() == 0 {
        Seq::empty()
    } else {
        let rest = recommendations_of(es.drop_last());
        match es.last().0 {
            Some(n) => rest.push(
                (
                    n@,
                    match es.last().1 {
                        Some(r) => r@,
                        None => Seq::empty(),
                    },
                ),
            ),
            None => rest,
        }
    }
}

pub open spec fn pair_views(v: Seq<(String, String)>) -> Seq<(Seq<char>, Seq<char>)> {
    v.map_values(|p: (String, String)| (p.0@, p.1@))
}

pub fn recommendations_from(entries: Vec<(Option<String>, Option<String>)>) -> (r: Vec<
    (String, String),
>)
    ensures
        pair_views(r@) == recommendations_of(entries@),
{
    let ghost orig = entries@;
    let n = entries.len();
    let mut src = entries;
    let mut out: Vec<(String, String)> = Vec::new();
    let mut i: usize = 0;
    while i < n
        invariant
            n == orig.len(),
            i <= n,
            src@ == orig.subrange(i as int, n as int),
            pair_views(out@) == recommendations_of(orig.take(i as int)),
        decreases n - i,
    {
        let e = src.remove(0);
        proof {
            assert(e == orig[i as int]);
            assert(orig.take(i + 1).drop_last() =~= orig.take(i as int));
            assert(orig.take(i + 1).last() == orig[i as int]);
            assert(src@ =~= orig.subrange(i + 1, n as int));
        }
        let (name, reason) = e;
        match name {
            Some(nm) => {
                let rs = match reason {
                    Some(r) => r,
                    None => String::new(),
                };
                let ghost before = out@;
                let ghost pv = (nm@, rs@);
                out.push((nm, rs));
                assert(pair_views(out@) =~= pair_views(before).push(pv));
            },
            None => {},
        }
        i = i + 1;
    }
    assert(orig.take(n as int) =~= orig);
    out
}

/// The error for a reply that is not a JSON array: the parser's message and
/// the reply's first 200 characters.
pub fn recommendations_error(parser_message: &str, text: &str) -> (r: PvmError)
    ensures
        r@ == ErrView::Http("解析 AI 推荐失败: "@ + parser_message@ + "; 原文: "@ + clip_of(text@, 200)),
{
    let mut m = cat("解析 AI 推荐失败: ", parser_message);
    m.append("; 原文: ");
    m.append(clip(text, 200));
    PvmError::Http(m)
}

} // verus!
