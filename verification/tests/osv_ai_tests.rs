use pvm::ai::{
    array_text, chat, diagnose, dispatch, find_packages, recommendations_error,
    recommendations_from, AiConfig, ChatMessage, Provider, CHAT_PROMPT, DIAGNOSE_PROMPT,
};
use pvm::error::PvmError;
use pvm::osv::{advisory_summary, assemble_hits, fixed_versions, ids_to_fetch, vuln_detail, VulnDetail};

fn s(x: &str) -> String {
    x.to_string()
}

#[test]
fn advisories_to_fetch_once() {
    let results = vec![vec![s("A"), s(""), s("B")], vec![s("B"), s("C")], vec![s("Z")]];
    assert_eq!(ids_to_fetch(&results, 2), vec![s("A"), s("B"), s("C")]);
}

#[test]
fn hits_per_package() {
    let packages = vec![(s("requests"), s("2.0")), (s("flask"), s("1.0"))];
    let results = vec![vec![s("A"), s("")], vec![s("B"), s("A")], vec![s("C")]];
    let details = vec![(s("A"), VulnDetail { summary: s("sa"), severity: s("high"), fixed: s("2.1") })];
    let h = assemble_hits(&packages, &results, &details);
    assert_eq!(h.len(), 3);
    assert_eq!((h[0].package.as_str(), h[0].vuln_id.as_str(), h[0].summary.as_str()), ("requests", "A", "sa"));
    assert_eq!((h[1].package.as_str(), h[1].vuln_id.as_str(), h[1].summary.as_str()), ("flask", "B", ""));
    assert_eq!(h[2].fixed, "2.1");
}

#[test]
fn advisory_texts() {
    assert_eq!(fixed_versions(&vec![s("2.1"), s("1.9"), s("2.1"), s("10.0")]), "1.9, 10.0, 2.1");
    assert_eq!(fixed_versions(&vec![]), "");
    let long: String = "字".repeat(300);
    assert_eq!(advisory_summary(Some(Some(long.clone())), None).chars().count(), 240);
    assert_eq!(advisory_summary(None, Some(Some(s("d")))), "d");
    assert_eq!(advisory_summary(Some(None), Some(Some(s("d")))), "");
    let d = vuln_detail(Some(Some(s("sum"))), None, Some(s("CVSS:3.1/AV:N")), &vec![s("b"), s("a")]);
    assert_eq!((d.summary.as_str(), d.severity.as_str(), d.fixed.as_str()), ("sum", "CVSS:3.1/AV:N", "a, b"));
}

fn cfg(provider: &str) -> AiConfig {
    AiConfig { provider: s(provider), base_url: s("https://api.x.com/"), key: s("k1"), model: s("m1") }
}

#[test]
fn requests_per_format() {
    let h = vec![ChatMessage { role: s("user"), content: s("hi") }];
    let r = dispatch(&cfg("openai"), "sys", &h);
    assert_eq!(r.provider, Provider::OpenAi);
    assert_eq!(r.url, "https://api.x.com/chat/completions");
    assert_eq!(r.headers[0], (s("Authorization"), s("Bearer k1")));
    assert_eq!(r.messages.len(), 2);
    assert_eq!((r.messages[0].role.as_str(), r.messages[0].content.as_str()), ("system", "sys"));
    assert_eq!(r.reply_pointer, "/choices/0/message/content");
    assert!(r.system.is_none() && r.max_tokens.is_none());
    let r = dispatch(&cfg("Anthropic"), "sys", &h);
    assert_eq!(r.provider, Provider::Anthropic);
    assert_eq!(r.url, "https://api.x.com/v1/messages");
    assert_eq!(r.headers[0], (s("x-api-key"), s("k1")));
    assert_eq!(r.headers[1], (s("anthropic-version"), s("2023-06-01")));
    assert_eq!(r.system.as_deref(), Some("sys"));
    assert_eq!(r.max_tokens, Some(2048));
    assert_eq!(r.messages.len(), 1);
    assert_eq!(r.model, "m1");
}

#[test]
fn assistant_features() {
    let log: String = "e".repeat(5000);
    let r = diagnose(&cfg("anthropic"), &log);
    assert_eq!(r.system.as_deref(), Some(DIAGNOSE_PROMPT));
    let q = &r.messages[0].content;
    assert!(q.starts_with("pip 安装/操作失败，错误输出如下：\n```\n"));
    assert_eq!(q.chars().filter(|c| *c == 'e').count(), 4000);
    let r = find_packages(&cfg("openai"), "画图");
    assert_eq!(r.messages[1].content, "需求：画图");
    assert!(matches!(chat(&cfg("openai"), &vec![]), Err(PvmError::Http(_))));
    let r = chat(&cfg("anthropic"), &vec![ChatMessage { role: s("user"), content: s("q") }]).unwrap();
    assert_eq!(r.system.as_deref(), Some(CHAT_PROMPT));
}

#[test]
fn recommendations() {
    assert_eq!(array_text("sure: [{\"name\":\"a\"}] done"), "[{\"name\":\"a\"}]");
    assert_eq!(array_text("] oops ["), "] oops [");
    assert_eq!(array_text("none"), "none");
    let r = recommendations_from(vec![(Some(s("a")), Some(s("why"))), (None, Some(s("x"))), (Some(s("b")), None)]);
    assert_eq!(r, vec![(s("a"), s("why")), (s("b"), s(""))]);
    match recommendations_error("bad json", &"x".repeat(300)) {
        PvmError::Http(m) => assert_eq!(m, format!("解析 AI 推荐失败: bad json; 原文: {}", "x".repeat(200))),
        _ => panic!(),
    }
}
