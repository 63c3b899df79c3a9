//! The system prompt.
use edocrs::config::Model;
use edocrs::system_prompt::{build, build_on, BASE_PROMPT};

#[test]
fn includes_base_prompt() {
    let s = build(&Model::deepseek_v4_flash(), "/tmp/x", None);
    assert!(s.contains("edoCRS"), "缺少 BASE_PROMPT 特征 (期望出现 'edoCRS'): {s}");
}

#[test]
fn includes_cwd_in_env_block() {
    let cwd_str = "/tmp/some/dir";
    let s = build(&Model::deepseek_v4_flash(), cwd_str, None);
    assert!(s.contains(cwd_str), "缺少 cwd ({cwd_str}): {s}");
}

#[test]
fn includes_model_id() {
    let s = build(&Model::deepseek_v4_pro(), "/tmp/x", None);
    assert!(s.contains("deepseek-v4-pro"), "缺少 model id: {s}");
}

#[test]
fn appends_agents_md_when_present() {
    let s = build(&Model::deepseek_v4_flash(), "/tmp/x", Some("PROJECT-MARKER-XYZ"));
    assert!(s.contains("PROJECT-MARKER-XYZ"), "AGENTS.md 内容缺失: {s}");
}

#[test]
fn skips_agents_md_when_absent() {
    let s = build(&Model::deepseek_v4_flash(), "/tmp/x", None);
    assert!(!s.contains("Project Instructions"), "AGENTS.md 不存在但 header 出现了: {s}");
}

#[test]
fn prompt_is_laid_out() {
    let s = build_on(&Model::deepseek_v4_flash(), "/w", "2024-05-06", Some(" do\n\n"));
    let expected = format!(
        "{BASE_PROMPT}\n\n# Environment\n- working directory: /w\n- date: 2024-05-06\n- model: deepseek-v4-flash\n\n\n# Project Instructions (AGENTS.md)\ndo\n"
    );
    assert_eq!(s, expected);
}

#[test]
fn today_is_a_date() {
    let s = build(&Model::deepseek_v4_flash(), "/w", None);
    let line = s.lines().find(|l| l.starts_with("- date: ")).unwrap();
    let date = &line["- date: ".len()..];
    assert_eq!(date.len(), 10);
    assert!(date.starts_with("20"));
    assert_eq!(date.as_bytes()[4], b'-');
}
