//! The system prompt, which is built anew for every request and is not part of
//! the history.
use crate::config::{Model, ModelV};
use crate::stamp::{date_text, Timestamp};
use crate::text::{trim, trimmed, view_opt};
use vstd::prelude::*;

verus! {

/// Who the agent is, what it can do and how it is to behave.
pub const BASE_PROMPT: &'static str = "\
你是 edoCRS, 一个用 Rust 编写的简易 agent CLI 助手 (后端 DeepSeek V4).

# 角色
- 协助用户阅读、修改和运行项目代码.
- 可调用以下工具来操作文件系统:
  - read_file: 读取文件
  - write_file: 写入或覆盖文件
  - bash: 执行 shell 命令 (可能需要用户授权)

# 行为准则
- 默认用中文回复.
- 修改文件前先 read_file 确认上下文, 不凭空改.
- 执行有副作用的命令 (rm / 覆盖 / 推送) 前简短说明意图, 然后由权限层向用户确认.
- 回答精简但不省略关键信息.";

/// The instructions of a project, where it has any.
pub open spec fn instructions(agents_md: Option<Seq<char>>) -> Seq<char> {
    match agents_md {
        Some(content) => "\n\n# Project Instructions (AGENTS.md)\n"@ + trimmed(content) + "\n"@,
        None => seq![],
    }
}

/// The system prompt: who the agent is, where and when it runs and on which
/// model, and the instructions of the project.
pub open spec fn prompt(
    model: ModelV,
    cwd: Seq<char>,
    date: Seq<char>,
    agents_md: Option<Seq<char>>,
) -> Seq<char> {
    BASE_PROMPT@ + "\n\n# Environment\n"@ + "- working directory: "@ + cwd + "\n"@ + "- date: "@
        + date + "\n"@ + "- model: "@ + model.api_id + "\n"@ + instructions(agents_md)
}

/// The system prompt on a given date.
pub fn build_on(model: &Model, cwd: &str, date: &str, agents_md: Option<&str>) -> (r: String)
    ensures
        r@ == prompt(model@, cwd@, date@, view_opt(agents_md)),
{
    let mut s = BASE_PROMPT.to_owned();
    s.append("\n\n# Environment\n");
    s.append("- working directory: ");
    s.append(cwd);
    s.append("\n");
    s.append("- date: ");
    s.append(date);
    s.append("\n");
    s.append("- model: ");
    s.append(model.api_id());
    s.append("\n");
    match agents_md {
        Some(content) => {
            let ghost known = s@;
            let body = trim(content);
            s.append("\n\n# Project Instructions (AGENTS.md)\n");
            s.append(body.as_str());
            s.append("\n");
            assert(s@ =~= known + instructions(view_opt(agents_md)));
        },
        None => {
            assert(s@ =~= s@ + instructions(view_opt(agents_md)));
        },
    }
    s
}

/// The date of today.
pub fn today() -> (r: String)
    ensures
        exists|t: Timestamp| #[trigger] date_text(t.secs, t.nanos) == Some(r@),
{
    let now = Timestamp::now();
    match now.date() {
        Some(date) => date,
        None => String::new(),
    }
}

/// The system prompt now; `agents_md` is what `AGENTS.md` in the working
/// directory holds, where it can be read.
pub fn build(model: &Model, cwd: &str, agents_md: Option<&str>) -> (r: String)
    ensures
        exists|t: Timestamp| #[trigger]
            date_text(t.secs, t.nanos) is Some && r@ == prompt(
                model@,
                cwd@,
                date_text(t.secs, t.nanos)->0,
                view_opt(agents_md),
            ),
{
    let date = today();
    build_on(model, cwd, date.as_str(), agents_md)
}

/// The prompt says who the agent is, then where it works, on what day and as what
/// model, and then, where there is an `AGENTS.md`, what that says, without the white
/// space around it.
pub proof fn law_prompt_says_everything(
    model: ModelV,
    cwd: Seq<char>,
    date: Seq<char>,
    text: Seq<char>,
)
    ensures
        ({
            let base = BASE_PROMPT@ + "\n\n# Environment\n"@ + "- working directory: "@ + cwd
                + "\n"@ + "- date: "@ + date + "\n"@ + "- model: "@ + model.api_id + "\n"@;
            &&& prompt(model, cwd, date, None) == base
            &&& prompt(model, cwd, date, Some(text)) == base + (
            "\n\n# Project Instructions (AGENTS.md)\n"@ + trimmed(text) + "\n"@)
        }),
{
    let base = BASE_PROMPT@ + "\n\n# Environment\n"@ + "- working directory: "@ + cwd + "\n"@
        + "- date: "@ + date + "\n"@ + "- model: "@ + model.api_id + "\n"@;
    assert(base + Seq::<char>::empty() =~= base);
}

} // verus!
