//! The loop that reads what the user types: what a line means, and what the
//! commands answer.
use crate::config::{below, join_path};
use crate::errors::{AppError, AppErrorV};
use crate::json::{json_parse, json_pretty, trees, writable, Json, JsonV};
use crate::stamp::{uuid_text, SessionId};
use crate::text::{
    before_suffix_char, decimal, decimal_text, join, join3, law_splitting_at_the_first,
    law_suffix_is_taken_off, lemma_find_is, lines, parse_u32, parsed_u32, same, split_at_first, split_lines, split_once, starts_with_char, strip_suffix_char, take, take_chars,
    trim, trimmed, view_opt, views,
};
use vstd::prelude::*;

verus! {

// ---------------------------------------------------------------------------
// Lines
// ---------------------------------------------------------------------------
/// What the user is typing: the lines so far, each of which ended in a
/// backslash.
pub struct Input {
    pub acc: String,
}

/// What is typed after one more line: whether it is complete, and the text.
/// A line that ends in a backslash goes on in the next one, and an empty line
/// ends what was begun so.
pub open spec fn typed(acc: Seq<char>, line: Seq<char>) -> (bool, Seq<char>) {
    match before_suffix_char(line, '\\') {
        Some(begun) => (false, acc + begun + "\n"@),
        None => (true, acc + line),
    }
}

impl Input {
    /// Nothing has been typed.
    pub fn new() -> (r: Input)
        ensures
            r.acc@ == Seq::<char>::empty(),
    {
        let r = Input { acc: String::new() };
        assert(r.acc@ =~= Seq::<char>::empty());
        r
    }

    /// Whether a further line is awaited.
    pub fn goes_on(&self) -> (r: bool)
        ensures
            r == (self.acc@.len() > 0),
    {
        !self.acc.as_str().is_empty()
    }

    /// Takes one more line; gives what was typed once that is complete.
    pub fn take_line(&mut self, line: &str) -> (r: Option<String>)
        ensures
            view_opt(r) == (if typed(old(self).acc@, line@).0 {
                Some(typed(old(self).acc@, line@).1)
            } else {
                None
            }),
            final(self).acc@ == (if typed(old(self).acc@, line@).0 {
                Seq::<char>::empty()
            } else {
                typed(old(self).acc@, line@).1
            }),
    {
        match strip_suffix_char(line, '\\') {
            Some(begun) => {
                self.acc.append(begun.as_str());
                self.acc.append("\n");
                None
            },
            None => {
                let whole = join(self.acc.as_str(), line);
                self.acc = String::new();
                assert(self.acc@ =~= Seq::<char>::empty());
                Some(whole)
            },
        }
    }
}

/// How reading a line went.
#[derive(Debug)]
pub enum Read {
    Line(String),
    /// The user pressed Ctrl+C.
    Interrupted,
    /// The user pressed Ctrl+D.
    Eof,
    Failed(String),
}

pub ghost enum EnteredV {
    Nothing,
    NewLine,
    Quit,
    Broken(Seq<char>),
    Slash(SlashV),
    Message(Seq<char>),
}

/// What the user entered.
#[derive(Debug)]
pub enum Entered {
    /// A blank line.
    Nothing,
    /// The line is dropped, and a new one begun.
    NewLine,
    /// The session ends.
    Quit,
    /// Nothing more can be read; the message says why.
    Broken(String),
    Slash(Slash),
    /// A message to the model.
    Message(String),
}

impl View for Entered {
    type V = EnteredV;

    open spec fn view(&self) -> EnteredV {
        match self {
            Entered::Nothing => EnteredV::Nothing,
            Entered::NewLine => EnteredV::NewLine,
            Entered::Quit => EnteredV::Quit,
            Entered::Broken(e) => EnteredV::Broken(e@),
            Entered::Slash(c) => EnteredV::Slash(c@),
            Entered::Message(s) => EnteredV::Message(s@),
        }
    }
}

/// What was entered: blank lines are nothing, a slash begins a command, and
/// all else is a message as it is.
pub open spec fn entered(read: Read) -> EnteredV {
    match read {
        Read::Line(line) => if trimmed(line@).len() == 0 {
            EnteredV::Nothing
        } else if line@[0] == '/' {
            EnteredV::Slash(slash(line@))
        } else {
            EnteredV::Message(line@)
        },
        Read::Interrupted => EnteredV::NewLine,
        Read::Eof => EnteredV::Quit,
        Read::Failed(e) => EnteredV::Broken("readline: "@ + e@),
    }
}

/// What the user entered.
pub fn classify(read: Read) -> (r: Entered)
    ensures
        r@ == entered(read),
{
    match read {
        Read::Line(line) => {
            let core = trim(line.as_str());
            if core.as_str().is_empty() {
                Entered::Nothing
            } else {
                proof {
                    lemma_trimmed_empty(line@);
                }
                if starts_with_char(line.as_str(), '/') {
                    Entered::Slash(dispatch_slash(line.as_str()))
                } else {
                    Entered::Message(line)
                }
            }
        },
        Read::Interrupted => Entered::NewLine,
        Read::Eof => Entered::Quit,
        Read::Failed(e) => Entered::Broken(join("readline: ", e.as_str())),
    }
}

proof fn lemma_trimmed_empty(s: Seq<char>)
    ensures
        s.len() == 0 ==> trimmed(s).len() == 0,
{
}

// ---------------------------------------------------------------------------
// Commands
// ---------------------------------------------------------------------------
pub ghost enum SlashV {
    Help,
    Exit,
    Clear,
    Rewind(Option<u32>),
    Fork,
    Save(Seq<char>),
    Sessions,
    Tools,
    Unknown(Seq<char>),
}

/// A command.
#[derive(Debug)]
pub enum Slash {
    Help,
    Exit,
    Clear,
    /// Rewind to a turn; there is none where the argument is no number.
    Rewind(Option<u32>),
    Fork,
    /// Give the session a name, which is empty where none was typed.
    Save(String),
    Sessions,
    Tools,
    Unknown(String),
}

impl View for Slash {
    type V = SlashV;

    open spec fn view(&self) -> SlashV {
        match self {
            Slash::Help => SlashV::Help,
            Slash::Exit => SlashV::Exit,
            Slash::Clear => SlashV::Clear,
            Slash::Rewind(n) => SlashV::Rewind(*n),
            Slash::Fork => SlashV::Fork,
            Slash::Save(s) => SlashV::Save(s@),
            Slash::Sessions => SlashV::Sessions,
            Slash::Tools => SlashV::Tools,
            Slash::Unknown(s) => SlashV::Unknown(s@),
        }
    }
}

/// A line without white space at its ends, as a command and its argument: the
/// first space divides them.
pub open spec fn command_parts(line: Seq<char>) -> (Seq<char>, Seq<char>) {
    match split_at_first(trimmed(line), ' ') {
        Some(p) => (p.0, trimmed(p.1)),
        None => (trimmed(line), seq![]),
    }
}

/// The command that a line stands for.
pub open spec fn slash(line: Seq<char>) -> SlashV {
    let (cmd, arg) = command_parts(line);
    if cmd == "/help"@ {
        SlashV::Help
    } else if cmd == "/exit"@ || cmd == "/quit"@ {
        SlashV::Exit
    } else if cmd == "/clear"@ {
        SlashV::Clear
    } else if cmd == "/rewind"@ {
        SlashV::Rewind(parsed_u32(arg))
    } else if cmd == "/fork"@ {
        SlashV::Fork
    } else if cmd == "/save"@ {
        SlashV::Save(arg)
    } else if cmd == "/sessions"@ {
        SlashV::Sessions
    } else if cmd == "/tools"@ {
        SlashV::Tools
    } else {
        SlashV::Unknown(cmd)
    }
}

/// The command that a line stands for.
pub fn dispatch_slash(line: &str) -> (r: Slash)
    ensures
        r@ == slash(line@),
{
    let core = trim(line);
    let (cmd, arg) = match split_once(core.as_str(), ' ') {
        Some((cmd, rest)) => {
            let arg = trim(rest.as_str());
            (cmd, arg)
        },
        None => (core, String::new()),
    };
    assert((cmd@, arg@) == command_parts(line@)) by {
        if split_at_first(trimmed(line@), ' ') is None {
            assert(arg@ =~= Seq::<char>::empty());
        }
    }
    let c = cmd.as_str();
    if same(c, "/help") {
        Slash::Help
    } else if same(c, "/exit") || same(c, "/quit") {
        Slash::Exit
    } else if same(c, "/clear") {
        Slash::Clear
    } else if same(c, "/rewind") {
        Slash::Rewind(parse_u32(arg.as_str()))
    } else if same(c, "/fork") {
        Slash::Fork
    } else if same(c, "/save") {
        Slash::Save(arg)
    } else if same(c, "/sessions") {
        Slash::Sessions
    } else if same(c, "/tools") {
        Slash::Tools
    } else {
        Slash::Unknown(cmd)
    }
}

pub ghost enum AnswerLineV {
    Line(Seq<char>),
    Error(Seq<char>),
}

/// What a command answers.
#[derive(Debug)]
pub enum AnswerLine {
    Line(String),
    Error(String),
}

impl View for AnswerLine {
    type V = AnswerLineV;

    open spec fn view(&self) -> AnswerLineV {
        match self {
            AnswerLine::Line(s) => AnswerLineV::Line(s@),
            AnswerLine::Error(s) => AnswerLineV::Error(s@),
        }
    }
}

/// The lines of the help.
pub open spec fn help_text() -> Seq<Seq<char>> {
    seq![
        "可用命令:"@,
        "  /help              本帮助"@,
        "  /exit, /quit       退出 (自动保存)"@,
        "  /clear             清空当前会话, 开新会话"@,
        "  /rewind <n>        回滚到第 n 个回合边界 (文件一起回滚)"@,
        "  /fork              分叉当前会话为一个新会话"@,
        "  /save <name>       给当前会话起别名 (软链接)"@,
        "  /sessions          列出最近 10 个会话"@,
        "  /tools             列出已注册工具的 schema"@,
    ]
}

/// What `/help` shows.
pub fn help() -> (r: Vec<String>)
    ensures
        views(r@) == help_text(),
{
    let mut v: Vec<String> = Vec::new();
    v.push("可用命令:".to_owned());
    v.push("  /help              本帮助".to_owned());
    v.push("  /exit, /quit       退出 (自动保存)".to_owned());
    v.push("  /clear             清空当前会话, 开新会话".to_owned());
    v.push("  /rewind <n>        回滚到第 n 个回合边界 (文件一起回滚)".to_owned());
    v.push("  /fork              分叉当前会话为一个新会话".to_owned());
    v.push("  /save <name>       给当前会话起别名 (软链接)".to_owned());
    v.push("  /sessions          列出最近 10 个会话".to_owned());
    v.push("  /tools             列出已注册工具的 schema".to_owned());
    assert(views(v@) =~= help_text());
    v
}

/// What `/clear` answers, given the identifier of the new session where there
/// is one.
pub fn clear_answer(id: Option<SessionId>) -> (r: AnswerLine)
    ensures
        r@ == (match id {
            Some(id) => AnswerLineV::Line("已开新会话: "@ + uuid_text(id.value)),
            None => AnswerLineV::Error("清空失败: 会话 actor 无响应"@),
        }),
{
    match id {
        Some(id) => {
            let text = id.to_text();
            AnswerLine::Line(join("已开新会话: ", text.as_str()))
        },
        None => AnswerLine::Error("清空失败: 会话 actor 无响应".to_owned()),
    }
}

/// What `/rewind` answers where its argument is no number.
pub fn rewind_usage() -> (r: AnswerLine)
    ensures
        r@ == AnswerLineV::Error("用法: /rewind <回合号, 非负整数>"@),
{
    AnswerLine::Error("用法: /rewind <回合号, 非负整数>".to_owned())
}

/// What `/rewind` answers, given how it went.
pub fn rewind_answer(n: u32, went: Result<(), String>) -> (r: AnswerLine)
    ensures
        r@ == (match went {
            Ok(_) => AnswerLineV::Line(
                "已回滚到回合 "@ + decimal(n as nat) + " (文件与历史一起回退)"@,
            ),
            Err(e) => AnswerLineV::Error("回滚失败: "@ + e@),
        }),
{
    match went {
        Ok(_) => {
            let text = decimal_text(n as u64);
            AnswerLine::Line(join3("已回滚到回合 ", text.as_str(), " (文件与历史一起回退)"))
        },
        Err(e) => AnswerLine::Error(join("回滚失败: ", e.as_str())),
    }
}

/// What `/fork` answers, given the identifier of the copy where there is one.
pub fn fork_answer(id: Option<SessionId>) -> (r: AnswerLine)
    ensures
        r@ == (match id {
            Some(id) => AnswerLineV::Line("已分叉出新会话: "@ + uuid_text(id.value)),
            None => AnswerLineV::Error("分叉失败: 会话 actor 无响应"@),
        }),
{
    match id {
        Some(id) => {
            let text = id.to_text();
            AnswerLine::Line(join("已分叉出新会话: ", text.as_str()))
        },
        None => AnswerLine::Error("分叉失败: 会话 actor 无响应".to_owned()),
    }
}

pub ghost enum SavePlanV {
    Refuse(Seq<char>),
    Link { target: Seq<char>, link: Seq<char> },
}

/// What `/save` is to do.
#[derive(Debug)]
pub enum SavePlan {
    /// Nothing; the message says why.
    Refuse(String),
    /// Link the name to the directory of the session, unless the name is
    /// taken.
    Link { target: String, link: String },
}

impl View for SavePlan {
    type V = SavePlanV;

    open spec fn view(&self) -> SavePlanV {
        match self {
            SavePlan::Refuse(s) => SavePlanV::Refuse(s@),
            SavePlan::Link { target, link } => SavePlanV::Link { target: target@, link: link@ },
        }
    }
}

/// What `/save` is to do: it needs a name, and the identifier of the session.
pub open spec fn save_plan_of(dir: Seq<char>, id: Option<SessionId>, name: Seq<char>) -> SavePlanV {
    if name.len() == 0 {
        SavePlanV::Refuse("用法: /save <name>"@)
    } else {
        match id {
            None => SavePlanV::Refuse("保存失败: 会话 actor 无响应"@),
            Some(id) => SavePlanV::Link {
                target: below(dir, uuid_text(id.value)),
                link: below(dir, name),
            },
        }
    }
}

/// What `/save` is to do.
pub fn save_plan(dir: &str, id: Option<SessionId>, name: &str) -> (r: SavePlan)
    ensures
        r@ == save_plan_of(dir@, id, name@),
{
    if name.is_empty() {
        return SavePlan::Refuse("用法: /save <name>".to_owned());
    }
    match id {
        None => SavePlan::Refuse("保存失败: 会话 actor 无响应".to_owned()),
        Some(id) => {
            let text = id.to_text();
            SavePlan::Link { target: join_path(dir, text.as_str()), link: join_path(dir, name) }
        },
    }
}

/// What `/save` answers, given whether the name was taken already.
pub fn save_answer(name: &str, taken: bool) -> (r: AnswerLine)
    ensures
        r@ == (if taken {
            AnswerLineV::Error("已存在 "@ + name@ + ", 拒绝覆盖"@)
        } else {
            AnswerLineV::Line("已保存别名: "@ + name@)
        }),
{
    if taken {
        AnswerLine::Error(join3("已存在 ", name, ", 拒绝覆盖"))
    } else {
        AnswerLine::Line(join("已保存别名: ", name))
    }
}

/// The error where a name could not be linked.
pub fn save_failure(e: &str) -> (r: AppError)
    ensures
        r@ == AppErrorV::Config("symlink 失败: "@ + e@),
{
    AppError::Config(join("symlink 失败: ", e))
}

/// What an unknown command answers.
pub fn unknown_answer(cmd: &str) -> (r: AnswerLine)
    ensures
        r@ == AnswerLineV::Error("未知命令 "@ + cmd@ + ", 试 /help"@),
{
    AnswerLine::Error(join3("未知命令 ", cmd, ", 试 /help"))
}

// ---------------------------------------------------------------------------
// Listings
// ---------------------------------------------------------------------------
/// A session that was written at one time comes before one that was written at
/// another: the later one comes first, and one whose time is not known comes
/// last.
pub open spec fn earlier_listed(a: Option<i128>, b: Option<i128>) -> bool {
    match (a, b) {
        (Some(x), Some(y)) => x > y,
        (Some(_), None) => true,
        _ => false,
    }
}

/// The order in which sessions are listed; those of the same time stay in the
/// order in which they were found.
pub open spec fn listed_before(times: Seq<Option<i128>>, i: int, j: int) -> bool {
    earlier_listed(times[i], times[j]) || (times[i] == times[j] && i < j)
}

fn lists_first(a: Option<i128>, b: Option<i128>) -> (r: bool)
    ensures
        r == earlier_listed(a, b),
{
    match (a, b) {
        (Some(x), Some(y)) => x > y,
        (Some(_), None) => true,
        _ => false,
    }
}

/// The positions are those of the sessions that are listed first, in order.
pub open spec fn first_listed(times: Seq<Option<i128>>, r: Seq<usize>, limit: nat) -> bool {
    &&& r.len() == if times.len() < limit {
        times.len()
    } else {
        limit
    }
    &&& forall|a: int| 0 <= a < r.len() ==> (#[trigger] r[a]) < times.len()
    &&& forall|a: int, b: int|
        0 <= a < b < r.len() ==> listed_before(
            times,
            (#[trigger] r[a]) as int,
            (#[trigger] r[b]) as int,
        )
    &&& forall|i: usize, a: int|
        i < times.len() && 0 <= a < r.len() && !(#[trigger] r.contains(i)) ==> listed_before(
            times,
            (#[trigger] r[a]) as int,
            i as int,
        )
}

/// The positions of the sessions that are listed: the ten that were written
/// last, the last of them first.
pub fn recent(times: &Vec<Option<i128>>) -> (r: Vec<usize>)
    ensures
        first_listed(times@, r@, 10),
{
    let ghost t = times@;
    let mut order: Vec<usize> = Vec::new();
    let mut i: usize = 0;
    while i < times.len()
        invariant
            t == times@,
            i <= t.len(),
            order@.len() == i,
            forall|a: int| 0 <= a < order@.len() ==> (#[trigger] order@[a]) < i,
            forall|a: int, b: int|
                0 <= a < b < order@.len() ==> listed_before(
                    t,
                    (#[trigger] order@[a]) as int,
                    (#[trigger] order@[b]) as int,
                ),
            forall|x: usize| x < i ==> #[trigger] order@.contains(x),
        decreases t.len() - i,
    {
        let mut k: usize = order.len();
        while k > 0 && lists_first(times[i], times[order[k - 1]])
            invariant
                t == times@,
                i < t.len(),
                k <= order@.len(),
                forall|a: int| 0 <= a < order@.len() ==> (#[trigger] order@[a]) < i,
                forall|a: int|
                    k <= a < order@.len() ==> earlier_listed(
                        t[i as int],
                        t[(#[trigger] order@[a]) as int],
                    ),
            decreases k,
        {
            k = k - 1;
        }
        let ghost before = order@;
        order.insert(k, i);
        proof {
            assert forall|a: int, b: int| 0 <= a < b < order@.len() implies listed_before(
                t,
                (#[trigger] order@[a]) as int,
                (#[trigger] order@[b]) as int,
            ) by {
                if b < k {
                    assert(order@[a] == before[a] && order@[b] == before[b]);
                } else if b == k {
                    assert(order@[a] == before[a]);
                    let p = before[k - 1] as int;
                    assert(!earlier_listed(t[i as int], t[p]));
                    if a < k - 1 {
                        assert(listed_before(t, before[a] as int, before[k - 1] as int));
                    }
                } else if a < k {
                    assert(order@[a] == before[a] && order@[b] == before[b - 1]);
                } else if a == k {
                    assert(order@[b] == before[b - 1]);
                } else {
                    assert(order@[a] == before[a - 1] && order@[b] == before[b - 1]);
                }
            }
            assert forall|x: usize| x < i + 1 implies #[trigger] order@.contains(x) by {
                if x == i {
                    assert(order@[k as int] == x);
                } else {
                    assert(before.contains(x));
                    let a = choose|a: int| 0 <= a < before.len() && before[a] == x;
                    if a < k {
                        assert(order@[a] == before[a]);
                    } else {
                        assert(order@[a + 1] == before[a]);
                    }
                }
            }
            assert forall|a: int| 0 <= a < order@.len() implies (#[trigger] order@[a]) < i + 1 by {
                if a < k {
                    assert(order@[a] == before[a]);
                } else if a > k {
                    assert(order@[a] == before[a - 1]);
                }
            }
        }
        i = i + 1;
    }
    let mut out: Vec<usize> = Vec::new();
    let mut n: usize = 0;
    while n < order.len() && n < 10
        invariant
            n <= order@.len(),
            n <= 10,
            out@ == order@.subrange(0, n as int),
        decreases 10 - n,
    {
        out.push(order[n]);
        assert(order@.subrange(0, n + 1) =~= order@.subrange(0, n as int).push(order@[n as int]));
        n = n + 1;
    }
    proof {
        assert forall|x: usize, a: int|
            x < t.len() && 0 <= a < out@.len() && !(#[trigger] out@.contains(x)) implies
            listed_before(t, (#[trigger] out@[a]) as int, x as int) by {
            assert(order@.contains(x));
            let b = choose|b: int| 0 <= b < order@.len() && order@[b] == x;
            if b < out@.len() {
                assert(out@[b] == x);
            }
            assert(out@[a] == order@[a]);
            assert(listed_before(t, order@[a] as int, order@[b] as int));
        }
        assert forall|a: int, b: int| 0 <= a < b < out@.len() implies listed_before(
            t,
            (#[trigger] out@[a]) as int,
            (#[trigger] out@[b]) as int,
        ) by {
            assert(out@[a] == order@[a] && out@[b] == order@[b]);
        }
    }
    out
}

/// The line of a session in the listing.
pub fn session_row(name: &str, summary: Option<String>) -> (r: String)
    ensures
        r@ == "  "@ + name@ + "  "@ + (match summary {
            Some(s) => s@,
            None => seq![],
        }),
{
    let mut row = join3("  ", name, "  ");
    match summary {
        Some(s) => {
            row.append(s.as_str());
        },
        None => {
            assert(row@ =~= row@ + Seq::<char>::empty());
        },
    }
    row
}

/// The summary that a record gives: that of a message of the user is its
/// beginning.
pub open spec fn record_summary(j: JsonV) -> Option<Option<Seq<char>>> {
    match j.get("kind"@) {
        Some(JsonV::Text(kind)) => if kind == "user_message"@ {
            Some(
                match j.get("content"@) {
                    Some(JsonV::Text(content)) => Some(take(content, 30)),
                    _ => None,
                },
            )
        } else {
            None
        },
        _ => None,
    }
}

/// The summary of the first record among lines that gives one; lines that are
/// no JSON are skipped.
pub open spec fn lines_summary(s: Seq<Seq<char>>) -> Option<Seq<char>>
    decreases s.len(),
{
    if s.len() == 0 {
        None
    } else {
        let rest = s.subrange(1, s.len() as int);
        match json_parse(s[0]) {
            Err(_) => lines_summary(rest),
            Ok(j) => match record_summary(j) {
                Some(o) => o,
                None => lines_summary(rest),
            },
        }
    }
}

fn summary_of(j: &Json) -> (r: Option<Option<String>>)
    ensures
        match r {
            Some(o) => record_summary(j@) == Some(view_opt(o)),
            None => record_summary(j@) is None,
        },
{
    match j.get("kind") {
        Some(Json::Text(kind)) => if same(kind.as_str(), "user_message") {
            Some(
                match j.get("content") {
                    Some(Json::Text(content)) => Some(take_chars(content.as_str(), 30)),
                    _ => None,
                },
            )
        } else {
            None
        },
        _ => None,
    }
}

/// The summary of a session: the beginning of the first message of the user in
/// its log.
pub fn first_user_message_summary(log: &str) -> (r: Option<String>)
    ensures
        view_opt(r) == lines_summary(lines(log@)),
{
    let rows = split_lines(log);
    let ghost all = views(rows@);
    let mut i: usize = 0;
    assert(all.subrange(0, all.len() as int) =~= all);
    while i < rows.len()
        invariant
            i <= rows@.len(),
            all == views(rows@),
            all == lines(log@),
            lines_summary(all) == lines_summary(all.subrange(i as int, all.len() as int)),
        decreases rows@.len() - i,
    {
        let ghost rest = all.subrange(i as int, all.len() as int);
        assert(rest[0] == rows@[i as int]@);
        assert(rest.subrange(1, rest.len() as int) =~= all.subrange(i + 1, all.len() as int));
        match Json::parse(rows[i].as_str()) {
            Ok(j) => match summary_of(&j) {
                Some(o) => {
                    return o;
                },
                None => {},
            },
            Err(_) => {},
        }
        i = i + 1;
    }
    None
}

/// What `/tools` shows of a tool.
pub open spec fn tool_text(j: JsonV) -> Seq<char> {
    if writable(j) {
        json_pretty(j)
    } else {
        seq![]
    }
}

/// What `/tools` shows: what the model is told of each tool.
pub fn tool_texts(schemas: &Vec<Json>) -> (r: Vec<String>)
    ensures
        views(r@) == trees(schemas@).map_values(|j: JsonV| tool_text(j)),
{
    let ghost all = trees(schemas@).map_values(|j: JsonV| tool_text(j));
    let mut out: Vec<String> = Vec::new();
    let mut i: usize = 0;
    while i < schemas.len()
        invariant
            i <= schemas@.len(),
            out@.len() == i,
            all == trees(schemas@).map_values(|j: JsonV| tool_text(j)),
            forall|k: int| 0 <= k < i ==> (#[trigger] out@[k])@ == all[k],
        decreases schemas@.len() - i,
    {
        assert(all[i as int] == tool_text(schemas@[i as int]@));
        let text = match schemas[i].to_pretty() {
            Some(s) => s,
            None => {
                let empty = String::new();
                assert(empty@ =~= Seq::<char>::empty());
                empty
            },
        };
        out.push(text);
        i = i + 1;
    }
    assert(views(out@) =~= all);
    out
}

// ---------------------------------------------------------------------------
// What holds of what is typed
// ---------------------------------------------------------------------------
/// A line with a backslash at its end goes on in the next line, with a newline in
/// place of the backslash; any other line ends the input as it is.
pub proof fn law_backslash_goes_on(acc: Seq<char>, line: Seq<char>)
    ensures
        typed(acc, line.push('\\')) == (false, acc + line + seq!['\n']),
        line.len() == 0 || line.last() != '\\' ==> typed(acc, line) == (true, acc + line),
{
    reveal_strlit("\n");
    assert("\n"@ =~= seq!['\n']);
    law_suffix_is_taken_off(line, '\\');
}

/// Input of white space does nothing, input that begins with a slash is a command,
/// and any other input goes to the model as it is. An interruption begins a new
/// line, and the end of the input ends the loop.
pub proof fn law_input_is_understood(line: String, e: String)
    ensures
        trimmed(line@).len() == 0 ==> entered(Read::Line(line)) == EnteredV::Nothing,
        trimmed(line@).len() > 0 && line@[0] == '/' ==> entered(Read::Line(line))
            == EnteredV::Slash(slash(line@)),
        trimmed(line@).len() > 0 && line@[0] != '/' ==> entered(Read::Line(line))
            == EnteredV::Message(line@),
        entered(Read::Interrupted) == EnteredV::NewLine,
        entered(Read::Eof) == EnteredV::Quit,
        entered(Read::Failed(e)) == EnteredV::Broken("readline: "@ + e@),
{
}

/// A command is what stands before the first space, without the white space around
/// the line, and its argument is all that comes behind, without the white space
/// around it.
pub proof fn law_commands_are_parted_at_the_first_space(
    line: Seq<char>,
    cmd: Seq<char>,
    rest: Seq<char>,
)
    requires
        !cmd.contains(' '),
    ensures
        trimmed(line) == cmd.push(' ') + rest ==> command_parts(line) == (cmd, trimmed(rest)),
        trimmed(line) == cmd ==> command_parts(line) == (cmd, Seq::<char>::empty()),
{
    assert forall|i: int| 0 <= i < cmd.len() implies cmd[i] != ' ' by {
        assert(cmd.contains(cmd[i]));
    }
    let s = cmd.push(' ') + rest;
    lemma_find_is(s, ' ', cmd.len() as int);
    assert(s.subrange(0, cmd.len() as int) =~= cmd);
    assert(s.subrange((cmd.len() + 1) as int, s.len() as int) =~= rest);
    law_splitting_at_the_first(cmd, ' ');
    match split_at_first(cmd, ' ') {
        Some((x, _)) => {
            assert(cmd[x.len() as int] == ' ');
        },
        None => {},
    }
}

/// Each command has its name, and a name that is none is answered as such.
pub proof fn law_commands_have_names(line: Seq<char>)
    ensures
        ({
            let (cmd, arg) = command_parts(line);
            let r = slash(line);
            &&& r == SlashV::Help <==> cmd == "/help"@
            &&& r == SlashV::Exit <==> cmd == "/exit"@ || cmd == "/quit"@
            &&& r == SlashV::Clear <==> cmd == "/clear"@
            &&& r == SlashV::Rewind(parsed_u32(arg)) <==> cmd == "/rewind"@
            &&& r == SlashV::Fork <==> cmd == "/fork"@
            &&& r == SlashV::Save(arg) <==> cmd == "/save"@
            &&& r == SlashV::Sessions <==> cmd == "/sessions"@
            &&& r == SlashV::Tools <==> cmd == "/tools"@
            &&& r is Unknown ==> r == SlashV::Unknown(cmd)
            &&& r is Rewind ==> cmd == "/rewind"@
            &&& r is Save ==> cmd == "/save"@
        }),
{
    reveal_strlit("/help");
    reveal_strlit("/exit");
    reveal_strlit("/quit");
    reveal_strlit("/clear");
    reveal_strlit("/rewind");
    reveal_strlit("/fork");
    reveal_strlit("/save");
    reveal_strlit("/sessions");
    reveal_strlit("/tools");
    assert("/help"@.len() == 5 && "/exit"@.len() == 5 && "/quit"@.len() == 5 && "/clear"@.len() == 6
        && "/rewind"@.len() == 7 && "/fork"@.len() == 5 && "/save"@.len() == 5
        && "/sessions"@.len() == 9 && "/tools"@.len() == 6);
    assert("/help"@[1] == 'h' && "/exit"@[1] == 'e' && "/quit"@[1] == 'q' && "/clear"@[1] == 'c'
        && "/fork"@[1] == 'f' && "/save"@[1] == 's' && "/tools"@[1] == 't');
}

/// A session is summed up by the first 30 characters of its first message of the
/// user: lines that are no JSON and records of another kind are passed over, and
/// a message without a text sums up as nothing.
pub proof fn law_sessions_are_summed_up_by_the_first_message(
    line: Seq<char>,
    rest: Seq<Seq<char>>,
)
    ensures
        lines_summary(seq![]) is None,
        ({
            let all = lines_summary(seq![line] + rest);
            match json_parse(line) {
                Err(_) => all == lines_summary(rest),
                Ok(j) => if j.get("kind"@) == Some(JsonV::Text("user_message"@)) {
                    match j.get("content"@) {
                        Some(JsonV::Text(s)) => all == Some(
                            if s.len() <= 30 {
                                s
                            } else {
                                s.subrange(0, 30)
                            },
                        ),
                        _ => all is None,
                    }
                } else {
                    all == lines_summary(rest)
                },
            }
        }),
{
    let s = seq![line] + rest;
    assert(s[0] == line);
    assert(s.subrange(1, s.len() as int) =~= rest);
}

/// A session is saved under a name by a link next to it; a name is needed, and a
/// session that answers.
pub proof fn law_names_are_links(dir: Seq<char>, id: SessionId, name: Seq<char>)
    ensures
        name.len() > 0 ==> save_plan_of(dir, Some(id), name) == (SavePlanV::Link {
            target: below(dir, uuid_text(id.value)),
            link: below(dir, name),
        }),
        name.len() > 0 ==> save_plan_of(dir, None, name) == SavePlanV::Refuse(
            "保存失败: 会话 actor 无响应"@,
        ),
        name.len() == 0 ==> save_plan_of(dir, Some(id), name) == SavePlanV::Refuse(
            "用法: /save <name>"@,
        ) && save_plan_of(dir, None, name) == SavePlanV::Refuse("用法: /save <name>"@),
{
}

/// The sessions are listed from the latest to the earliest, and one whose time is
/// not known comes behind all others.
pub proof fn law_latest_sessions_come_first(times: Seq<Option<i128>>, i: int, j: int)
    requires
        0 <= i < times.len(),
        0 <= j < times.len(),
    ensures
        (times[i] matches Some(x) && times[j] matches Some(y) && x > y) ==> listed_before(
            times,
            i,
            j,
        ) && !listed_before(times, j, i),
        times[i] is Some && times[j] is None ==> listed_before(times, i, j) && !listed_before(
            times,
            j,
            i,
        ),
        times[i] == times[j] && i < j ==> listed_before(times, i, j) && !listed_before(times, j, i),
        i != j ==> (listed_before(times, i, j) <==> !listed_before(times, j, i)),
{
}

/// A tool is shown by its description in full.
pub proof fn law_tools_are_shown_in_full(j: JsonV)
    ensures
        writable(j) ==> tool_text(j) == json_pretty(j),
{
}

/// The help names every command that there is.
pub proof fn law_help_names_every_command()
    ensures
        help_text().len() == 9,
        "  /help "@.is_prefix_of(help_text()[1]),
        "  /exit, /quit "@.is_prefix_of(help_text()[2]),
        "  /clear "@.is_prefix_of(help_text()[3]),
        "  /rewind <n> "@.is_prefix_of(help_text()[4]),
        "  /fork "@.is_prefix_of(help_text()[5]),
        "  /save <name> "@.is_prefix_of(help_text()[6]),
        "  /sessions "@.is_prefix_of(help_text()[7]),
        "  /tools "@.is_prefix_of(help_text()[8]),
{
    reveal_strlit("  /help ");
    reveal_strlit("  /exit, /quit ");
    reveal_strlit("  /clear ");
    reveal_strlit("  /rewind <n> ");
    reveal_strlit("  /fork ");
    reveal_strlit("  /save <name> ");
    reveal_strlit("  /sessions ");
    reveal_strlit("  /tools ");
    reveal_strlit("  /help              本帮助");
    reveal_strlit("  /exit, /quit       退出 (自动保存)");
    reveal_strlit("  /clear             清空当前会话, 开新会话");
    reveal_strlit("  /rewind <n>        回滚到第 n 个回合边界 (文件一起回滚)");
    reveal_strlit("  /fork              分叉当前会话为一个新会话");
    reveal_strlit("  /save <name>       给当前会话起别名 (软链接)");
    reveal_strlit("  /sessions          列出最近 10 个会话");
    reveal_strlit("  /tools             列出已注册工具的 schema");
}

} // verus!
