//! What is shown on the terminal, as pieces of text with a tone each.
use crate::event::{SessionEvent, SessionEventV};
use crate::permission::Decision;
use crate::session_actor::TurnOutcome;
use crate::text::{
    decimal, decimal_text, join, join3, lines, same, split_lines, take, take_chars, trim, trimmed,
    view_opt, views,
};
use vstd::prelude::*;

verus! {

/// How a piece of text is shown.
#[derive(Copy, Clone, Debug, PartialEq, Eq, Structural)]
pub enum Tone {
    Plain,
    /// Cyan.
    Accent,
    /// Bold cyan.
    Title,
    /// Yellow.
    Notice,
    /// Dark grey.
    Faint,
    /// Red.
    Alarm,
    /// Bold red.
    Mark,
    /// Magenta.
    Question,
}

pub ghost struct SpanV {
    pub text: Seq<char>,
    pub tone: Tone,
}

/// A piece of text.
#[derive(Debug)]
pub struct Span {
    pub text: String,
    pub tone: Tone,
}

impl View for Span {
    type V = SpanV;

    open spec fn view(&self) -> SpanV {
        SpanV { text: self.text@, tone: self.tone }
    }
}

/// The pieces of several lines.
pub open spec fn view_lines(s: Seq<Vec<Span>>) -> Seq<Seq<SpanV>> {
    s.map_values(|l: Vec<Span>| views(l@))
}

/// A piece of text.
pub open spec fn span(text: Seq<char>, tone: Tone) -> SpanV {
    SpanV { text, tone }
}

fn piece(text: &str, tone: Tone) -> (r: Span)
    ensures
        r@ == span(text@, tone),
{
    Span { text: text.to_owned(), tone }
}

/// The banner: name, version, model and the beginning of the session's
/// identifier; and how to get help.
pub open spec fn banner_lines(
    version: Seq<char>,
    model: Seq<char>,
    session_id: Seq<char>,
) -> Seq<Seq<SpanV>> {
    seq![
        seq![
            span("edoCRS"@, Tone::Title),
            span(
                " v"@ + version + "  ·  model: "@ + model + "  ·  session: "@ + take(session_id, 8),
                Tone::Plain,
            ),
        ],
        seq![span("输入 /help 看命令, Ctrl+D 退出."@, Tone::Plain)],
    ]
}

/// The banner.
pub fn banner(version: &str, model: &str, session_id: &str) -> (r: Vec<Vec<Span>>)
    ensures
        view_lines(r@) == banner_lines(version@, model@, session_id@),
{
    let short = take_chars(session_id, 8);
    let mut text = join3(" v", version, "  ·  model: ");
    text.append(model);
    text.append("  ·  session: ");
    text.append(short.as_str());
    let mut first: Vec<Span> = Vec::new();
    first.push(piece("edoCRS", Tone::Title));
    first.push(Span { text, tone: Tone::Plain });
    let mut second: Vec<Span> = Vec::new();
    second.push(piece("输入 /help 看命令, Ctrl+D 退出.", Tone::Plain));
    let ghost all = banner_lines(version@, model@, session_id@);
    assert(views(first@) =~= all[0]);
    assert(views(second@) =~= all[1]);
    let mut out: Vec<Vec<Span>> = Vec::new();
    out.push(first);
    out.push(second);
    assert(view_lines(out@) =~= all);
    out
}

/// What the user types behind.
pub fn prompt() -> (r: Span)
    ensures
        r@ == span("▶ "@, Tone::Accent),
{
    piece("▶ ", Tone::Accent)
}

/// A tool call.
pub open spec fn tool_call_line(name: Seq<char>, args_preview: Seq<char>) -> Seq<SpanV> {
    seq![
        span("⚙"@, Tone::Notice),
        span(" ["@, Tone::Plain),
        span(name, Tone::Notice),
        span("]  args: "@ + take(args_preview, 160), Tone::Plain),
    ]
}

/// The line for a tool call.
pub fn show_tool_call(name: &str, args_preview: &str) -> (r: Vec<Span>)
    ensures
        views(r@) == tool_call_line(name@, args_preview@),
{
    let preview = take_chars(args_preview, 160);
    let mut out: Vec<Span> = Vec::new();
    out.push(piece("⚙", Tone::Notice));
    out.push(piece(" [", Tone::Plain));
    out.push(piece(name, Tone::Notice));
    out.push(Span { text: join("]  args: ", preview.as_str()), tone: Tone::Plain });
    assert(views(out@) =~= tool_call_line(name@, args_preview@));
    out
}

/// A line of the result of a tool.
pub open spec fn faint_line(text: Seq<char>) -> Seq<SpanV> {
    seq![span("  "@, Tone::Plain), span(text, Tone::Faint)]
}

/// The result of a tool: its first ten lines, and how many more there are.
pub open spec fn tool_result_lines(result: Seq<char>) -> Seq<Seq<SpanV>> {
    let all = lines(result);
    if all.len() > 10 {
        all.subrange(0, 10).map_values(|l: Seq<char>| faint_line(l)).push(
            faint_line("... ("@ + decimal((all.len() - 10) as nat) + " more lines)"@),
        )
    } else {
        all.map_values(|l: Seq<char>| faint_line(l))
    }
}

fn faint(text: &str) -> (r: Vec<Span>)
    ensures
        views(r@) == faint_line(text@),
{
    let mut out: Vec<Span> = Vec::new();
    out.push(piece("  ", Tone::Plain));
    out.push(piece(text, Tone::Faint));
    assert(views(out@) =~= faint_line(text@));
    out
}

/// The lines for the result of a tool.
pub fn show_tool_result(result: &str) -> (r: Vec<Vec<Span>>)
    ensures
        view_lines(r@) == tool_result_lines(result@),
{
    let rows = split_lines(result);
    let ghost all = lines(result@);
    let n: usize = rows.len();
    let k: usize = if n > 10 {
        10
    } else {
        n
    };
    let mut out: Vec<Vec<Span>> = Vec::new();
    let mut i: usize = 0;
    while i < k
        invariant
            i <= k <= n == rows@.len(),
            all == views(rows@),
            out@.len() == i,
            forall|j: int| 0 <= j < i ==> views((#[trigger] out@[j])@) == faint_line(all[j]),
        decreases k - i,
    {
        let row = faint(rows[i].as_str());
        assert(all[i as int] == rows@[i as int]@);
        out.push(row);
        i = i + 1;
    }
    if n > 10 {
        let ghost head = all.subrange(0, 10).map_values(|l: Seq<char>| faint_line(l));
        assert(view_lines(out@) =~= head);
        let more = decimal_text((n - 10) as u64);
        let text = join3("... (", more.as_str(), " more lines)");
        let last = faint(text.as_str());
        out.push(last);
        assert(view_lines(out@) =~= head.push(faint_line(text@)));
    } else {
        assert(view_lines(out@) =~= all.map_values(|l: Seq<char>| faint_line(l)));
    }
    out
}

/// An error.
pub open spec fn error_line(message: Seq<char>) -> Seq<SpanV> {
    seq![span("✗"@, Tone::Mark), span(" "@, Tone::Plain), span(message, Tone::Alarm)]
}

/// The line for an error.
pub fn show_error(message: &str) -> (r: Vec<Span>)
    ensures
        views(r@) == error_line(message@),
{
    let mut out: Vec<Span> = Vec::new();
    out.push(piece("✗", Tone::Mark));
    out.push(piece(" ", Tone::Plain));
    out.push(piece(message, Tone::Alarm));
    assert(views(out@) =~= error_line(message@));
    out
}

/// What the user is asked before a tool runs; the answer is typed behind the
/// last line.
pub open spec fn question_lines(tool: Seq<char>, args_preview: Seq<char>) -> Seq<Seq<SpanV>> {
    seq![
        seq![span("?"@, Tone::Question), span(" [tool_call] "@ + tool, Tone::Plain)],
        seq![span("  args: "@ + take(args_preview, 200), Tone::Plain)],
        seq![
            span("?"@, Tone::Question),
            span(" 允许执行? [y]es / [n]o / [a]llow-all-"@ + tool + ": "@, Tone::Plain),
        ],
    ]
}

/// The lines of the question for permission.
pub fn show_permission_question(tool_name: &str, args_preview: &str) -> (r: Vec<Vec<Span>>)
    ensures
        view_lines(r@) == question_lines(tool_name@, args_preview@),
{
    let ghost all = question_lines(tool_name@, args_preview@);
    let preview = take_chars(args_preview, 200);
    let mut a: Vec<Span> = Vec::new();
    a.push(piece("?", Tone::Question));
    a.push(Span { text: join(" [tool_call] ", tool_name), tone: Tone::Plain });
    assert(views(a@) =~= all[0]);
    let mut b: Vec<Span> = Vec::new();
    b.push(Span { text: join("  args: ", preview.as_str()), tone: Tone::Plain });
    assert(views(b@) =~= all[1]);
    let mut c: Vec<Span> = Vec::new();
    c.push(piece("?", Tone::Question));
    c.push(
        Span {
            text: join3(" 允许执行? [y]es / [n]o / [a]llow-all-", tool_name, ": "),
            tone: Tone::Plain,
        },
    );
    assert(views(c@) =~= all[2]);
    let mut out: Vec<Vec<Span>> = Vec::new();
    out.push(a);
    out.push(b);
    out.push(c);
    assert(view_lines(out@) =~= all);
    out
}

/// The decision that a typed answer stands for: anything but a clear yes is a
/// no, and so is an answer that could not be read.
pub open spec fn typed_decision(answer: Option<Seq<char>>) -> Decision {
    match answer {
        None => Decision::Deny,
        Some(s) => {
            let t = trimmed(s);
            if t == "y"@ || t == "Y"@ || t == "yes"@ {
                Decision::Allow
            } else if t == "a"@ || t == "A"@ || t == "all"@ {
                Decision::AllowAll
            } else {
                Decision::Deny
            }
        },
    }
}

/// The decision that a typed answer stands for.
pub fn read_permission_answer(answer: Option<&str>) -> (r: Decision)
    ensures
        r == typed_decision(view_opt(answer)),
{
    match answer {
        None => Decision::Deny,
        Some(s) => {
            let t = trim(s);
            let t = t.as_str();
            if same(t, "y") || same(t, "Y") || same(t, "yes") {
                Decision::Allow
            } else if same(t, "a") || same(t, "A") || same(t, "all") {
                Decision::AllowAll
            } else {
                Decision::Deny
            }
        },
    }
}

pub ghost enum ShownV {
    Nothing,
    Stream(Seq<char>),
    NewLine,
    Lines(Seq<Seq<SpanV>>),
    Question(Seq<Seq<SpanV>>),
}

/// How an event is shown.
#[derive(Debug)]
pub enum Shown {
    Nothing,
    /// Behind what was shown last.
    Stream(String),
    NewLine,
    Lines(Vec<Vec<Span>>),
    /// Lines, behind the last of which an answer is typed.
    Question(Vec<Vec<Span>>),
}

impl View for Shown {
    type V = ShownV;

    open spec fn view(&self) -> ShownV {
        match self {
            Shown::Nothing => ShownV::Nothing,
            Shown::Stream(s) => ShownV::Stream(s@),
            Shown::NewLine => ShownV::NewLine,
            Shown::Lines(v) => ShownV::Lines(view_lines(v@)),
            Shown::Question(v) => ShownV::Question(view_lines(v@)),
        }
    }
}

/// How an event is shown; the reasoning of the model is not.
pub open spec fn rendered(e: SessionEventV) -> ShownV {
    match e {
        SessionEventV::StreamText(s) => ShownV::Stream(s),
        SessionEventV::ReasoningDelta(_) => ShownV::Nothing,
        SessionEventV::StreamEnd => ShownV::NewLine,
        SessionEventV::ToolStarted { name, args_preview } => ShownV::Lines(
            seq![tool_call_line(name, args_preview)],
        ),
        SessionEventV::ToolFinished { result, .. } => ShownV::Lines(tool_result_lines(result)),
        SessionEventV::PermissionRequest { name, args_preview } => ShownV::Question(
            question_lines(name, args_preview),
        ),
    }
}

/// How an event is shown.
pub fn render_event(e: SessionEvent) -> (r: Shown)
    ensures
        r@ == rendered(e@),
{
    match e {
        SessionEvent::StreamText(s) => Shown::Stream(s),
        SessionEvent::ReasoningDelta(_) => Shown::Nothing,
        SessionEvent::StreamEnd => Shown::NewLine,
        SessionEvent::ToolStarted { name, args_preview } => {
            let mut v: Vec<Vec<Span>> = Vec::new();
            v.push(show_tool_call(name.as_str(), args_preview.as_str()));
            assert(view_lines(v@) =~= seq![tool_call_line(name@, args_preview@)]);
            Shown::Lines(v)
        },
        SessionEvent::ToolFinished { result, .. } => Shown::Lines(
            show_tool_result(result.as_str()),
        ),
        SessionEvent::PermissionRequest { name, args_preview } => Shown::Question(
            show_permission_question(name.as_str(), args_preview.as_str()),
        ),
    }
}

/// What is shown once a turn has ended: the message of one that failed.
pub fn turn_report(outcome: Option<TurnOutcome>) -> (r: Option<String>)
    ensures
        view_opt(r) == (match outcome {
            Some(TurnOutcome::Failed(e)) => Some(e@),
            _ => None,
        }),
{
    match outcome {
        Some(TurnOutcome::Failed(e)) => Some(e),
        _ => None,
    }
}

// ---------------------------------------------------------------------------
// What holds of what is shown
// ---------------------------------------------------------------------------
/// A text of the model is shown as it comes, its end as a new line, and its
/// reasoning not at all.
pub proof fn law_texts_are_shown_as_they_come(s: Seq<char>)
    ensures
        rendered(SessionEventV::StreamText(s)) == ShownV::Stream(s),
        rendered(SessionEventV::StreamEnd) == ShownV::NewLine,
        rendered(SessionEventV::ReasoningDelta(s)) == ShownV::Nothing,
{
}

/// A tool call is shown by the name of the tool and the first 160 characters of
/// its arguments, in one line.
pub proof fn law_tool_calls_are_shown(name: Seq<char>, args_preview: Seq<char>)
    ensures
        rendered(SessionEventV::ToolStarted { name, args_preview }) matches ShownV::Lines(all)
            && all.len() == 1 && all[0].len() == 4 && {
            &&& all[0][0] == (SpanV { text: "⚙"@, tone: Tone::Notice })
            &&& all[0][1] == (SpanV { text: " ["@, tone: Tone::Plain })
            &&& all[0][2] == (SpanV { text: name, tone: Tone::Notice })
            &&& all[0][3].tone == Tone::Plain
            &&& args_preview.len() <= 160 ==> all[0][3].text == "]  args: "@ + args_preview
            &&& args_preview.len() > 160 ==> all[0][3].text == "]  args: "@
                + args_preview.subrange(0, 160)
        },
{
}

/// Of the result of a tool call the first ten lines are shown, and how many more
/// there are, where there are more.
pub proof fn law_ten_lines_of_results_are_shown(name: Seq<char>, result: Seq<char>, i: int)
    ensures
        rendered(SessionEventV::ToolFinished { name, result }) matches ShownV::Lines(all) && {
            let n = lines(result).len();
            &&& n <= 10 ==> all.len() == n
            &&& n > 10 ==> all.len() == 11 && all[10].len() == 2 && all[10][0].text == "  "@
                && all[10][1].text == "... ("@ + decimal((n - 10) as nat) + " more lines)"@
                && all[10][1].tone == Tone::Faint
            &&& 0 <= i < n && i < 10 ==> all[i].len() == 2 && all[i][0] == (SpanV {
                text: "  "@,
                tone: Tone::Plain,
            }) && all[i][1] == (SpanV { text: lines(result)[i], tone: Tone::Faint })
        },
{
}

/// A question shows the tool, the first 200 characters of the arguments, and what
/// can be answered.
pub proof fn law_questions_are_shown(name: Seq<char>, args_preview: Seq<char>)
    ensures
        rendered(SessionEventV::PermissionRequest { name, args_preview }) matches ShownV::Question(
            all,
        ) && all.len() == 3 && {
            &&& all[0] == seq![
                SpanV { text: "?"@, tone: Tone::Question },
                SpanV { text: " [tool_call] "@ + name, tone: Tone::Plain },
            ]
            &&& all[1].len() == 1 && all[1][0].tone == Tone::Plain
            &&& args_preview.len() <= 200 ==> all[1][0].text == "  args: "@ + args_preview
            &&& args_preview.len() > 200 ==> all[1][0].text == "  args: "@ + args_preview.subrange(
                0,
                200,
            )
            &&& all[2] == seq![
                SpanV { text: "?"@, tone: Tone::Question },
                SpanV {
                    text: " 允许执行? [y]es / [n]o / [a]llow-all-"@ + name + ": "@,
                    tone: Tone::Plain,
                },
            ]
        },
{
}

/// The answer `y`, `Y` or `yes` allows, and `a`, `A` or `all` allows from then on,
/// with any white space around; anything else, and no answer, refuses.
pub proof fn law_answers_are_understood(s: Seq<char>)
    ensures
        typed_decision(None) == Decision::Deny,
        typed_decision(Some(s)) == Decision::Allow <==> (trimmed(s) == "y"@ || trimmed(s) == "Y"@
            || trimmed(s) == "yes"@),
        typed_decision(Some(s)) == Decision::AllowAll <==> (trimmed(s) == "a"@ || trimmed(s)
            == "A"@ || trimmed(s) == "all"@),
        typed_decision(Some(s)) == Decision::Deny <==> !(trimmed(s) == "y"@ || trimmed(s) == "Y"@
            || trimmed(s) == "yes"@ || trimmed(s) == "a"@ || trimmed(s) == "A"@ || trimmed(s)
            == "all"@),
{
    reveal_strlit("y");
    reveal_strlit("Y");
    reveal_strlit("yes");
    reveal_strlit("a");
    reveal_strlit("A");
    reveal_strlit("all");
    assert("y"@[0] == 'y' && "Y"@[0] == 'Y' && "yes"@[0] == 'y');
    assert("a"@[0] == 'a' && "A"@[0] == 'A' && "all"@[0] == 'a');
}

/// The banner shows the version, the model and the first eight characters of the
/// identifier of the session, and how to get help; an error is shown in full.
pub proof fn law_banner_and_errors_are_shown(
    version: Seq<char>,
    model: Seq<char>,
    session_id: Seq<char>,
    message: Seq<char>,
)
    ensures
        ({
            let all = banner_lines(version, model, session_id);
            &&& all.len() == 2 && all[0].len() == 2
            &&& all[0][0] == (SpanV { text: "edoCRS"@, tone: Tone::Title })
            &&& session_id.len() >= 8 ==> all[0][1].text == " v"@ + version + "  ·  model: "@
                + model + "  ·  session: "@ + session_id.subrange(0, 8)
            &&& all[1] == seq![
                SpanV { text: "输入 /help 看命令, Ctrl+D 退出."@, tone: Tone::Plain },
            ]
        }),
        error_line(message) == seq![
            SpanV { text: "✗"@, tone: Tone::Mark },
            SpanV { text: " "@, tone: Tone::Plain },
            SpanV { text: message, tone: Tone::Alarm },
        ],
{
    assert(session_id.len() == 8 ==> session_id.subrange(0, 8) =~= session_id);
}

} // verus!
