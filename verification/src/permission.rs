//! Permission: which tools may run without asking, and what the answers mean.
use crate::text::{same, take, take_chars};
use vstd::prelude::*;

verus! {

/// What the user says to a request.
#[derive(Copy, Clone, Debug, PartialEq, Eq, Structural)]
pub enum Decision {
    /// This once.
    Allow,
    /// This time, and every later time for the same tool.
    AllowAll,
    Deny,
}

#[verifier::ext_equal]
pub ghost struct GateV {
    /// The tools that may always run.
    pub allowed: Set<Seq<char>>,
    /// Every tool may run.
    pub yolo: bool,
    /// Answers that were given beforehand, the next one first.
    pub answers: Seq<Decision>,
}

/// Decides which tools may run.
pub struct PermissionGate {
    always_allow: Vec<String>,
    yolo: bool,
    test_answers: Vec<Decision>,
}

/// What is known without asking the user, or what to ask.
#[derive(Debug)]
pub enum Check {
    Settled(Decision),
    /// Ask the user; the preview is the beginning of the arguments.
    Ask { name: String, args_preview: String },
}

pub ghost enum CheckV {
    Settled(Decision),
    Ask { name: Seq<char>, args_preview: Seq<char> },
}

impl View for Check {
    type V = CheckV;

    open spec fn view(&self) -> CheckV {
        match self {
            Check::Settled(d) => CheckV::Settled(*d),
            Check::Ask { name, args_preview } => CheckV::Ask {
                name: name@,
                args_preview: args_preview@,
            },
        }
    }
}

impl View for PermissionGate {
    type V = GateV;

    closed spec fn view(&self) -> GateV {
        GateV {
            allowed: Set::new(
                |s: Seq<char>|
                    exists|i: int|
                        0 <= i < self.always_allow@.len() && (#[trigger] self.always_allow@[i])@
                            == s,
            ),
            yolo: self.yolo,
            answers: self.test_answers@,
        }
    }
}

/// The permissions once a decision for a tool is known: one that holds for every later
/// time is remembered.
pub open spec fn decided(g: GateV, tool: Seq<char>, d: Decision) -> GateV {
    if d == Decision::AllowAll {
        GateV { allowed: g.allowed.insert(tool), ..g }
    } else {
        g
    }
}

/// What is known of a tool without asking.
pub open spec fn settled(g: GateV, tool: Seq<char>) -> Option<Decision> {
    if g.yolo || g.allowed.contains(tool) {
        Some(Decision::Allow)
    } else if g.answers.len() > 0 {
        Some(g.answers[0])
    } else {
        None
    }
}

/// The permissions after a tool has been looked up: an answer that was given
/// beforehand is used up.
pub open spec fn looked_up(g: GateV, tool: Seq<char>) -> GateV {
    if g.yolo || g.allowed.contains(tool) || g.answers.len() == 0 {
        g
    } else {
        decided(
            GateV { answers: g.answers.subrange(1, g.answers.len() as int), ..g },
            tool,
            g.answers[0],
        )
    }
}

/// What looking a tool up gives.
pub open spec fn checked(g: GateV, tool: Seq<char>, args: Seq<char>) -> CheckV {
    match settled(g, tool) {
        Some(d) => CheckV::Settled(d),
        None => CheckV::Ask { name: tool, args_preview: take(args, 200) },
    }
}

/// The decision that an answer stands for: no answer is a refusal.
pub open spec fn decision_of(reply: Option<Decision>) -> Decision {
    match reply {
        Some(d) => d,
        None => Decision::Deny,
    }
}

impl PermissionGate {
    /// Permissions that have not been asked for anything; with `yolo` every tool may
    /// run.
    pub fn new(yolo: bool) -> (r: PermissionGate)
        ensures
            r@ == (GateV { allowed: Set::empty(), yolo, answers: seq![] }),
    {
        let r = PermissionGate { always_allow: Vec::new(), yolo, test_answers: Vec::new() };
        assert(r@ =~= (GateV { allowed: Set::empty(), yolo, answers: seq![] }));
        r
    }

    /// Permissions with the answers given beforehand.
    pub fn with_test_answers(answers: Vec<Decision>) -> (r: PermissionGate)
        ensures
            r@ == (GateV { allowed: Set::empty(), yolo: false, answers: answers@ }),
    {
        let r = PermissionGate { always_allow: Vec::new(), yolo: false, test_answers: answers };
        assert(r@ =~= (GateV { allowed: Set::empty(), yolo: false, answers: answers@ }));
        r
    }

    fn allows(&self, tool_name: &str) -> (r: bool)
        ensures
            r == self@.allowed.contains(tool_name@),
    {
        let mut i: usize = 0;
        while i < self.always_allow.len()
            invariant
                i <= self.always_allow@.len(),
                forall|j: int| 0 <= j < i ==> (#[trigger] self.always_allow@[j])@ != tool_name@,
            decreases self.always_allow@.len() - i,
        {
            if same(self.always_allow[i].as_str(), tool_name) {
                return true;
            }
            i = i + 1;
        }
        false
    }

    fn decide(&mut self, tool_name: &str, d: Decision)
        ensures
            final(self)@ == decided(old(self)@, tool_name@, d),
    {
        if d == Decision::AllowAll {
            let ghost before = *self;
            self.always_allow.push(tool_name.to_owned());
            proof {
                let n = before.always_allow@.len() as int;
                assert(self.always_allow@[n]@ == tool_name@);
                assert forall|s: Seq<char>| #[trigger]
                    self@.allowed.contains(s) == before@.allowed.insert(tool_name@).contains(
                        s,
                    ) by {
                    if before@.allowed.contains(s) {
                        let i = choose|i: int|
                            0 <= i < n && (#[trigger] before.always_allow@[i])@ == s;
                        assert(self.always_allow@[i]@ == s);
                    }
                    if self@.allowed.contains(s) && s != tool_name@ {
                        let i = choose|i: int|
                            0 <= i < self.always_allow@.len() && (
                            #[trigger] self.always_allow@[i])@ == s;
                        assert(before.always_allow@[i]@ == s);
                    }
                }
                assert(self@ =~= decided(before@, tool_name@, d));
            }
        }
    }

    /// Looks up whether a tool may run.
    pub fn check(&mut self, tool_name: &str, arguments: &str) -> (r: Check)
        ensures
            r@ == checked(old(self)@, tool_name@, arguments@),
            final(self)@ == looked_up(old(self)@, tool_name@),
    {
        if self.yolo || self.allows(tool_name) {
            return Check::Settled(Decision::Allow);
        }
        if self.test_answers.len() > 0 {
            let ghost before = self@;
            let d = self.test_answers.remove(0);
            assert(self@.answers =~= before.answers.subrange(1, before.answers.len() as int));
            assert(self@ =~= (GateV {
                answers: before.answers.subrange(1, before.answers.len() as int),
                ..before
            }));
            self.decide(tool_name, d);
            Check::Settled(d)
        } else {
            Check::Ask {
                name: tool_name.to_owned(),
                args_preview: take_chars(arguments, 200),
            }
        }
    }

    /// Takes what the user said, where there was an answer at all.
    pub fn answer(&mut self, tool_name: &str, reply: Option<Decision>) -> (r: Decision)
        ensures
            r == decision_of(reply),
            final(self)@ == decided(old(self)@, tool_name@, decision_of(reply)),
    {
        let d = match reply {
            Some(d) => d,
            None => Decision::Deny,
        };
        self.decide(tool_name, d);
        d
    }
}

/// Where every tool may run nobody is asked, and nothing changes.
pub proof fn law_yolo_always_allows(g: GateV, tool: Seq<char>)
    requires
        g.yolo,
    ensures
        settled(g, tool) == Some(Decision::Allow),
        looked_up(g, tool) == g,
{
}

/// Once a tool is allowed for every later time it runs without asking,
/// whatever is decided for other tools in between.
pub proof fn law_allow_all_is_remembered(
    g: GateV,
    tool: Seq<char>,
    other: Seq<char>,
    d: Decision,
)
    ensures
        settled(decided(g, tool, Decision::AllowAll), tool) == Some(Decision::Allow),
        settled(decided(decided(g, tool, Decision::AllowAll), other, d), tool) == Some(
            Decision::Allow,
        ),
        looked_up(decided(g, tool, Decision::AllowAll), tool) == decided(
            g,
            tool,
            Decision::AllowAll,
        ),
{
}

/// What is decided for one tool does not matter for another.
pub proof fn law_decisions_do_not_leak(
    g: GateV,
    tool: Seq<char>,
    other: Seq<char>,
    d: Decision,
)
    requires
        tool != other,
    ensures
        settled(decided(g, tool, d), other) == settled(g, other),
{
}

/// A permission for once, and a refusal, are not remembered.
pub proof fn law_single_decisions_are_not_remembered(g: GateV, tool: Seq<char>, d: Decision)
    requires
        d != Decision::AllowAll,
    ensures
        decided(g, tool, d) == g,
{
}

/// A call is settled where every tool or this one is allowed, or by the next of
/// the answers that were given beforehand, which is then used up; else the user is
/// asked, and shown the tool and the first 200 characters of the arguments.
pub proof fn law_calls_are_settled_or_asked(g: GateV, tool: Seq<char>, args: Seq<char>)
    ensures
        g.yolo || g.allowed.contains(tool) ==> checked(g, tool, args) == CheckV::Settled(
            Decision::Allow,
        ) && looked_up(g, tool) == g,
        !g.yolo && !g.allowed.contains(tool) && g.answers.len() > 0 ==> {
            &&& checked(g, tool, args) == CheckV::Settled(g.answers[0])
            &&& looked_up(g, tool).answers == g.answers.drop_first()
            &&& looked_up(g, tool).yolo == g.yolo
            &&& looked_up(g, tool).allowed == (if g.answers[0] == Decision::AllowAll {
                g.allowed.insert(tool)
            } else {
                g.allowed
            })
        },
        !g.yolo && !g.allowed.contains(tool) && g.answers.len() == 0 ==> {
            &&& looked_up(g, tool) == g
            &&& checked(g, tool, args) matches CheckV::Ask { name, args_preview } && name == tool
                && args_preview.is_prefix_of(args) && args_preview.len() == (if args.len() < 200 {
                args.len()
            } else {
                200
            })
        },
{
}

/// What the user says stands; no answer is a refusal.
pub proof fn law_no_answer_is_a_refusal(d: Decision)
    ensures
        decision_of(Some(d)) == d,
        decision_of(None) == Decision::Deny,
{
}

} // verus!
