//! Message categories, the prompt handed to the classifier and the fail-open
//! reading of its answer.
use crate::state::ChatMessage;
use crate::text::{decimal, decimal_text};
use vstd::prelude::*;

verus! {

/// The categories the classifier may assign to a message.
#[derive(Clone, Copy, PartialEq, Eq, Structural, Debug)]
pub enum MsgType {
    Scam,
    Phishing,
    NotSuitableForWork,
    UnsolicitedPromotion,
    OtherSpam,
    NotSpam,
}

/// The classifier's verdict on one message.
#[derive(Clone, Copy, PartialEq, Eq, Structural, Debug)]
pub struct SpamCheckResult {
    pub msg_type: MsgType,
}

/// What came back from one classifier call.
#[derive(Clone, Copy, PartialEq, Eq, Structural, Debug)]
pub enum ClassifierOutcome {
    /// The answer was read as a verdict.
    Answered(SpamCheckResult),
    /// An answer came, but it could not be read as a verdict.
    Unreadable,
    /// The call itself failed.
    Failed,
}

/// The name a category is shown under.
pub open spec fn category_name(t: MsgType) -> Seq<char> {
    match t {
        MsgType::Scam => "Scam"@,
        MsgType::Phishing => "Phishing"@,
        MsgType::NotSuitableForWork => "NotSuitableForWork"@,
        MsgType::UnsolicitedPromotion => "UnsolicitedPromotion"@,
        MsgType::OtherSpam => "OtherSpam"@,
        MsgType::NotSpam => "NotSpam"@,
    }
}

impl MsgType {
    /// The name the category is shown under.
    pub fn name(&self) -> (r: &'static str)
        ensures
            r@ == category_name(*self),
    {
        match self {
            MsgType::Scam => "Scam",
            MsgType::Phishing => "Phishing",
            MsgType::NotSuitableForWork => "NotSuitableForWork",
            MsgType::UnsolicitedPromotion => "UnsolicitedPromotion",
            MsgType::OtherSpam => "OtherSpam",
            MsgType::NotSpam => "NotSpam",
        }
    }
}

/// The category a classifier outcome stands for: a failed or unreadable
/// answer counts as not spam.
pub open spec fn category_spec(o: ClassifierOutcome) -> MsgType {
    match o {
        ClassifierOutcome::Answered(res) => res.msg_type,
        _ => MsgType::NotSpam,
    }
}

pub fn category_of(outcome: ClassifierOutcome) -> (r: MsgType)
    ensures
        r == category_spec(outcome),
{
    match outcome {
        ClassifierOutcome::Answered(res) => res.msg_type,
        _ => MsgType::NotSpam,
    }
}

/// Whether a message of this category is to be moderated.
pub fn needs_moderation(t: MsgType) -> (r: bool)
    ensures
        r == (t != MsgType::NotSpam),
{
    t != MsgType::NotSpam
}

/// How the sender of a message is named in the prompt.
pub open spec fn label_of(m: ChatMessage) -> Seq<char> {
    match m.sender {
        Some(u) => "User"@ + decimal(u.id as nat),
        None => "Unknown sender"@,
    }
}

/// A message's text, empty where it has none.
pub open spec fn text_or_empty(m: ChatMessage) -> Seq<char> {
    match m.text {
        Some(t) => t@,
        None => Seq::empty(),
    }
}

/// One line per context message that has text, each after a line break.
pub open spec fn history_lines(ctx: Seq<ChatMessage>) -> Seq<char>
    decreases ctx.len(),
{
    if ctx.len() == 0 {
        Seq::empty()
    } else {
        history_lines(ctx.drop_last()) + match ctx.last().text {
            Some(t) => "\n- "@ + label_of(ctx.last()) + ": "@ + t@,
            None => Seq::empty(),
        }
    }
}

/// The prompt for a message: its text alone without context; otherwise the
/// context lines under a heading, then the message with its sender.
pub open spec fn prompt_of(m: ChatMessage, ctx: Seq<ChatMessage>) -> Seq<char> {
    if ctx.len() == 0 {
        text_or_empty(m)
    } else {
        "History:"@ + history_lines(ctx) + "\n\nAnalyze:\n"@ + label_of(m) + ": "@ + text_or_empty(m)
    }
}

/// How the sender of a message is named in the prompt.
pub fn get_sender_id(message: &ChatMessage) -> (r: String)
    ensures
        r@ == label_of(*message),
{
    match &message.sender {
        Some(u) => {
            let mut s = String::from_str("User");
            let digits = decimal_text(u.id);
            s.append(digits.as_str());
            s
        },
        None => String::from_str("Unknown sender"),
    }
}

fn text_of(message: &ChatMessage) -> (r: &str)
    ensures
        r@ == text_or_empty(*message),
{
    match &message.text {
        Some(t) => t.as_str(),
        None => {
            proof {
                reveal_strlit("");
            }
            ""
        },
    }
}

/// The prompt handed to the classifier for `message`, given the chat's
/// recent messages, oldest first.
pub fn build_prompt(message: &ChatMessage, context: &Vec<ChatMessage>) -> (r: String)
    ensures
        r@ == prompt_of(*message, context@),
{
    if context.len() == 0 {
        return String::from_str(text_of(message));
    }
    let mut p = String::from_str("History:");
    let mut i: usize = 0;
    while i < context.len()
        invariant
            i <= context@.len(),
            p@ == "History:"@ + history_lines(context@.subrange(0, i as int)),
        decreases context@.len() - i,
    {
        let m = &context[i];
        assert(context@.subrange(0, i + 1).drop_last() =~= context@.subrange(0, i as int));
        if let Some(t) = &m.text {
            p.append("\n- ");
            let label = get_sender_id(m);
            p.append(label.as_str());
            p.append(": ");
            p.append(t.as_str());
            assert(p@ =~= "History:"@ + history_lines(context@.subrange(0, i + 1)));
        } else {
            assert(p@ =~= "History:"@ + history_lines(context@.subrange(0, i + 1)));
        }
        i += 1;
    }
    assert(context@.subrange(0, context@.len() as int) =~= context@);
    p.append("\n\nAnalyze:\n");
    let label = get_sender_id(message);
    p.append(label.as_str());
    p.append(": ");
    p.append(text_of(message));
    p
}

} // verus!
