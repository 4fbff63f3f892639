//! Messages flashed to a user on their next page view.
//!
//! The pending messages live in the user's session; these types hold them
//! and say how they are added and taken out.

use crate::text::append_str;
use crate::text::string_from_chars;
use vstd::prelude::*;

verus! {

/// Message significance. Dictates the CSS classes used to render the alert.
#[derive(Debug, Clone, Copy, PartialEq, Eq, Structural)]
pub enum FlashedMessageLevel {
    Info,
    Success,
    Error,
}

/// The name of a level, as templates use it.
pub open spec fn level_name(level: FlashedMessageLevel) -> Seq<char> {
    match level {
        FlashedMessageLevel::Info => "info"@,
        FlashedMessageLevel::Success => "success"@,
        FlashedMessageLevel::Error => "error"@,
    }
}

/// The CSS classes of an alert of the given level.
pub open spec fn alert_class(level: FlashedMessageLevel) -> Seq<char> {
    "alert alert-"@ + level_name(level)
}

impl FlashedMessageLevel {
    /// String representation, suitable for use in templates.
    pub fn as_str(&self) -> (s: &'static str)
        ensures
            s@ == level_name(*self),
    {
        match self {
            FlashedMessageLevel::Info => "info",
            FlashedMessageLevel::Success => "success",
            FlashedMessageLevel::Error => "error",
        }
    }
}

/// The CSS classes of an alert of the given level.
fn alert_class_string(level: FlashedMessageLevel) -> (s: String)
    ensures
        s@ == alert_class(level),
{
    let mut v: Vec<char> = Vec::new();
    append_str(&mut v, "alert alert-");
    append_str(&mut v, level.as_str());
    string_from_chars(&v)
}

/// A single message to show to the user.
#[derive(Debug)]
pub struct FlashedMessage {
    pub level: FlashedMessageLevel,
    pub message: String,
    pub class: String,
}

impl FlashedMessage {
    /// Create a new message to be shown to the user.
    pub fn new(level: FlashedMessageLevel, message: &str) -> (m: Self)
        ensures
            m.level == level,
            m.message@ == message@,
            m.class@ == alert_class(level),
    {
        let class = alert_class_string(level);
        FlashedMessage { level, message: message.to_owned(), class }
    }

    /// Get the CSS classes for the level for use in templates.
    pub fn class(self) -> (s: String)
        ensures
            s@ == alert_class(self.level),
    {
        alert_class_string(self.level)
    }
}

/// Stored in the session. Contains pending flashed messages, if any.
#[derive(Debug)]
pub struct FlashedMessages(pub Vec<FlashedMessage>);

/// A pending message as the session shows it: its level, its text and its
/// CSS classes.
pub type MessageView = (FlashedMessageLevel, Seq<char>, Seq<char>);

/// The level, text and classes of each message, in order.
pub open spec fn message_contents(messages: Seq<FlashedMessage>) -> Seq<MessageView> {
    messages.map_values(|m: FlashedMessage| (m.level, m.message@, m.class@))
}

/// Every message carries the classes of its own level.
pub open spec fn classes_match(messages: Seq<MessageView>) -> bool {
    forall|i: int| 0 <= i < messages.len() ==> (#[trigger] messages[i]).2 == alert_class(messages[i].0)
}

impl View for FlashedMessages {
    type V = Seq<MessageView>;

    open spec fn view(&self) -> Seq<MessageView> {
        message_contents(self.0@)
    }
}

impl FlashedMessages {
    /// No pending messages.
    pub fn new() -> (r: Self)
        ensures
            r@ == Seq::<MessageView>::empty(),
    {
        let r = FlashedMessages(Vec::new());
        assert(r@ =~= Seq::<MessageView>::empty());
        r
    }

    /// Push a message to be flashed to the user; earlier messages stay ahead
    /// of it.
    pub fn push(&mut self, level: FlashedMessageLevel, message: &str)
        ensures
            final(self)@ == old(self)@.push((level, message@, alert_class(level))),
    {
        let m = FlashedMessage::new(level, message);
        self.0.push(m);
        assert(self@ =~= old(self)@.push((level, message@, alert_class(level))));
    }

    /// Collect the pending messages, in the order they were pushed, and
    /// leave none behind.
    pub fn drain(&mut self) -> (taken: Vec<FlashedMessage>)
        ensures
            message_contents(taken@) == old(self)@,
            final(self)@ == Seq::<MessageView>::empty(),
    {
        let mut taken: Vec<FlashedMessage> = Vec::new();
        std::mem::swap(&mut taken, &mut self.0);
        assert(self@ =~= Seq::<MessageView>::empty());
        taken
    }
}

/// Messages added only by `push` each carry the classes of their level:
/// pushing keeps that so.
pub proof fn lemma_push_keeps_classes(
    before: Seq<MessageView>,
    level: FlashedMessageLevel,
    message: Seq<char>,
)
    requires
        classes_match(before),
    ensures
        classes_match(before.push((level, message, alert_class(level)))),
{
    let after = before.push((level, message, alert_class(level)));
    assert forall|i: int| 0 <= i < after.len() implies (#[trigger] after[i]).2 == alert_class(
        after[i].0,
    ) by {
        if i < before.len() {
            assert(after[i] == before[i]);
        }
    }
}

/// Pushing a message and then draining hands back every pending message
/// followed by the new one, with its level's classes, and leaves nothing
/// pending.
pub proof fn lemma_drain_returns_pushed(
    before: Seq<MessageView>,
    level: FlashedMessageLevel,
    message: Seq<char>,
    after_push: Seq<MessageView>,
    drained: Seq<MessageView>,
    after_drain: Seq<MessageView>,
)
    requires
        after_push == before.push((level, message, alert_class(level))),
        drained == after_push,
        after_drain == Seq::<MessageView>::empty(),
    ensures
        drained.len() == before.len() + 1,
        drained.last() == (level, message, alert_class(level)),
        drained.take(before.len() as int) == before,
        after_drain.len() == 0,
{
    assert(drained.take(before.len() as int) =~= before);
}

} // verus!
