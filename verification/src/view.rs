use vstd::prelude::*;

verus! {

/// One line of user-facing output.  The engine reports diagnostics with
/// these values; how they are rendered is left to the caller.
#[derive(Debug)]
pub enum View {
    /// The run starts, with one descriptive line per configured option.
    RunningExport(Vec<String>),
    /// A matching topic was found; no frame has been exported from it yet.
    FoundTopic(String),
    /// How many frames have been exported from a topic so far.
    ExtractedFromTopic(String, u32),
    /// A topic matched a selector but carries another message type:
    /// the topic, its actual type, and the expected type.
    IncompatibleTopicType(String, String, String),
    /// A selector matched no topic with messages; the flag tells whether
    /// the selector was matched as a regular expression.
    NoMessages(String, bool),
    /// The run failed; carries the rendered error.
    Error(String),
    /// The run finished.
    Done,
}

} // verus!
