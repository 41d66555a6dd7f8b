//! What the daemon reads of Slack events and messages, and what it writes into them,
//! as plain values.

use crate::text::opt_text;
use vstd::prelude::*;

verus! {

// --- events ---

/// What a message event is, where it is not an ordinary message.
pub enum Subtype {
    BotMessage,
    ThreadBroadcast,
    FileShare,
    MeMessage,
    /// An edit, a deletion, or a message of the system.
    Other,
}

/// A message event.
pub struct MessageEvent {
    pub subtype: Option<Subtype>,
    pub hidden: Option<bool>,
    pub user: Option<String>,
    pub bot_id: Option<String>,
    pub username: Option<String>,
    pub channel: Option<String>,
    pub channel_type: Option<String>,
    pub ts: String,
    pub thread_ts: Option<String>,
    pub text: Option<String>,
}

/// What a reaction stands on.
pub enum ReactionItem {
    Message { channel: Option<String>, ts: String },
    File,
}

/// A reaction that was added or removed.
pub struct ReactionEvent {
    /// `reaction_added` or `reaction_removed`.
    pub event: String,
    pub user: String,
    pub reaction: String,
    /// Whose item it is.
    pub item_user: Option<String>,
    pub item: ReactionItem,
    pub event_ts: String,
}

/// An event that Slack pushes.
pub enum PushEvent {
    Message(MessageEvent),
    Reaction(ReactionEvent),
    Other,
}

/// A button that was clicked.
pub struct Click {
    pub action_id: String,
    pub value: Option<String>,
}

/// Clicks on a message with buttons.
pub struct BlockActions {
    /// The first button that was clicked.
    pub clicked: Option<Click>,
    /// The channel of the message that holds the buttons.
    pub channel: Option<String>,
    /// The timestamp of the message that holds the buttons, where a message holds them.
    pub message_ts: Option<String>,
    /// The message itself.
    pub message: Option<Content>,
}

/// An interaction of the human.
pub enum Interaction {
    BlockActions(BlockActions),
    Other,
}

// --- message contents ---

/// A second question before an irreversible step.
pub struct Dialog {
    pub title: String,
    pub text: String,
    pub confirm: String,
    pub deny: String,
}

/// A button.
pub struct Button {
    pub action_id: String,
    pub label: String,
    pub value: Option<String>,
    pub style: Option<String>,
    pub confirm: Option<Dialog>,
}

/// An element of an actions block.
pub enum Element {
    Button(Button),
    Other,
}

/// What a block is.
pub enum BlockKind {
    /// A section, with its text.
    Section(Option<String>),
    /// A context line.
    Context(String),
    /// Interactive elements.
    Actions(Vec<Element>),
    Other,
}

/// A block of a message.
pub struct Block {
    pub kind: BlockKind,
    /// For a block of a message that was received, the position at which the whole
    /// block is found there.
    pub source: Option<usize>,
}

/// The contents of a message.
pub struct Content {
    pub text: Option<String>,
    pub blocks: Option<Vec<Block>>,
}

/// A message as Slack's history gives it.
pub struct HistoryMessage {
    pub ts: String,
    pub user: Option<String>,
    pub bot_id: Option<String>,
    pub content: Content,
}

/// What a dialog says.
pub struct DialogView {
    pub title: Seq<char>,
    pub text: Seq<char>,
    pub confirm: Seq<char>,
    pub deny: Seq<char>,
}

/// What a button is.
pub struct ButtonView {
    pub action_id: Seq<char>,
    pub label: Seq<char>,
    pub value: Option<Seq<char>>,
    pub style: Option<Seq<char>>,
    pub confirm: Option<DialogView>,
}

/// What an element is.
pub enum ElementView {
    Button(ButtonView),
    Other,
}

/// What a block is.
pub enum BlockKindView {
    Section(Option<Seq<char>>),
    Context(Seq<char>),
    Actions(Seq<ElementView>),
    Other,
}

/// What a block is, and where it was found.
pub struct BlockView {
    pub kind: BlockKindView,
    pub source: Option<usize>,
}

/// What a message says.
pub struct ContentView {
    pub text: Option<Seq<char>>,
    pub blocks: Option<Seq<BlockView>>,
}

impl Dialog {
    /// What the dialog says.
    pub open spec fn view(self) -> DialogView {
        DialogView {
            title: self.title@,
            text: self.text@,
            confirm: self.confirm@,
            deny: self.deny@,
        }
    }
}

impl Button {
    /// What the button is.
    pub open spec fn view(self) -> ButtonView {
        ButtonView {
            action_id: self.action_id@,
            label: self.label@,
            value: opt_text(self.value),
            style: opt_text(self.style),
            confirm: match self.confirm {
                Some(d) => Some(d@),
                None => None,
            },
        }
    }
}

impl Element {
    /// What the element is.
    pub open spec fn view(self) -> ElementView {
        match self {
            Element::Button(b) => ElementView::Button(b@),
            Element::Other => ElementView::Other,
        }
    }
}

/// What each element of a list is.
pub open spec fn elements_view(v: Seq<Element>) -> Seq<ElementView> {
    v.map_values(|e: Element| e@)
}

impl BlockKind {
    /// What the block is.
    pub open spec fn view(self) -> BlockKindView {
        match self {
            BlockKind::Section(text) => BlockKindView::Section(opt_text(text)),
            BlockKind::Context(text) => BlockKindView::Context(text@),
            BlockKind::Actions(elements) => BlockKindView::Actions(elements_view(elements@)),
            BlockKind::Other => BlockKindView::Other,
        }
    }
}

impl Block {
    /// What the block is, and where it was found.
    pub open spec fn view(self) -> BlockView {
        BlockView { kind: self.kind@, source: self.source }
    }
}

/// What each block of a list is.
pub open spec fn blocks_view(v: Seq<Block>) -> Seq<BlockView> {
    v.map_values(|b: Block| b@)
}

/// What each block of an optional list is.
pub open spec fn opt_blocks(o: Option<Vec<Block>>) -> Option<Seq<BlockView>> {
    match o {
        Some(v) => Some(blocks_view(v@)),
        None => None,
    }
}

impl Content {
    /// What the message says.
    pub open spec fn view(self) -> ContentView {
        ContentView { text: opt_text(self.text), blocks: opt_blocks(self.blocks) }
    }
}

} // verus!
