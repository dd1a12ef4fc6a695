//! The structured chat-message data model: roles, typed content items, and
//! the message itself, with their spec-level views.
use vstd::prelude::*;

verus! {

/// The role a chat message is attributed to.
#[derive(Clone, Copy, Debug, PartialEq, Eq, Structural)]
pub enum Role {
    User,
    Assistant,
    System,
    Tool,
    Unknown,
}

/// A tool invocation: its name and its flattened key/value argument pairs.
#[derive(Debug, Clone)]
pub struct ToolInput {
    pub name: String,
    pub arguments: Vec<(String, String)>,
}

/// One typed content item of a message.
#[derive(Debug, Clone)]
pub enum ContentItem {
    Text(String),
    ToolInput(ToolInput),
}

/// A structured chat message.
#[derive(Debug, Clone)]
pub struct Message {
    pub role: Role,
    pub content: Vec<ContentItem>,
    pub final_: bool,
}

/// Spec view of an argument list.
pub open spec fn args_view(args: Seq<(String, String)>) -> Seq<(Seq<char>, Seq<char>)> {
    args.map_values(|p: (String, String)| (p.0@, p.1@))
}

pub struct ToolInputView {
    pub name: Seq<char>,
    pub arguments: Seq<(Seq<char>, Seq<char>)>,
}

impl View for ToolInput {
    type V = ToolInputView;

    open spec fn view(&self) -> ToolInputView {
        ToolInputView { name: self.name@, arguments: args_view(self.arguments@) }
    }
}

pub enum ContentItemView {
    Text(Seq<char>),
    Tool(ToolInputView),
}

impl View for ContentItem {
    type V = ContentItemView;

    open spec fn view(&self) -> ContentItemView {
        match self {
            ContentItem::Text(s) => ContentItemView::Text(s@),
            ContentItem::ToolInput(t) => ContentItemView::Tool(t@),
        }
    }
}

pub struct MessageView {
    pub role: Role,
    pub content: Seq<ContentItemView>,
    pub final_: bool,
}

impl View for Message {
    type V = MessageView;

    open spec fn view(&self) -> MessageView {
        MessageView {
            role: self.role,
            content: self.content@.map_values(|c: ContentItem| c@),
            final_: self.final_,
        }
    }
}

/// Every message the decoder hands back satisfies this shape: it is an
/// assistant message with at least one content item, and a detected tool
/// call is never mixed with text items.
pub open spec fn wf_decoded(m: MessageView) -> bool {
    &&& m.role == Role::Assistant
    &&& m.content.len() >= 1
    &&& ((m.content.len() == 1 && m.content[0] is Tool) || (forall|i: int|
        0 <= i < m.content.len() ==> m.content[i] is Text))
}

/// The wire format has no representation for an unknown role, so encoding
/// maps it to the user role; every other role is kept as it is.
pub open spec fn encoded_role(r: Role) -> Role {
    if r == Role::Unknown {
        Role::User
    } else {
        r
    }
}

/// Maps a role to the one actually written on the wire.
pub fn encode_role(r: Role) -> (out: Role)
    ensures
        out == encoded_role(r),
{
    match r {
        Role::Unknown => Role::User,
        other => other,
    }
}

/// Builds an assistant message holding one text item.
pub fn text_message(text: String, is_final: bool) -> (m: Message)
    ensures
        m@ == (MessageView {
            role: Role::Assistant,
            content: seq![ContentItemView::Text(text@)],
            final_: is_final,
        }),
        wf_decoded(m@),
{
    let mut content: Vec<ContentItem> = Vec::new();
    content.push(ContentItem::Text(text));
    let m = Message { role: Role::Assistant, content, final_: is_final };
    proof {
        assert(m@.content =~= seq![ContentItemView::Text(m.content@[0]->Text_0@)]);
    }
    m
}

/// Builds an assistant message holding one tool-invocation item.
pub fn tool_message(name: String, arguments: Vec<(String, String)>) -> (m: Message)
    ensures
        m@ == (MessageView {
            role: Role::Assistant,
            content: seq![
                ContentItemView::Tool(
                    ToolInputView { name: name@, arguments: args_view(arguments@) },
                ),
            ],
            final_: false,
        }),
        wf_decoded(m@),
{
    let ghost name_v = name@;
    let ghost args_v = arguments@;
    let mut content: Vec<ContentItem> = Vec::new();
    content.push(ContentItem::ToolInput(ToolInput { name, arguments }));
    let m = Message { role: Role::Assistant, content, final_: false };
    proof {
        assert(m@.content =~= seq![
            ContentItemView::Tool(ToolInputView { name: name_v, arguments: args_view(args_v) }),
        ]);
    }
    m
}

/// The error a codec operation surfaces: a description of what went wrong.
#[derive(Debug, Clone)]
pub struct GptossError {
    pub message: String,
}

/// The machine-readable code of an error.
#[derive(Clone, Copy, Debug, PartialEq, Eq, Structural)]
pub enum ErrorCode {
    Unknown,
}

impl GptossError {
    pub fn new(message: String) -> (e: Self)
        ensures
            e.message@ == message@,
    {
        GptossError { message }
    }

    /// Every error of this codec carries the unspecific code.
    pub fn code(&self) -> (c: ErrorCode)
        ensures
            c == ErrorCode::Unknown,
    {
        ErrorCode::Unknown
    }

    /// No error of this codec carries auxiliary data.
    pub fn data(&self) -> (d: String)
        ensures
            d@ == Seq::<char>::empty(),
    {
        String::new()
    }
}

} // verus!
