//! AI chat: messages, the conversation with a streamed reply, and the
//! prompt line the user types into.

use vstd::prelude::*;
use vstd::utf8::encode_scalar;
use vstd::string::StringExecFns;
use crate::text::{
    owned, on_char_boundary, utf8_of, bytes_after_insert, is_control, char_is_control,
    string_insert, string_remove, lemma_insert_then_remove,
};

verus! {

/// Who wrote a chat message.
#[derive(Clone, Copy, Debug, PartialEq, Eq, Structural)]
pub enum MessageRole {
    User,
    Assistant,
    System,
}

/// What an assistant is doing.
#[derive(Clone, Copy, Debug, PartialEq, Eq, Structural)]
pub enum AgentState {
    Idle,
    Thinking,
    Responding,
    Error,
}

/// A message of a conversation with an assistant.
pub struct ChatMessage {
    pub role: MessageRole,
    pub content: String,
}

/// Single chat message display
pub struct ChatMessageWidget {
    pub role: MessageRole,
    pub content: String,
    pub timestamp: Option<String>,
    pub is_streaming: bool,
}

impl ChatMessageWidget {
    pub fn new(message: &ChatMessage) -> (r: Self)
        ensures
            r.role == message.role,
            r.content@ == message.content@,
            r.timestamp is None,
            !r.is_streaming,
    {
        ChatMessageWidget {
            role: message.role,
            content: message.content.clone(),
            timestamp: None,
            is_streaming: false,
        }
    }

    pub fn user(content: &str) -> (r: Self)
        ensures
            r.role == MessageRole::User,
            r.content@ == content@,
            r.timestamp is None,
            !r.is_streaming,
    {
        ChatMessageWidget {
            role: MessageRole::User,
            content: owned(content),
            timestamp: None,
            is_streaming: false,
        }
    }

    pub fn assistant(content: &str) -> (r: Self)
        ensures
            r.role == MessageRole::Assistant,
            r.content@ == content@,
            r.timestamp is None,
            !r.is_streaming,
    {
        ChatMessageWidget {
            role: MessageRole::Assistant,
            content: owned(content),
            timestamp: None,
            is_streaming: false,
        }
    }

    /// An empty assistant message that is still being streamed in.
    pub fn streaming() -> (r: Self)
        ensures
            r.role == MessageRole::Assistant,
            r.content@ == Seq::<char>::empty(),
            r.timestamp is None,
            r.is_streaming,
    {
        ChatMessageWidget {
            role: MessageRole::Assistant,
            content: String::new(),
            timestamp: None,
            is_streaming: true,
        }
    }

    pub fn append_content(&mut self, text: &str)
        ensures
            final(self).content@ == old(self).content@ + text@,
            final(self).role == old(self).role,
            final(self).timestamp == old(self).timestamp,
            final(self).is_streaming == old(self).is_streaming,
    {
        self.content.append(text);
    }

    pub fn finish_streaming(&mut self)
        ensures
            *final(self) == (ChatMessageWidget { is_streaming: false, ..*old(self) }),
    {
        self.is_streaming = false;
    }
}

/// Scrollable chat message list
pub struct ChatView {
    pub messages: Vec<ChatMessageWidget>,
}

impl ChatView {
    pub fn new() -> (r: Self)
        ensures
            r.messages@.len() == 0,
    {
        ChatView { messages: Vec::new() }
    }

    pub fn add_message(&mut self, message: ChatMessageWidget)
        ensures
            final(self).messages@ == old(self).messages@.push(message),
    {
        self.messages.push(message);
    }

    pub fn add_user_message(&mut self, content: &str)
        ensures
            final(self).messages@.len() == old(self).messages@.len() + 1,
            final(self).messages@.drop_last() == old(self).messages@,
            final(self).messages@.last().role == MessageRole::User,
            final(self).messages@.last().content@ == content@,
            !final(self).messages@.last().is_streaming,
    {
        self.add_message(ChatMessageWidget::user(content));
        proof {
            assert(self.messages@.drop_last() =~= old(self).messages@);
        }
    }

    pub fn add_assistant_message(&mut self, content: &str)
        ensures
            final(self).messages@.len() == old(self).messages@.len() + 1,
            final(self).messages@.drop_last() == old(self).messages@,
            final(self).messages@.last().role == MessageRole::Assistant,
            final(self).messages@.last().content@ == content@,
            !final(self).messages@.last().is_streaming,
    {
        self.add_message(ChatMessageWidget::assistant(content));
        proof {
            assert(self.messages@.drop_last() =~= old(self).messages@);
        }
    }

    /// Start an assistant reply that arrives in pieces.
    pub fn start_streaming(&mut self)
        ensures
            final(self).messages@.len() == old(self).messages@.len() + 1,
            final(self).messages@.drop_last() == old(self).messages@,
            final(self).messages@.last().role == MessageRole::Assistant,
            final(self).messages@.last().content@ == Seq::<char>::empty(),
            final(self).messages@.last().is_streaming,
    {
        self.add_message(ChatMessageWidget::streaming());
        proof {
            assert(self.messages@.drop_last() =~= old(self).messages@);
        }
    }

    /// Append a piece of the streamed reply to the last message, if that
    /// message is still streaming; otherwise nothing changes.
    pub fn append_to_stream(&mut self, text: &str)
        ensures
            final(self).messages@.len() == old(self).messages@.len(),
            final(self).messages@.drop_last() == old(self).messages@.drop_last(),
            old(self).messages@.len() > 0 && old(self).messages@.last().is_streaming ==> {
                &&& final(self).messages@.last().content@ == old(self).messages@.last().content@
                    + text@
                &&& final(self).messages@.last().role == old(self).messages@.last().role
                &&& final(self).messages@.last().timestamp == old(self).messages@.last().timestamp
                &&& final(self).messages@.last().is_streaming
            },
            !(old(self).messages@.len() > 0 && old(self).messages@.last().is_streaming)
                ==> final(self).messages@ == old(self).messages@,
    {
        let n = self.messages.len();
        if n > 0 {
            if self.messages[n - 1].is_streaming {
                let mut last = self.messages.pop().unwrap();
                last.append_content(text);
                self.messages.push(last);
                proof {
                    assert(self.messages@.drop_last() =~= old(self).messages@.drop_last());
                }
            }
        }
    }

    /// Mark the last message as complete.
    pub fn finish_streaming(&mut self)
        ensures
            final(self).messages@.len() == old(self).messages@.len(),
            old(self).messages@.len() > 0 ==> final(self).messages@ == old(self).messages@.update(
                old(self).messages@.len() - 1,
                ChatMessageWidget { is_streaming: false, ..old(self).messages@.last() },
            ),
            old(self).messages@.len() == 0 ==> final(self).messages@ == old(self).messages@,
    {
        if let Some(mut last) = self.messages.pop() {
            last.finish_streaming();
            self.messages.push(last);
            proof {
                assert(self.messages@ =~= old(self).messages@.update(
                    old(self).messages@.len() - 1,
                    ChatMessageWidget { is_streaming: false, ..old(self).messages@.last() },
                ));
            }
        }
    }
}

impl Default for ChatView {
    fn default() -> (r: Self)
        ensures
            r.messages@.len() == 0,
    {
        Self::new()
    }
}

/// Keys the prompt line reacts to while focused.
#[derive(Clone, Copy, Debug, PartialEq, Eq, Structural)]
pub enum PromptKey {
    Backspace,
    Enter,
    ArrowLeft,
    ArrowRight,
    /// A key that produced text; its first character.
    Text(char),
    /// Any other key.
    Other,
}

/// What a key press on the prompt line did: whether it was consumed, and
/// the text submitted with Enter, if any.
pub struct PromptResponse {
    pub handled: bool,
    pub submitted: Option<String>,
}

/// Text input for chat prompt
pub struct PromptInput {
    pub text: String,
    pub placeholder: String,
    pub focused: bool,
    /// Byte position of the text cursor in `text`.
    pub cursor_pos: usize,
    /// Whether the blinking cursor is currently drawn.
    pub cursor_visible: bool,
}

/// A key press the prompt line can take without an invalid byte index.
pub open spec fn prompt_key_acceptable(p: PromptInput, key: PromptKey) -> bool {
    p.focused ==> match key {
        PromptKey::Backspace => p.cursor_pos > 0 ==> {
            &&& on_char_boundary(p.text@, p.cursor_pos - 1)
            &&& p.cursor_pos - 1 < utf8_of(p.text@).len()
        },
        PromptKey::Text(c) => !is_control(c) ==> {
            &&& on_char_boundary(p.text@, p.cursor_pos as int)
            &&& p.cursor_pos < usize::MAX
        },
        _ => true,
    }
}

/// What a pressed key does to the prompt (`before` to `after`) and what
/// the handling answers (`resp`).
pub open spec fn prompt_key_effect(before: PromptInput, key: PromptKey, after: PromptInput, resp: PromptResponse) -> bool {
    &&& after.placeholder == before.placeholder
    &&& after.focused == before.focused
    &&& !before.focused ==> (after == before && !resp.handled && resp.submitted is None)
    &&& before.focused ==> match key {
        PromptKey::Backspace => {
            &&& resp.handled
            &&& resp.submitted is None
            &&& before.cursor_pos == 0 ==> after == before
            &&& before.cursor_pos > 0 ==> {
                &&& after.cursor_pos == before.cursor_pos - 1
                &&& after.cursor_visible == before.cursor_visible
                &&& exists|c: char|
                    #![trigger encode_scalar(c as u32)]
                    utf8_of(before.text@) == utf8_of(before.text@).take(
                        after.cursor_pos as int,
                    ) + encode_scalar(c as u32) + utf8_of(before.text@).skip(
                        after.cursor_pos + encode_scalar(c as u32).len(),
                    ) && utf8_of(after.text@) == utf8_of(before.text@).take(
                        after.cursor_pos as int,
                    ) + utf8_of(before.text@).skip(
                        after.cursor_pos + encode_scalar(c as u32).len(),
                    )
            }
        },
        PromptKey::Enter => {
            &&& resp.handled
            &&& if before.text@.len() > 0 {
                &&& resp.submitted == Some(before.text)
                &&& after.text@ == Seq::<char>::empty()
                &&& after.cursor_pos == 0
                &&& after.cursor_visible == before.cursor_visible
            } else {
                resp.submitted is None && after == before
            }
        },
        PromptKey::ArrowLeft => {
            &&& resp.handled
            &&& resp.submitted is None
            &&& after == (PromptInput {
                cursor_pos: if before.cursor_pos > 0 {
                    (before.cursor_pos - 1) as usize
                } else {
                    0
                },
                ..before
            })
        },
        PromptKey::ArrowRight => {
            &&& resp.handled
            &&& resp.submitted is None
            &&& after == (PromptInput {
                cursor_pos: if before.cursor_pos < utf8_of(before.text@).len() {
                    (before.cursor_pos + 1) as usize
                } else {
                    before.cursor_pos
                },
                ..before
            })
        },
        PromptKey::Text(c) => if is_control(c) {
            after == before && !resp.handled && resp.submitted is None
        } else {
            &&& resp.handled
            &&& resp.submitted is None
            &&& utf8_of(after.text@) == bytes_after_insert(
                before.text@,
                before.cursor_pos as int,
                c,
            )
            &&& after.cursor_pos == before.cursor_pos + 1
            &&& after.cursor_visible
        },
        PromptKey::Other => after == before && !resp.handled && resp.submitted is None,
    }
}

/// Typing a character and then pressing Backspace gives the prompt back
/// its text and cursor: the character goes in at the cursor and the
/// cursor steps past its first byte, and Backspace takes out the
/// character that begins just before the cursor, which is that one.
pub proof fn lemma_type_then_backspace(
    s0: PromptInput,
    c: char,
    s1: PromptInput,
    r1: PromptResponse,
    s2: PromptInput,
    r2: PromptResponse,
)
    requires
        s0.focused,
        !is_control(c),
        prompt_key_acceptable(s0, PromptKey::Text(c)),
        prompt_key_effect(s0, PromptKey::Text(c), s1, r1),
        prompt_key_effect(s1, PromptKey::Backspace, s2, r2),
    ensures
        s2.text@ == s0.text@,
        s2.cursor_pos == s0.cursor_pos,
{
    lemma_insert_then_remove(s0.text@, s1.text@, s2.text@, s0.cursor_pos as int, c);
}

impl PromptInput {
    pub fn new() -> (r: Self)
        ensures
            r.text@ == Seq::<char>::empty(),
            r.placeholder@ == "Type a message..."@,
            !r.focused,
            r.cursor_pos == 0,
            r.cursor_visible,
    {
        PromptInput {
            text: String::new(),
            placeholder: owned("Type a message..."),
            focused: false,
            cursor_pos: 0,
            cursor_visible: true,
        }
    }

    pub fn with_placeholder(self, placeholder: &str) -> (r: Self)
        ensures
            r == (PromptInput { placeholder: r.placeholder, ..self }),
            r.placeholder@ == placeholder@,
    {
        let mut p = self;
        p.placeholder = owned(placeholder);
        p
    }

    pub fn clear(&mut self)
        ensures
            *final(self) == (PromptInput { text: final(self).text, cursor_pos: 0, ..*old(self) }),
            final(self).text@ == Seq::<char>::empty(),
    {
        self.text = String::new();
        self.cursor_pos = 0;
    }

    pub fn get_and_clear(&mut self) -> (r: String)
        ensures
            r == old(self).text,
            *final(self) == (PromptInput { text: final(self).text, cursor_pos: 0, ..*old(self) }),
            final(self).text@ == Seq::<char>::empty(),
    {
        let text = self.text.clone();
        self.clear();
        text
    }

    /// A left click: inside the prompt line it takes the focus, outside it
    /// drops it; returns whether the click was inside.
    pub fn click(&mut self, inside: bool) -> (consumed: bool)
        ensures
            consumed == inside,
            *final(self) == (PromptInput { focused: inside, ..*old(self) }),
    {
        self.focused = inside;
        inside
    }

    /// Whether a key press can be taken without an invalid byte index.
    pub fn accepts_key(&self, key: PromptKey) -> (r: bool)
        ensures
            r == prompt_key_acceptable(*self, key),
    {
        if !self.focused {
            return true;
        }
        match key {
            PromptKey::Backspace => {
                if self.cursor_pos == 0 {
                    true
                } else {
                    let t = self.text.as_str();
                    t.is_char_boundary(self.cursor_pos - 1) && self.cursor_pos - 1 < t.as_bytes().len()
                }
            },
            PromptKey::Text(c) => {
                if char_is_control(c) {
                    true
                } else {
                    self.text.as_str().is_char_boundary(self.cursor_pos) && self.cursor_pos
                        < usize::MAX
                }
            },
            _ => true,
        }
    }

    /// The keyboard part of the prompt's event handling, for a pressed key.
    pub fn handle_key(&mut self, key: PromptKey) -> (r: PromptResponse)
        requires
            prompt_key_acceptable(*old(self), key),
        ensures
            prompt_key_effect(*old(self), key, *final(self), r),
    {
        if !self.focused {
            return PromptResponse { handled: false, submitted: None };
        }
        match key {
            PromptKey::Backspace => {
                if self.cursor_pos > 0 {
                    self.cursor_pos = self.cursor_pos - 1;
                    let ghost before = self.text@;
                    let removed = string_remove(&mut self.text, self.cursor_pos);
                    proof {
                        let b = utf8_of(before);
                        let i = self.cursor_pos as int;
                        let k = encode_scalar(removed as u32).len();
                        assert(b =~= b.take(i) + encode_scalar(removed as u32) + b.skip(i + k));
                    }
                }
                PromptResponse { handled: true, submitted: None }
            },
            PromptKey::Enter => {
                if !self.text.as_str().is_empty() {
                    let text = self.text.clone();
                    self.clear();
                    PromptResponse { handled: true, submitted: Some(text) }
                } else {
                    PromptResponse { handled: true, submitted: None }
                }
            },
            PromptKey::ArrowLeft => {
                if self.cursor_pos > 0 {
                    self.cursor_pos = self.cursor_pos - 1;
                }
                PromptResponse { handled: true, submitted: None }
            },
            PromptKey::ArrowRight => {
                if self.cursor_pos < self.text.as_str().as_bytes().len() {
                    self.cursor_pos = self.cursor_pos + 1;
                }
                PromptResponse { handled: true, submitted: None }
            },
            PromptKey::Text(c) => {
                if !char_is_control(c) {
                    string_insert(&mut self.text, self.cursor_pos, c);
                    self.cursor_pos = self.cursor_pos + 1;
                    self.cursor_visible = true;
                    PromptResponse { handled: true, submitted: None }
                } else {
                    PromptResponse { handled: false, submitted: None }
                }
            },
            PromptKey::Other => PromptResponse { handled: false, submitted: None },
        }
    }
}

impl Default for PromptInput {
    fn default() -> (r: Self)
        ensures
            r.text@ == Seq::<char>::empty(),
            r.placeholder@ == "Type a message..."@,
            !r.focused,
            r.cursor_pos == 0,
            r.cursor_visible,
    {
        Self::new()
    }
}

} // verus!
