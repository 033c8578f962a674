//! The form that drafts a new bot.
use vstd::prelude::*;

use crate::action::Action;
use crate::address::{resolution, resolve, GameMode, Target};

verus! {

/// The draft of a bot being configured.
#[derive(Debug, Clone)]
pub struct Configure {
    pub username: String,
    pub instance_name: String,
    pub is_multiplayer: bool,
    /// The connection text as typed.
    pub gamemode_raw: String,
    /// The target derived from the connection text, once there is one.
    pub gamemode: Option<GameMode>,
}

/// What a `Configure` holds, as values.
pub struct Draft {
    pub username: Seq<char>,
    pub instance_name: Seq<char>,
    pub is_multiplayer: bool,
    pub raw: Seq<char>,
    pub target: Option<Target>,
}

impl View for Configure {
    type V = Draft;

    open spec fn view(&self) -> Draft {
        Draft {
            username: self.username@,
            instance_name: self.instance_name@,
            is_multiplayer: self.is_multiplayer,
            raw: self.gamemode_raw@,
            target: match self.gamemode {
                Some(g) => Some(g@),
                None => None,
            },
        }
    }
}

/// Requests from the form to its parent.
pub enum Instruction {
    /// Create a bot from the draft.
    Submit,
}

/// Events of the form.
#[derive(Debug, Clone)]
pub enum Message {
    BotNameChange(String),
    InstanceNameChange(String),
    IsMultiplayer(bool),
    GamemodeChange(String),
    Submit,
}

/// The empty draft: multiplayer mode, no text, no target.
pub open spec fn empty_draft() -> Draft {
    Draft {
        username: Seq::empty(),
        instance_name: Seq::empty(),
        is_multiplayer: true,
        raw: Seq::empty(),
        target: None,
    }
}

/// The draft after a message. A mode change does not derive the target again;
/// only new connection text does.
pub open spec fn next_draft(d: Draft, m: Message) -> Draft {
    match m {
        Message::BotNameChange(n) => Draft { username: n@, ..d },
        Message::InstanceNameChange(n) => Draft { instance_name: n@, ..d },
        Message::IsMultiplayer(b) => Draft { is_multiplayer: b, ..d },
        Message::GamemodeChange(t) => Draft {
            raw: t@,
            target: Some(resolution(d.is_multiplayer, t@)),
            ..d
        },
        Message::Submit => d,
    }
}

impl Configure {
    pub fn new() -> (r: Self)
        ensures
            r@ == empty_draft(),
    {
        Self::default()
    }

    pub fn update(&mut self, message: Message) -> (r: Action<Instruction, Message>)
        ensures
            final(self)@ == next_draft(old(self)@, message),
            r.instruction is Some <==> message is Submit,
            r.task@.len() == 0,
    {
        match message {
            Message::BotNameChange(name) => self.username = name,
            Message::InstanceNameChange(name) => self.instance_name = name,
            Message::IsMultiplayer(b) => self.is_multiplayer = b,
            Message::GamemodeChange(name) => {
                self.gamemode_raw = name.clone();
                self.gamemode = Some(resolve(self.is_multiplayer, name));
            },
            Message::Submit => return Action::new(Instruction::Submit),
        }
        Action::none()
    }
}

impl Default for Configure {
    fn default() -> (r: Self)
        ensures
            r@ == empty_draft(),
    {
        Self {
            username: String::new(),
            instance_name: String::new(),
            is_multiplayer: true,
            gamemode: None,
            gamemode_raw: String::new(),
        }
    }
}

} // verus!
