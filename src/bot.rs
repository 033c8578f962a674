//! A managed bot and what is known of it while it runs.
use vstd::prelude::*;

use crate::address::{GameMode, Target};

verus! {

/// Whether a bot's game client is running; `Offline < Online`.
#[derive(Debug, Clone, Copy, PartialEq, Eq, Structural, PartialOrd, Ord)]
pub enum Status {
    Offline,
    Online,
}

impl Default for Status {
    fn default() -> (r: Self)
        ensures
            r == Status::Offline,
    {
        Status::Offline
    }
}

impl Status {
    pub fn to_string(&self) -> (r: String)
        ensures
            r@ == (match self {
                Status::Offline => "Offline"@,
                Status::Online => "Online"@,
            }),
    {
        match self {
            Status::Offline => String::from_str("Offline"),
            Status::Online => String::from_str("Online"),
        }
    }
}

#[derive(Debug, Clone, Copy, PartialEq, Eq, Structural)]
pub struct Coordinates {
    pub x: i32,
    pub y: i16,
    pub z: i32,
}

#[derive(Debug, Clone, Copy, PartialEq, Eq, Structural)]
pub enum Dimension {
    /// The Overworld.
    Overworld,
    /// The Nether.
    Nether,
    /// The End.
    End,
}

/// A snapshot of a running game.
#[derive(Debug, Clone, Copy, PartialEq, Eq, Structural)]
pub struct GameInfomation {
    pub coordinates: Coordinates,
    pub dimension: Dimension,
    pub memory_usage: usize,
}

/// A single bot: one account on one server (or world) through one instance.
#[derive(Debug, Clone)]
pub struct Bot {
    pub username: String,
    pub status: Status,
    /// The launcher instance it runs in.
    pub instance: String,
    pub server: GameMode,
    /// Present only while the bot is online.
    pub game_infomation: Option<GameInfomation>,
}

/// What a `Bot` holds, as values.
pub struct BotModel {
    pub username: Seq<char>,
    pub status: Status,
    pub instance: Seq<char>,
    pub server: Target,
    pub game_infomation: Option<GameInfomation>,
}

impl View for Bot {
    type V = BotModel;

    open spec fn view(&self) -> BotModel {
        BotModel {
            username: self.username@,
            status: self.status,
            instance: self.instance@,
            server: self.server@,
            game_infomation: self.game_infomation,
        }
    }
}

/// A bot as it is created: offline, with no snapshot.
pub open spec fn fresh_bot(username: Seq<char>, instance: Seq<char>, server: Target) -> BotModel {
    BotModel {
        username,
        status: Status::Offline,
        instance,
        server,
        game_infomation: None,
    }
}

impl Bot {
    pub fn new(username: String, instance_name: String, server: GameMode) -> (r: Self)
        ensures
            r@ == fresh_bot(username@, instance_name@, server@),
    {
        Self { username, status: Status::Offline, instance: instance_name, server, game_infomation: None }
    }

    /// A snapshot is held only while online.
    pub open spec fn wf(&self) -> bool {
        self.game_infomation is Some ==> self.status == Status::Online
    }
}

} // verus!
