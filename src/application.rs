//! The registry of bots, which acts on the instructions of the screens.
use vstd::prelude::*;

use crate::bot::{fresh_bot, Bot, BotModel, GameInfomation, Status};
use crate::configure::{empty_draft, next_draft, Configure, Draft};
use crate::{configure, table};

verus! {

/// Which screen is shown.
#[derive(Debug, Clone, Copy, PartialEq, Eq, Structural)]
pub enum Screen {
    /// The form that configures and adds a new bot.
    Configure,
    /// The table of all bots.
    Table,
}

impl Default for Screen {
    fn default() -> (r: Self)
        ensures
            r == Screen::Table,
    {
        Screen::Table
    }
}

/// The state each screen keeps between messages.
pub struct State {
    pub configure: Configure,
}

/// A request of a screen, tagged with the screen it came from.
pub enum Instruction {
    Configure(configure::Instruction),
    Table(table::Instruction),
}

pub enum Message {
    Exit,
    Screen(Screen),
    Configure(configure::Message),
    Table(table::Message),
}

/// What the caller is to do after an update.
pub enum Effect {
    /// Close the program.
    Exit,
    /// Feed these messages back in, in order.
    Follow(Vec<Message>),
}

/// A submission that cannot make a bot.
#[derive(Debug, Clone, Copy, PartialEq, Eq)]
pub enum ValidationError {
    /// No connection target was ever derived from connection text.
    MissingTarget,
}

/// The bots, in the order they were added, and the screen and draft.
pub struct Application {
    pub bots: Vec<Bot>,
    pub screen: Screen,
    pub state: State,
}

/// What an `Application` holds, as values.
pub struct Registry {
    pub bots: Seq<BotModel>,
    pub screen: Screen,
    pub draft: Draft,
}

pub open spec fn bot_views(v: Seq<Bot>) -> Seq<BotModel> {
    v.map_values(|b: Bot| b@)
}

impl View for Application {
    type V = Registry;

    open spec fn view(&self) -> Registry {
        Registry { bots: bot_views(self.bots@), screen: self.screen, draft: self.state.configure@ }
    }
}

/// The registry after the draft is submitted, or none where the draft has no
/// target. The new bot takes the draft's name, instance and target and goes last;
/// the draft's name, instance and target are cleared; the table is shown.
pub open spec fn submitted(a: Registry) -> Option<Registry> {
    match a.draft.target {
        None => None,
        Some(t) => Some(
            Registry {
                bots: a.bots.push(fresh_bot(a.draft.username, a.draft.instance_name, t)),
                screen: Screen::Table,
                draft: Draft {
                    username: Seq::empty(),
                    instance_name: Seq::empty(),
                    target: None,
                    ..a.draft
                },
            },
        ),
    }
}

/// The registry after a message, or none where a submission is refused.
pub open spec fn after_update(a: Registry, m: Message) -> Option<Registry> {
    match m {
        Message::Exit => Some(a),
        Message::Screen(s) => Some(Registry { screen: s, ..a }),
        Message::Configure(c) => if c is Submit {
            submitted(a)
        } else {
            Some(Registry { draft: next_draft(a.draft, c), ..a })
        },
        Message::Table(_) => Some(a),
    }
}

/// A bot after the launcher side reports on it: the snapshot is kept only
/// while it is online.
pub open spec fn reported(b: BotModel, status: Status, info: Option<GameInfomation>) -> BotModel {
    BotModel {
        status,
        game_infomation: if status == Status::Online {
            info
        } else {
            None
        },
        ..b
    }
}

/// The registry after the report on the bot at `i`.
pub open spec fn with_report(a: Registry, i: int, status: Status, info: Option<GameInfomation>) -> Registry {
    Registry { bots: a.bots.update(i, reported(a.bots[i], status, info)), ..a }
}

impl Application {
    /// Every bot holds a snapshot only while online.
    pub open spec fn wf(&self) -> bool {
        forall|i: int| 0 <= i < self.bots@.len() ==> (#[trigger] self.bots@[i]).wf()
    }

    /// No bots, an empty draft, and the form shown.
    pub fn new() -> (r: Self)
        ensures
            r@.bots.len() == 0,
            r@.screen == Screen::Configure,
            r@.draft == empty_draft(),
            r.wf(),
    {
        Self { bots: Vec::new(), screen: Screen::Configure, state: State { configure: Configure::new() } }
    }

    /// Handles one message: a screen change, or a message for a screen, whose
    /// instruction (if any) is then performed.
    pub fn update(&mut self, message: Message) -> (r: Result<Effect, ValidationError>)
        requires
            old(self).wf(),
        ensures
            final(self).wf(),
            match after_update(old(self)@, message) {
                None => r == Err::<Effect, ValidationError>(ValidationError::MissingTarget)
                    && final(self)@ == old(self)@,
                Some(next) => r is Ok && final(self)@ == next,
            },
            r is Ok ==> (r->Ok_0 is Exit <==> (message is Exit)),
            r is Ok && r->Ok_0 is Follow ==> r->Ok_0->Follow_0@.len() == 0,
    {
        match message {
            Message::Exit => Ok(Effect::Exit),
            Message::Screen(screen) => {
                self.screen = screen;
                Ok(Effect::Follow(Vec::new()))
            },
            Message::Configure(m) => {
                let action = self.state.configure.update(m);
                if let Some(instruction) = action.instruction {
                    if let Err(e) = self.perform(Instruction::Configure(instruction)) {
                        return Err(e);
                    }
                }
                let mut follow: Vec<Message> = Vec::new();
                let mut i: usize = 0;
                while i < action.task.len()
                    invariant
                        i <= action.task@.len(),
                        follow@.len() == i,
                    decreases action.task@.len() - i,
                {
                    follow.push(Message::Configure(action.task[i].clone()));
                    i += 1;
                }
                Ok(Effect::Follow(follow))
            },
            Message::Table(m) => {
                table::update(m);
                Ok(Effect::Follow(Vec::new()))
            },
        }
    }

    /// Records what the launcher side reports of the bot at `index`, if there
    /// is one: its status and, while it is online, a snapshot of its game.
    pub fn set_status(&mut self, index: usize, status: Status, info: Option<GameInfomation>) -> (r:
        bool)
        requires
            old(self).wf(),
        ensures
            final(self).wf(),
            r == (index < old(self)@.bots.len()),
            r ==> final(self)@ == with_report(old(self)@, index as int, status, info),
            !r ==> final(self)@ == old(self)@,
    {
        if index >= self.bots.len() {
            return false;
        }
        let ghost before = self.bots@;
        let mut bot = self.bots.remove(index);
        bot.status = status;
        bot.game_infomation = if status == Status::Online {
            info
        } else {
            None
        };
        self.bots.insert(index, bot);
        assert(self.bots@ =~= before.update(index as int, bot));
        assert(bot_views(self.bots@) =~= bot_views(before).update(index as int, bot@));
        true
    }

    /// Acts on a screen's instruction. The table has none to act on.
    pub fn perform(&mut self, instruction: Instruction) -> (r: Result<(), ValidationError>)
        requires
            old(self).wf(),
        ensures
            final(self).wf(),
            instruction is Table ==> r is Ok && final(self)@ == old(self)@,
            instruction is Configure ==> match submitted(old(self)@) {
                None => r == Err::<(), ValidationError>(ValidationError::MissingTarget) && final(self)@
                    == old(self)@,
                Some(next) => r is Ok && final(self)@ == next,
            },
    {
        match instruction {
            Instruction::Configure(configure::Instruction::Submit) => {
                let gamemode = match self.state.configure.gamemode.take() {
                    Some(g) => g,
                    None => {
                        return Err(ValidationError::MissingTarget);
                    },
                };
                let mut username = String::new();
                std::mem::swap(&mut username, &mut self.state.configure.username);
                let mut instance_name = String::new();
                std::mem::swap(&mut instance_name, &mut self.state.configure.instance_name);
                let ghost before = self.bots@;
                let bot = Bot::new(username, instance_name, gamemode);
                self.bots.push(bot);
                assert(bot_views(self.bots@) =~= bot_views(before).push(bot@));
                self.screen = Screen::Table;
                Ok(())
            },
            Instruction::Table(_) => Ok(()),
        }
    }
}

/// A submission of a draft without a target is refused and changes nothing:
/// neither the bots nor the screen nor the draft.
pub proof fn lemma_submit_without_target(a: Registry)
    requires
        a.draft.target is None,
    ensures
        after_update(a, Message::Configure(configure::Message::Submit)) is None,
{
}

/// A submission of a draft with a target adds one bot, last, that holds exactly
/// the draft's name, instance and target, offline; the draft's name, instance and
/// target are cleared; and later edits of the draft leave the bots as they are.
pub proof fn lemma_submit_moves_draft(a: Registry, later: configure::Message)
    requires
        a.draft.target is Some,
        !(later is Submit),
    ensures
        after_update(a, Message::Configure(configure::Message::Submit)) is Some,
        ({
            let n = after_update(a, Message::Configure(configure::Message::Submit))->0;
            &&& n.bots.len() == a.bots.len() + 1
            &&& n.bots.last() == fresh_bot(a.draft.username, a.draft.instance_name, a.draft.target->0)
            &&& n.draft.username.len() == 0
            &&& n.draft.instance_name.len() == 0
            &&& n.draft.target is None
            &&& n.screen == Screen::Table
            &&& after_update(n, Message::Configure(later))->0.bots == n.bots
        }),
{
}

/// Bots are kept in the order they were submitted: a submission keeps the bots
/// before it in place and appends one, which is offline.
pub proof fn lemma_submit_appends_offline(a: Registry)
    requires
        submitted(a) is Some,
    ensures
        submitted(a)->0.bots.len() == a.bots.len() + 1,
        submitted(a)->0.bots.take(a.bots.len() as int) == a.bots,
        submitted(a)->0.bots.last().status == Status::Offline,
        submitted(a)->0.bots.last().game_infomation is None,
{
    assert(submitted(a)->0.bots.take(a.bots.len() as int) =~= a.bots);
}

} // verus!
