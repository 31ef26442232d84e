use vstd::prelude::*;
use vstd::assert_seqs_equal;

verus! {

/// One queued terminal operation.
///
/// `Draw` positions the cursor and prints `text`. Layout can push a draw
/// position outside the visible screen (text wider than its rectangle, or a
/// border row above row 0), so positions are kept as `i64` and the terminal
/// adapter clamps them to the screen when it replays the queue.
pub enum Command {
    Draw { x: i64, y: i64, text: String },
    Write { text: String },
    Flush,
    Clear,
}

/// The mathematical image of a [`Command`]: positions as unbounded integers
/// and text as its character sequence. Contracts speak of command queues as
/// sequences of these.
pub enum CommandModel {
    Draw { x: int, y: int, text: Seq<char> },
    Write { text: Seq<char> },
    Flush,
    Clear,
}

impl View for Command {
    type V = CommandModel;

    open spec fn view(&self) -> CommandModel {
        match self {
            Command::Draw { x, y, text } => CommandModel::Draw {
                x: *x as int,
                y: *y as int,
                text: text@,
            },
            Command::Write { text } => CommandModel::Write { text: text@ },
            Command::Flush => CommandModel::Flush,
            Command::Clear => CommandModel::Clear,
        }
    }
}

/// The console buffer: rendering and event dispatch append commands here, in
/// order, and the terminal adapter replays them against the real terminal.
/// Its view is the queue of commands recorded so far.
pub struct Console {
    pub commands: Vec<Command>,
}

impl View for Console {
    type V = Seq<CommandModel>;

    open spec fn view(&self) -> Seq<CommandModel> {
        self.commands@.map_values(|c: Command| c@)
    }
}

impl Console {
    /// A console with an empty command queue.
    pub fn new() -> (c: Console)
        ensures
            c@ == Seq::<CommandModel>::empty(),
    {
        let c = Console { commands: Vec::new() };
        proof {
            assert_seqs_equal!(c@ == Seq::<CommandModel>::empty());
        }
        c
    }

    /// Queue a cursor move to `pos` followed by printing `text` there.
    pub fn draw(&mut self, pos: (i64, i64), text: String)
        ensures
            final(self)@ == old(self)@.push(
                CommandModel::Draw { x: pos.0 as int, y: pos.1 as int, text: text@ },
            ),
    {
        let ghost t = text@;
        self.commands.push(Command::Draw { x: pos.0, y: pos.1, text });
        proof {
            assert_seqs_equal!(self@ == old(self)@.push(
                CommandModel::Draw { x: pos.0 as int, y: pos.1 as int, text: t }
            ));
        }
    }

    /// Queue printing `text` at the current cursor position.
    pub fn write(&mut self, text: String)
        ensures
            final(self)@ == old(self)@.push(CommandModel::Write { text: text@ }),
    {
        let ghost t = text@;
        self.commands.push(Command::Write { text });
        proof {
            assert_seqs_equal!(self@ == old(self)@.push(CommandModel::Write { text: t }));
        }
    }

    /// Queue a flush of everything printed so far to the terminal.
    pub fn flush(&mut self)
        ensures
            final(self)@ == old(self)@.push(CommandModel::Flush),
    {
        self.commands.push(Command::Flush);
        proof {
            assert_seqs_equal!(self@ == old(self)@.push(CommandModel::Flush));
        }
    }

    /// Queue clearing the whole screen.
    pub fn clear(&mut self)
        ensures
            final(self)@ == old(self)@.push(CommandModel::Clear),
    {
        self.commands.push(Command::Clear);
        proof {
            assert_seqs_equal!(self@ == old(self)@.push(CommandModel::Clear));
        }
    }
}

} // verus!
