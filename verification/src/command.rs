//! What the platform hands over with an event, and what it is told about
//! the commands that the bot offers.

use vstd::prelude::*;

verus! {

/// The value that the platform resolved an argument to.
#[derive(Debug, PartialEq, Eq)]
pub enum ArgumentValue {
    /// A text.
    Text(String),
    /// A whole number.
    Integer(i64),
    /// A truth value.
    Boolean(bool),
    /// A value of any other kind: a user, a channel, a role, a number with
    /// a fraction, an attachment.
    Other,
}

/// One argument of a command invocation.
#[derive(Debug, PartialEq, Eq)]
pub struct Argument {
    /// The name of the option that the argument fills.
    pub name: String,
    /// The resolved value, where the platform sent one.
    pub resolved: Option<ArgumentValue>,
}

/// A command as a member invoked it.
#[derive(Debug, PartialEq, Eq)]
pub struct CommandInvocation {
    /// The name of the command.
    pub name: String,
    /// The arguments, in the order in which they were given.
    pub arguments: Vec<Argument>,
    /// The permission flags of the invoking member, where they are known.
    pub permissions: Option<u64>,
    /// The server in which the command was invoked; `None` outside of any
    /// server.
    pub server: Option<u64>,
}

/// A member arrived on a server.
#[derive(Debug, PartialEq, Eq)]
pub struct JoinEvent {
    /// The server that the member joined.
    pub server: u64,
    /// The name that the member shows.
    pub name: String,
}

/// The kind of value that an option of a command takes.
#[derive(Clone, Copy, Debug, PartialEq, Eq, Structural)]
pub enum OptionKind {
    /// A text.
    Text,
    /// A whole number.
    Integer,
    /// A truth value.
    Boolean,
}

/// One option of a command, as it is declared to the platform.
#[derive(Debug, PartialEq, Eq)]
pub struct OptionDefinition {
    /// The name of the option.
    pub name: String,
    /// What the option is for, in words.
    pub description: String,
    /// The kind of value that the option takes.
    pub kind: OptionKind,
    /// Whether an invocation must give the option.
    pub required: bool,
}

/// A command, as it is declared to the platform.
#[derive(Debug, PartialEq, Eq)]
pub struct CommandDefinition {
    /// The name under which the command is invoked.
    pub name: String,
    /// What the command does, in words.
    pub description: String,
    /// The options that the command takes.
    pub options: Vec<OptionDefinition>,
}

/// The name of the one command that the bot offers.
pub open spec fn ban_command_name() -> Seq<char> {
    "ban"@
}

/// Whether `commands` is what the bot offers: the one command `ban`, with
/// its one required text option `user`.
pub open spec fn is_command_surface(commands: Seq<CommandDefinition>) -> bool {
    &&& commands.len() == 1
    &&& commands[0].name@ == ban_command_name()
    &&& commands[0].description@
        == "Set a user or username to be banned upon joining this server"@
    &&& commands[0].options@.len() == 1
    &&& commands[0].options@[0].name@ == "user"@
    &&& commands[0].options@[0].description@ == "user to ban"@
    &&& commands[0].options@[0].kind == OptionKind::Text
    &&& commands[0].options@[0].required
}

} // verus!
