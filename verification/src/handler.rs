//! The reactions to what the platform reports: a connection that is ready, a
//! member that joined, a command that was invoked.
//!
//! Nothing here touches the platform or the store. Each function takes the
//! event and the record of the event's server as the host found it, and
//! says what the host is to do: which answer to send, whether to ban, what
//! to write.

use crate::block_list::{append_status, AppendStatus};
use crate::command::{
    ban_command_name, is_command_surface, Argument, ArgumentValue, CommandDefinition,
    CommandInvocation, JoinEvent, OptionDefinition, OptionKind,
};
use crate::discord::{administrator, is_administrator};
use crate::store::{
    append, lemma_append_never_removes, lemma_append_then_load, lemma_append_twice, load_all,
    record_after, storable, stored_names, written,
};
use vstd::prelude::*;

verus! {

/// For how many days back the messages of a banned member are deleted:
/// none.
pub const DELETE_MESSAGE_DAYS: u8 = 0;

/// The answer to a command invocation.
#[derive(Debug, PartialEq, Eq)]
pub struct Reply {
    /// The text that is sent to the invoker.
    pub content: String,
    /// The new text of the server's record, for the host to write; `None`
    /// where the record stays as it is.
    pub record: Option<String>,
}

/// A `Reply` as contracts speak of it.
pub struct ReplyView {
    /// The characters of the text that is sent.
    pub content: Seq<char>,
    /// The characters of the record that is to be written, if one is.
    pub record: Option<Seq<char>>,
}

impl View for Reply {
    type V = ReplyView;

    open spec fn view(&self) -> ReplyView {
        ReplyView { content: self.content@, record: self.record.deep_view() }
    }
}

impl DeepView for Reply {
    type V = ReplyView;

    open spec fn deep_view(&self) -> ReplyView {
        self@
    }
}

/// What is done about a member that joined.
#[derive(Clone, Copy, Debug, PartialEq, Eq, Structural)]
pub enum JoinAction {
    /// The member is banned for good.
    Ban {
        /// For how many days back the member's messages are deleted.
        delete_message_days: u8,
    },
    /// The member is let in.
    Nothing,
}

/// What the platform reports.
#[derive(Debug, PartialEq, Eq)]
pub enum Event {
    /// The connection to the platform is ready.
    Ready,
    /// A member joined a server.
    MemberJoined(JoinEvent),
    /// A member invoked a command.
    CommandInvoked(CommandInvocation),
}

/// What the host is to do about an event.
#[derive(Debug, PartialEq, Eq)]
pub enum Reaction {
    /// Declare these commands to the platform.
    Register(Vec<CommandDefinition>),
    /// Ban the member that joined.
    Ban {
        /// For how many days back the member's messages are deleted.
        delete_message_days: u8,
    },
    /// Send the answer to the invoker, and write the record that it carries.
    Respond(Reply),
    /// Do nothing.
    Nothing,
}

impl Event {
    /// The server whose record decides about the event, if any does.
    pub open spec fn server_spec(self) -> Option<u64> {
        match self {
            Event::Ready => None,
            Event::MemberJoined(join) => Some(join.server),
            Event::CommandInvoked(invocation) => invocation.server,
        }
    }

    /// The server whose record the host hands to `handle` with this event;
    /// `None` where no record is looked at.
    pub fn server(&self) -> (server: Option<u64>)
        ensures
            server == self.server_spec(),
    {
        match self {
            Event::Ready => None,
            Event::MemberJoined(join) => Some(join.server),
            Event::CommandInvoked(invocation) => invocation.server,
        }
    }
}

/// An answer that leaves the record as it is.
pub open spec fn answer(content: Seq<char>) -> ReplyView {
    ReplyView { content, record: None }
}

/// The answer to an invocation of `ban` with these arguments, on a server
/// with this record.
pub open spec fn add_name_spec(arguments: Seq<Argument>, record: Option<Seq<char>>) -> ReplyView {
    if arguments.len() == 0 {
        answer("Expected a username to ban"@)
    } else {
        match arguments[0].resolved {
            None => answer("Problem"@),
            Some(ArgumentValue::Text(name)) => ReplyView {
                content: append_status(stored_names(record), name@).message_for(name@),
                record: written(record, name@),
            },
            Some(_) => answer("Please enter a valid user or string"@),
        }
    }
}

/// The answer to a command invocation on a server with this record; `None`
/// where the invocation is passed over in silence.
pub open spec fn interaction_spec(
    invocation: CommandInvocation,
    record: Option<Seq<char>>,
) -> Option<ReplyView> {
    match (invocation.server, invocation.permissions) {
        (Some(_), Some(flags)) => if !is_administrator(flags) {
            Some(answer("Not an admin"@))
        } else if invocation.name@ == ban_command_name() {
            Some(add_name_spec(invocation.arguments@, record))
        } else {
            Some(answer("not implemented :("@))
        },
        _ => None,
    }
}

/// What is done about a member that joined a server with this record.
pub open spec fn join_spec(event: JoinEvent, record: Option<Seq<char>>) -> JoinAction {
    if stored_names(record).contains(event.name@) {
        JoinAction::Ban { delete_message_days: DELETE_MESSAGE_DAYS }
    } else {
        JoinAction::Nothing
    }
}

/// Whether `reaction` is what the event calls for on a server with this
/// record.
pub open spec fn reacts(event: Event, record: Option<Seq<char>>, reaction: Reaction) -> bool {
    match event {
        Event::Ready => reaction matches Reaction::Register(commands) && is_command_surface(
            commands@,
        ),
        Event::MemberJoined(join) => match join_spec(join, record) {
            JoinAction::Ban { delete_message_days } => reaction == (Reaction::Ban {
                delete_message_days,
            }),
            JoinAction::Nothing => reaction == Reaction::Nothing,
        },
        Event::CommandInvoked(invocation) => match interaction_spec(invocation, record) {
            Some(view) => reaction matches Reaction::Respond(reply) && reply@ == view,
            None => reaction == Reaction::Nothing,
        },
    }
}

fn say(content: &str) -> (reply: Reply)
    ensures
        reply@ == answer(content@),
{
    Reply { content: content.to_owned(), record: None }
}

/// Answers an invocation of `ban`: the first argument, a text, is the name
/// to put on the server's block list. The answer says whether the name was
/// added or was there already, and carries the new record in the first
/// case. An invocation without arguments, or with a first argument that is
/// no text, gets an answer that says so, and changes nothing.
pub fn add_name(arguments: &[Argument], record: Option<&str>) -> (reply: Reply)
    ensures
        reply@ == add_name_spec(arguments@, record.deep_view()),
        arguments@.len() == 0 ==> reply@ == answer("Expected a username to ban"@),
        arguments@.len() > 0 && arguments@[0].resolved is Some && !(arguments@[0].resolved
            matches Some(ArgumentValue::Text(_))) ==> reply@ == answer(
            "Please enter a valid user or string"@,
        ),
{
    if arguments.len() == 0 {
        return say("Expected a username to ban");
    }
    match &arguments[0].resolved {
        None => say("Problem"),
        Some(ArgumentValue::Text(name)) => {
            let outcome = append(record, name.as_str());
            Reply { content: outcome.status.message(name.as_str()), record: outcome.record }
        },
        Some(_) => say("Please enter a valid user or string"),
    }
}

/// Answers a command invocation. An invocation from outside any server, or
/// by a member whose permissions are unknown, is passed over in silence.
/// One by a member who is no administrator is refused, whatever the
/// command, and changes nothing. Of an administrator, `ban` is carried out
/// by `add_name`; any other command is answered as not implemented.
pub fn interaction_create(
    invocation: &CommandInvocation,
    record: Option<&str>,
) -> (reply: Option<Reply>)
    ensures
        reply.deep_view() == interaction_spec(*invocation, record.deep_view()),
        reply is None <==> invocation.server is None || invocation.permissions is None,
        invocation.server is Some && invocation.permissions is Some && !is_administrator(
            invocation.permissions->0,
        ) ==> reply.deep_view() == Some(answer("Not an admin"@)),
{
    if invocation.server.is_none() {
        return None;
    }
    let flags = match invocation.permissions {
        Some(flags) => flags,
        None => {
            return None;
        },
    };
    if !administrator(flags) {
        return Some(say("Not an admin"));
    }
    let ban = "ban".to_owned();
    if invocation.name == ban {
        Some(add_name(invocation.arguments.as_slice(), record))
    } else {
        Some(say("not implemented :("))
    }
}

/// Decides about a member that joined: whoever shows a name that is on the
/// server's block list, letter for letter, is banned; everybody else is
/// let in. A server without a record bans nobody.
pub fn guild_member_addition(event: &JoinEvent, record: Option<&str>) -> (action: JoinAction)
    ensures
        action == join_spec(*event, record.deep_view()),
        record is None ==> action == JoinAction::Nothing,
{
    let list = load_all(record);
    if list.contains(event.name.as_str()) {
        JoinAction::Ban { delete_message_days: DELETE_MESSAGE_DAYS }
    } else {
        JoinAction::Nothing
    }
}

/// The commands to declare to the platform once the connection is ready:
/// `ban`, with the required text option `user`. The result is the same at
/// every call, so declaring it again after a reconnect changes nothing.
pub fn ready() -> (commands: Vec<CommandDefinition>)
    ensures
        is_command_surface(commands@),
{
    let user = OptionDefinition {
        name: "user".to_owned(),
        description: "user to ban".to_owned(),
        kind: OptionKind::Text,
        required: true,
    };
    let mut options: Vec<OptionDefinition> = Vec::new();
    options.push(user);
    let ban = CommandDefinition {
        name: "ban".to_owned(),
        description: "Set a user or username to be banned upon joining this server".to_owned(),
        options,
    };
    let mut commands: Vec<CommandDefinition> = Vec::new();
    commands.push(ban);
    commands
}

/// Reacts to an event. `record` is the record of the server that
/// `event.server()` names, as the host found it.
pub fn handle(event: &Event, record: Option<&str>) -> (reaction: Reaction)
    ensures
        reacts(*event, record.deep_view(), reaction),
{
    match event {
        Event::Ready => Reaction::Register(ready()),
        Event::MemberJoined(join) => match guild_member_addition(join, record) {
            JoinAction::Ban { delete_message_days } => Reaction::Ban { delete_message_days },
            JoinAction::Nothing => Reaction::Nothing,
        },
        Event::CommandInvoked(invocation) => match interaction_create(invocation, record) {
            Some(reply) => Reaction::Respond(reply),
            None => Reaction::Nothing,
        },
    }
}

/// Whether the invocation is an administrator's order, given in a server,
/// to ban `name`.
pub open spec fn bans(invocation: CommandInvocation, name: Seq<char>) -> bool {
    &&& invocation.server is Some
    &&& invocation.permissions matches Some(flags) && is_administrator(flags)
    &&& invocation.name@ == ban_command_name()
    &&& invocation.arguments@.len() > 0
    &&& invocation.arguments@[0].resolved matches Some(ArgumentValue::Text(text)) && text@ == name
}

/// The record once the host has written what the reply carries.
pub open spec fn record_after_reply(
    record: Option<Seq<char>>,
    reply: Option<ReplyView>,
) -> Option<Seq<char>> {
    match reply {
        Some(ReplyView { record: Some(text), .. }) => Some(text),
        _ => record,
    }
}

/// A ban takes effect: once an administrator has banned a name, and the
/// host has written the record, a member who joins under that name is
/// banned, and the same order given again is answered with the news that
/// the name is on the list already, and writes nothing.
pub proof fn lemma_ban_takes_effect(
    invocation: CommandInvocation,
    record: Option<Seq<char>>,
    join: JoinEvent,
    name: Seq<char>,
)
    requires
        bans(invocation, name),
        storable(name),
        join.name@ == name,
    ensures
        interaction_spec(invocation, record) is Some,
        record_after_reply(record, interaction_spec(invocation, record)) == record_after(
            record,
            name,
        ),
        join_spec(join, record_after(record, name)) == (JoinAction::Ban {
            delete_message_days: DELETE_MESSAGE_DAYS,
        }),
        interaction_spec(invocation, record_after(record, name)) == Some(
            answer(AppendStatus::AlreadyPresent.message_for(name)),
        ),
{
    lemma_append_then_load(record, name);
    lemma_append_twice(record, name);
}

/// Nothing but an administrator's order to ban a new name writes a record:
/// every other invocation leaves all block lists as they are.
pub proof fn lemma_written_only_by_ban(invocation: CommandInvocation, record: Option<Seq<char>>)
    requires
        interaction_spec(invocation, record) matches Some(reply) && reply.record is Some,
    ensures
        exists|name: Seq<char>| #[trigger]
            bans(invocation, name) && !stored_names(record).contains(name),
{
    let text = invocation.arguments@[0].resolved->0->Text_0;
    assert(bans(invocation, text@));
}

/// No answer takes a name off a block list or moves it: whatever the
/// invocation, the names that the record held are still there afterwards,
/// in the same places.
pub proof fn lemma_names_stay(invocation: CommandInvocation, record: Option<Seq<char>>)
    ensures
        stored_names(record).is_prefix_of(
            stored_names(record_after_reply(record, interaction_spec(invocation, record))),
        ),
{
    if interaction_spec(invocation, record) matches Some(reply) && reply.record is Some {
        let text = invocation.arguments@[0].resolved->0->Text_0;
        lemma_append_never_removes(record, text@);
    }
}

} // verus!
