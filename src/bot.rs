//! The chat front end's decisions: which chat commands become broker
//! messages, and what the bot replies.
use vstd::prelude::*;
use crate::messages::{Exchanges, Messages};
use crate::record::text_field;

verus! {

pub const HELP_TEXT: &'static str =
    "/start <id> - Subscribe to notifications of a script.\n/list - Show a list of the currently active subscriptions.";

pub const LIST_TEXT: &'static str = "Checking for active notifications...";

pub const START_FAILED_TEXT: &'static str = "Could not subscribe. check if the ID of the script was passed";

pub const NO_SUBSCRIPTIONS_TEXT: &'static str = "There are not active subscriptions.\n";

pub const SUBSCRIPTIONS_TEXT: &'static str =
    "These are the currently active subscriptions. Click to unsubscribe.\n";

pub const UNSUBSCRIBED_TEXT: &'static str = "Unsubscribed successfully";

pub const SERVER_ERROR_TEXT: &'static str = "Server error. try again later";

/// Whether `uuid` reads the text as a UUID.
pub uninterp spec fn uuid_accepts(s: Seq<char>) -> bool;

/// Relies on `uuid::Uuid::parse_str`: whether the text is a UUID in one of
/// the forms that it reads.
#[verifier::external_body]
fn parses_as_uuid(s: &str) -> (r: bool)
    ensures
        r == uuid_accepts(s@),
{
    uuid::Uuid::parse_str(s).is_ok()
}

/// A command typed into the chat.
#[derive(Debug, PartialEq, Eq)]
pub enum BotCommand {
    /// Subscribe to the job whose id follows the command, if one does.
    Start { id: Option<String> },
    Help,
    List,
}

/// What the bot answers to a command that went through.
#[derive(Debug, PartialEq, Eq)]
pub enum BotResponse {
    Start { id: Option<String> },
    Help,
    List,
}

/// A command that could not be passed on.
#[derive(Debug, Clone, Copy, PartialEq, Eq, Structural)]
pub enum BotErrors {
    Start,
    Help,
    List,
}

/// The first space at or after `from`, or the end of the text.
pub open spec fn space_from(s: Seq<char>, from: int) -> int
    decreases s.len() - from,
{
    if from >= s.len() || from < 0 {
        s.len() as int
    } else if s[from] == ' ' {
        from
    } else {
        space_from(s, from + 1)
    }
}

/// The word of the text that starts at `start`: up to the next space.
pub open spec fn word_at(s: Seq<char>, start: int) -> Seq<char> {
    s.subrange(start, space_from(s, start))
}

/// The word after the first one, when the text has a space at all.
pub open spec fn argument(s: Seq<char>) -> Option<Seq<char>> {
    if space_from(s, 0) < s.len() {
        Some(word_at(s, space_from(s, 0) + 1))
    } else {
        None
    }
}

fn find_space(s: &str, len: usize, from: usize) -> (r: usize)
    requires
        len == s@.len(),
        from <= len,
    ensures
        r == space_from(s@, from as int),
        from <= r <= len,
{
    let mut i = from;
    while i < len && s.get_char(i) != ' '
        invariant
            len == s@.len(),
            from <= i <= len,
            space_from(s@, i as int) == space_from(s@, from as int),
        decreases len - i,
    {
        i = i + 1;
    }
    i
}

impl BotCommand {
    /// Reads a chat message: its first word names the command, and the
    /// word after it is the argument of `/start`. Any other first word is
    /// no command.
    pub fn parse(text: &str) -> (r: Option<BotCommand>)
        ensures
            word_at(text@, 0) == "/start"@ ==> (r matches Some(BotCommand::Start { id }) && match argument(
                text@,
            ) {
                Some(a) => id matches Some(i) && i@ == a,
                None => id is None,
            }),
            word_at(text@, 0) == "/help"@ ==> r == Some(BotCommand::Help),
            word_at(text@, 0) == "/list"@ ==> r == Some(BotCommand::List),
            word_at(text@, 0) != "/start"@ && word_at(text@, 0) != "/help"@ && word_at(text@, 0)
                != "/list"@ ==> r is None,
    {
        proof {
            reveal_strlit("/start");
            reveal_strlit("/help");
            reveal_strlit("/list");
            assert("/help"@ != "/start"@ && "/list"@ != "/start"@) by {
                assert("/help"@.len() != "/start"@.len());
                assert("/list"@.len() != "/start"@.len());
            }
            assert("/list"@ != "/help"@) by {
                assert("/list"@[1] != "/help"@[1]);
            }
        }
        let len = text.unicode_len();
        let end = find_space(text, len, 0);
        let first = String::from_str(text.substring_char(0, end));
        if first == text_field("/start") {
            let id = if end < len {
                let stop = find_space(text, len, end + 1);
                Some(String::from_str(text.substring_char(end + 1, stop)))
            } else {
                None
            };
            Some(BotCommand::Start { id })
        } else if first == text_field("/help") {
            Some(BotCommand::Help)
        } else if first == text_field("/list") {
            Some(BotCommand::List)
        } else {
            None
        }
    }

    /// The message that the command sends to the scheduler for the chat
    /// `chat_id`: a subscription for `/start` with an id, a listing request
    /// for `/list`, and none otherwise.
    pub fn message(&self, chat_id: &String) -> (r: Option<(Exchanges, Messages)>)
        ensures
            self matches BotCommand::Start { id: Some(id) } ==> (r matches Some(
                (Exchanges::Scheduler, Messages::Activate { id: i, chat_id: c }),
            ) && i@ == id@ && c@ == chat_id@),
            self is List ==> (r matches Some((Exchanges::Scheduler, Messages::List { chat_id: c }))
                && c@ == chat_id@),
            (self is Help || self matches BotCommand::Start { id: None }) ==> r is None,
    {
        match self {
            BotCommand::Start { id: Some(id) } => Some(
                (Exchanges::Scheduler, Messages::Activate { id: id.clone(), chat_id: chat_id.clone() }),
            ),
            BotCommand::List => Some((Exchanges::Scheduler, Messages::List { chat_id: chat_id.clone() })),
            _ => None,
        }
    }

    /// The answer to the command, given whether its message (if it has
    /// one) was published.
    pub fn response(self, published: bool) -> (r: Result<BotResponse, BotErrors>)
        ensures
            match self {
                BotCommand::Start { id: Some(id) } => if published {
                    r matches Ok(BotResponse::Start { id: Some(i) }) && i@ == id@
                } else {
                    r == Err::<BotResponse, BotErrors>(BotErrors::Start)
                },
                BotCommand::Start { id: None } => r matches Ok(BotResponse::Start { id: None }),
                BotCommand::Help => r matches Ok(BotResponse::Help),
                BotCommand::List => if published {
                    r matches Ok(BotResponse::List)
                } else {
                    r == Err::<BotResponse, BotErrors>(BotErrors::List)
                },
            },
    {
        match self {
            BotCommand::Start { id: Some(id) } => if published {
                Ok(BotResponse::Start { id: Some(id) })
            } else {
                Err(BotErrors::Start)
            },
            BotCommand::Start { id: None } => Ok(BotResponse::Start { id: None }),
            BotCommand::Help => Ok(BotResponse::Help),
            BotCommand::List => if published {
                Ok(BotResponse::List)
            } else {
                Err(BotErrors::List)
            },
        }
    }
}

impl BotResponse {
    /// The reply shown in the chat.
    pub fn text(&self) -> (r: String)
        ensures
            self matches BotResponse::Start { id: Some(id) } ==> r@
                == "Subscribed to notifications for script id = "@ + id@ + " successfully"@,
            self matches BotResponse::Start { id: None } ==> r@ == START_FAILED_TEXT@,
            self is Help ==> r@ == HELP_TEXT@,
            self is List ==> r@ == LIST_TEXT@,
    {
        match self {
            BotResponse::Start { id: Some(id) } => {
                let mut r = text_field("Subscribed to notifications for script id = ");
                r.append(id.as_str());
                r.append(" successfully");
                r
            },
            BotResponse::Start { id: None } => text_field(START_FAILED_TEXT),
            BotResponse::Help => text_field(HELP_TEXT),
            BotResponse::List => text_field(LIST_TEXT),
        }
    }
}

impl BotErrors {
    /// The reply shown in the chat.
    pub fn text(&self) -> (r: String)
        ensures
            *self == BotErrors::Start ==> r@ == "Server error while handling the start command"@,
            *self == BotErrors::Help ==> r@ == "Server error while handling the help command"@,
            *self == BotErrors::List ==> r@ == "Server error while handling the list command"@,
    {
        match self {
            BotErrors::Start => text_field("Server error while handling the start command"),
            BotErrors::Help => text_field("Server error while handling the help command"),
            BotErrors::List => text_field("Server error while handling the list command"),
        }
    }
}

/// The message that a click on a subscription button sends: the removal of
/// the job named by the button, when its data reads as a UUID.
pub fn unsubscribe(data: &String) -> (r: Option<(Exchanges, Messages)>)
    ensures
        uuid_accepts(data@) ==> (r matches Some((Exchanges::Scheduler, Messages::Delete { id }))
            && id@ == data@),
        !uuid_accepts(data@) ==> r is None,
{
    if parses_as_uuid(data.as_str()) {
        Some((Exchanges::Scheduler, Messages::Delete { id: data.clone() }))
    } else {
        None
    }
}

/// The chat message that reports a finished scrape.
pub fn notify_text(id: &String, url: &String) -> (r: String)
    ensures
        r@ == "Script executed successfully.\nurl: "@ + url@ + ".\nid: "@ + id@ + "\n"@,
{
    let mut r = text_field("Script executed successfully.\nurl: ");
    r.append(url.as_str());
    r.append(".\nid: ");
    r.append(id.as_str());
    r.append("\n");
    r
}

/// The reply to a listing: its text, and one button per job, labelled
/// with its url and id and carrying its id.
pub fn list_reply(records: &Vec<(String, String)>) -> (r: (String, Vec<(String, String)>))
    ensures
        records@.len() == 0 ==> r.0@ == NO_SUBSCRIPTIONS_TEXT@,
        records@.len() > 0 ==> r.0@ == SUBSCRIPTIONS_TEXT@,
        r.1@.len() == records@.len(),
        forall|k: int|
            0 <= k < records@.len() ==> {
                &&& (#[trigger] r.1@[k]).0@ == records@[k].0@ + " - "@ + records@[k].1@
                &&& r.1@[k].1@ == records@[k].1@
            },
{
    let mut buttons: Vec<(String, String)> = Vec::new();
    let mut i: usize = 0;
    while i < records.len()
        invariant
            i <= records@.len(),
            buttons@.len() == i,
            forall|k: int|
                0 <= k < i ==> {
                    &&& (#[trigger] buttons@[k]).0@ == records@[k].0@ + " - "@ + records@[k].1@
                    &&& buttons@[k].1@ == records@[k].1@
                },
        decreases records.len() - i,
    {
        let (url, id) = &records[i];
        let mut label = url.clone();
        label.append(" - ");
        label.append(id.as_str());
        buttons.push((label, id.clone()));
        i = i + 1;
    }
    let text = if records.len() == 0 {
        text_field(NO_SUBSCRIPTIONS_TEXT)
    } else {
        text_field(SUBSCRIPTIONS_TEXT)
    };
    (text, buttons)
}

} // verus!
