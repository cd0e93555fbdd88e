//! What travels over the broker: its exchanges and its messages.
use vstd::prelude::*;

verus! {

/// The named channels of the broker.
#[derive(Debug, Clone, Copy, PartialEq, Eq, Hash, Structural)]
pub enum Exchanges {
    Scheduler,
    Scraper,
    Bot,
}

impl Exchanges {
    /// The name under which the exchange is declared.
    pub fn name(&self) -> (r: &'static str)
        ensures
            r@ == exchange_name(*self),
    {
        match self {
            Exchanges::Scheduler => "scheduler",
            Exchanges::Scraper => "scraper",
            Exchanges::Bot => "bot",
        }
    }
}

pub open spec fn exchange_name(e: Exchanges) -> Seq<char> {
    match e {
        Exchanges::Scheduler => "scheduler"@,
        Exchanges::Scraper => "scraper"@,
        Exchanges::Bot => "bot"@,
    }
}

/// The messages exchanged by the intake layer, the scheduler, the scraper
/// and the bot.
#[allow(inconsistent_fields)]
#[derive(Debug, Clone, PartialEq, Eq)]
pub enum Messages {
    /// A new job from the intake layer.
    Create { id: String, url: String, script: String, interval: u64 },
    /// A subscriber drops a job.
    Delete { id: String },
    /// A subscriber attaches to a job.
    Activate { id: String, chat_id: String },
    /// A job is due: the scraper runs it.
    Scrape { id: String, chat_id: Option<String>, url: String, script: String },
    /// The scraper ran a job.
    Notify { id: String, chat_id: String, url: String },
    /// A subscriber asks for its jobs.
    List { chat_id: String },
    /// The jobs of a subscriber, as pairs of url and id.
    ListResponse { records: Vec<(String, String)>, chat_id: String },
}

} // verus!
