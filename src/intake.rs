//! Validation of job-creation requests at the intake layer.
use vstd::prelude::*;
use crate::messages::Messages;

verus! {

pub const MIN_INTERVAL: u64 = 5;

/// A week, in seconds.
pub const MAX_INTERVAL: u64 = 604_800;

pub const INVALID_INTERVAL: &'static str =
    "Interval must be in range 5-604,800 (week in seconds) and a multiple of 5";

pub const INVALID_URL: &'static str = "URL must not be empty and should be valid";

pub const INVALID_SCRIPT: &'static str = "Script can't be empty";

pub const SERVER_ERROR_REPLY: &'static str = "Internal server error. try again.";

/// Why a request was not accepted.
#[derive(Debug)]
pub enum ApiErrors {
    /// The broker failed; its error as text.
    Server(String),
    /// The request breaks these rules, in the order they are checked.
    Validation(Vec<&'static str>),
}

/// A request to create a scrape job.
#[derive(Debug, Clone)]
pub struct CreateRequest {
    pub url: String,
    pub interval: u64,
    pub script: String,
}

pub open spec fn interval_ok(interval: u64) -> bool {
    interval % 5 == 0 && MIN_INTERVAL <= interval <= MAX_INTERVAL
}

/// The rules that a request breaks, in order: url, interval, script.
pub open spec fn violations(url: Seq<char>, interval: u64, script: Seq<char>) -> Seq<Seq<char>> {
    let a = if url.len() == 0 {
        seq![INVALID_URL@]
    } else {
        Seq::empty()
    };
    let b = if !interval_ok(interval) {
        seq![INVALID_INTERVAL@]
    } else {
        Seq::empty()
    };
    let c = if script.len() == 0 {
        seq![INVALID_SCRIPT@]
    } else {
        Seq::empty()
    };
    a + b + c
}

/// The texts joined, with `sep` between each two.
pub open spec fn joined(parts: Seq<Seq<char>>, sep: Seq<char>) -> Seq<char>
    decreases parts.len(),
{
    if parts.len() == 0 {
        Seq::empty()
    } else if parts.len() == 1 {
        parts[0]
    } else {
        joined(parts.drop_last(), sep) + sep + parts.last()
    }
}

fn join(parts: &Vec<&'static str>, sep: &str) -> (r: String)
    ensures
        r@ == joined(parts.deep_view(), sep@),
{
    let ghost all = parts.deep_view();
    let mut out = String::new();
    let mut i: usize = 0;
    while i < parts.len()
        invariant
            i <= parts@.len(),
            all == parts.deep_view(),
            out@ == joined(all.subrange(0, i as int), sep@),
        decreases parts.len() - i,
    {
        assert(all.subrange(0, i + 1).drop_last() =~= all.subrange(0, i as int));
        if i > 0 {
            out.append(sep);
        }
        out.append(parts[i]);
        assert(all[i as int] == parts@[i as int]@);
        proof {
            if i == 0 {
                assert(all.subrange(0, 1)[0] == all[0]);
                assert(out@ =~= all[0]);
            }
        }
        i = i + 1;
    }
    assert(all.subrange(0, parts@.len() as int) =~= all);
    out
}

impl ApiErrors {
    /// The HTTP status that answers the error.
    pub fn status_code(&self) -> (r: u16)
        ensures
            self is Server ==> r == 500,
            self is Validation ==> r == 422,
    {
        match self {
            ApiErrors::Server(_) => 500,
            ApiErrors::Validation(_) => 422,
        }
    }

    /// The text that the reply carries: a fixed text for a server error,
    /// the broken rules joined by ". " for a validation error.
    pub fn reply_text(&self) -> (r: String)
        ensures
            self is Server ==> r@ == SERVER_ERROR_REPLY@,
            self matches ApiErrors::Validation(v) ==> r@ == joined(v.deep_view(), ". "@),
    {
        match self {
            ApiErrors::Server(_) => String::from_str(SERVER_ERROR_REPLY),
            ApiErrors::Validation(v) => join(v, ". "),
        }
    }

    /// The error described on lines: the broken rules one per line, or the
    /// broker's error after a fixed prefix.
    pub fn message(&self) -> (r: String)
        ensures
            self matches ApiErrors::Server(e) ==> r@ == "Internal server error. "@ + e@,
            self matches ApiErrors::Validation(v) ==> r@ == joined(v.deep_view(), "\n"@),
    {
        match self {
            ApiErrors::Server(e) => {
                let mut r = String::from_str("Internal server error. ");
                r.append(e.as_str());
                r
            },
            ApiErrors::Validation(v) => join(v, "\n"),
        }
    }
}

impl CreateRequest {
    pub fn new(url: String, interval: u64, script: String) -> (r: CreateRequest)
        ensures
            r.url@ == url@,
            r.interval == interval,
            r.script@ == script@,
    {
        CreateRequest { url, interval, script }
    }

    /// Accepts a request with a url, a script, and an interval that is a
    /// multiple of five seconds between five seconds and a week; otherwise
    /// lists every rule it breaks.
    pub fn validate(&self) -> (r: Result<(), ApiErrors>)
        ensures
            r is Ok <==> violations(self.url@, self.interval, self.script@).len() == 0,
            r matches Err(e) ==> (e matches ApiErrors::Validation(v) && v.deep_view() == violations(
                self.url@,
                self.interval,
                self.script@,
            )),
    {
        let mut errors: Vec<&'static str> = Vec::new();
        if self.url.unicode_len() == 0 {
            errors.push(INVALID_URL);
        }
        let ghost after_url = errors.deep_view();
        if self.interval % 5 != 0 || !(MIN_INTERVAL <= self.interval && self.interval <= MAX_INTERVAL) {
            errors.push(INVALID_INTERVAL);
        }
        let ghost after_interval = errors.deep_view();
        if self.script.unicode_len() == 0 {
            errors.push(INVALID_SCRIPT);
        }
        let ghost v = violations(self.url@, self.interval, self.script@);
        assert(errors.deep_view() =~= v);
        if errors.len() != 0 {
            return Err(ApiErrors::Validation(errors));
        }
        Ok(())
    }

    /// The message that hands an accepted request to the scheduler, under
    /// the id that the intake layer gave it.
    pub fn into_message(self, id: String) -> (r: Messages)
        ensures
            r matches Messages::Create { id: i, url, script, interval } && i@ == id@ && url@ == self.url@
                && script@ == self.script@ && interval == self.interval,
    {
        Messages::Create { id, url: self.url, script: self.script, interval: self.interval }
    }
}

} // verus!
