//! The output broker's rules: which messages are shown at which verbosity, how summaries are
//! held back and flushed, and the control messages that flush summaries or set the verbosity.
use vstd::prelude::*;
use vstd::string::*;
use crate::text::{text_eq, starts_with, starts_with_text, texts, parse_u64, parsed_u64};

verus! {

/// How important a message is.
#[derive(Clone, Copy, Debug, PartialEq, Eq)]
pub enum OutputLevel {
    /// Always shown.
    Error,
    /// Shown at every level, held back until the summaries are flushed.
    Summary,
    /// Shown from level 1.
    Info,
    /// Shown from level 2.
    Debug,
    /// Shown from level 2.
    Trace,
}

/// The most summaries held back; the oldest goes when one more arrives.
pub open spec fn summary_limit() -> int {
    100
}

/// Whether a message of the level is shown at the verbosity.
pub open spec fn shown(level: OutputLevel, verbosity: u8) -> bool {
    match level {
        OutputLevel::Error => true,
        OutputLevel::Summary => true,
        OutputLevel::Info => verbosity >= 1,
        OutputLevel::Debug => verbosity >= 2,
        OutputLevel::Trace => verbosity >= 2,
    }
}

/// What `str::parse::<u8>` gives for a text.
pub open spec fn parsed_u8(s: Seq<char>) -> Option<u8> {
    match parsed_u64(s) {
        Some(v) => if v <= 255 {
            Some(v as u8)
        } else {
            None
        },
        None => None,
    }
}

/// The control message that flushes the summaries.
pub open spec fn flush_command() -> Seq<char> {
    "FLUSH_SUMMARIES"@
}

/// The start of the control message that sets the verbosity.
pub open spec fn verbosity_command() -> Seq<char> {
    "SET_VERBOSITY_"@
}

/// Whether a message of the level is shown at the verbosity.
pub fn should_show(level: OutputLevel, verbosity: u8) -> (r: bool)
    ensures
        r == shown(level, verbosity),
{
    match level {
        OutputLevel::Error => true,
        OutputLevel::Summary => true,
        OutputLevel::Info => verbosity >= 1,
        OutputLevel::Debug => verbosity >= 2,
        OutputLevel::Trace => verbosity >= 2,
    }
}

/// What the broker does with a message.
#[derive(Clone, Debug)]
pub enum BrokerAction {
    /// Print these held-back summaries as one block (nothing when empty).
    Flush(Vec<String>),
    /// The verbosity is now this level.
    VerbositySet(u8),
    /// Print the message now.
    Print(String),
    /// The summary is held back.
    Queued,
    /// Nothing is printed.
    Ignored,
}

/// The broker's state: the verbosity and the summaries held back, oldest first.
pub struct BrokerCore {
    verbosity_level: u8,
    pending_summaries: Vec<String>,
}

impl BrokerCore {
    /// The verbosity level.
    pub closed spec fn level(&self) -> u8 {
        self.verbosity_level
    }

    /// The summaries held back, oldest first.
    pub closed spec fn pending(&self) -> Seq<Seq<char>> {
        texts(self.pending_summaries@)
    }

    /// No more summaries are held back than the limit.
    pub open spec fn wf(&self) -> bool {
        self.pending().len() <= summary_limit()
    }

    /// A broker at the verbosity, holding nothing back.
    pub fn new(verbosity_level: u8) -> (r: Self)
        ensures
            r.wf(),
            r.level() == verbosity_level,
            r.pending() == Seq::<Seq<char>>::empty(),
    {
        let r = BrokerCore { verbosity_level, pending_summaries: Vec::new() };
        assert(r.pending() =~= Seq::<Seq<char>>::empty());
        r
    }

    /// The verbosity level.
    pub fn verbosity_level(&self) -> (r: u8)
        ensures
            r == self.level(),
    {
        self.verbosity_level
    }

    /// How many summaries are held back.
    pub fn pending_count(&self) -> (r: usize)
        ensures
            r == self.pending().len(),
    {
        self.pending_summaries.len()
    }

    /// Hands out the summaries held back, oldest first, and holds nothing back any more.
    pub fn flush(&mut self) -> (r: Vec<String>)
        ensures
            texts(r@) == old(self).pending(),
            final(self).pending() == Seq::<Seq<char>>::empty(),
            final(self).level() == old(self).level(),
            final(self).wf(),
    {
        let mut out: Vec<String> = Vec::new();
        std::mem::swap(&mut out, &mut self.pending_summaries);
        assert(self.pending() =~= Seq::<Seq<char>>::empty());
        out
    }

    /// Handles a message (see [`handled`]).
    pub fn handle(&mut self, level: OutputLevel, message: String) -> (r: BrokerAction)
        requires
            old(self).wf(),
        ensures
            final(self).wf(),
            handled(old(self).level(), old(self).pending(), level, message@, final(self).level(), final(self).pending(), r),
    {
        proof {
            reveal_strlit("FLUSH_SUMMARIES");
            reveal_strlit("SET_VERBOSITY_");
        }
        if text_eq(message.as_str(), "FLUSH_SUMMARIES") {
            return BrokerAction::Flush(self.flush());
        }
        if starts_with(message.as_str(), "SET_VERBOSITY_") {
            let n = message.as_str().unicode_len();
            let rest = message.as_str().substring_char(14, n);
            assert(rest@ =~= message@.skip(14));
            return match parse_u64(rest) {
                Some(v) => if v <= 255 {
                    self.verbosity_level = v as u8;
                    BrokerAction::VerbositySet(v as u8)
                } else {
                    BrokerAction::Ignored
                },
                None => BrokerAction::Ignored,
            };
        }
        if !should_show(level, self.verbosity_level) {
            return BrokerAction::Ignored;
        }
        match level {
            OutputLevel::Summary => {
                let ghost before = self.pending();
                self.pending_summaries.push(message);
                assert(self.pending() =~= before.push(message@));
                if self.pending_summaries.len() > 100 {
                    let ghost full = self.pending();
                    let _oldest = self.pending_summaries.remove(0);
                    assert(self.pending() =~= full.drop_first());
                }
                BrokerAction::Queued
            },
            _ => BrokerAction::Print(message),
        }
    }
}

/// What handling a message does, from level `v0` and held-back summaries `p0` to `v1` and
/// `p1`, answering `r`: the flush command hands out and clears the summaries; a message
/// starting with the verbosity command sets the level to the number after it when that is a
/// `u8`, else changes nothing; other messages not shown at the level are dropped; shown
/// summaries are held back, the oldest dropped beyond the limit; other shown messages are
/// printed.
pub open spec fn handled(
    v0: u8,
    p0: Seq<Seq<char>>,
    level: OutputLevel,
    msg: Seq<char>,
    v1: u8,
    p1: Seq<Seq<char>>,
    r: BrokerAction,
) -> bool {
    if msg == flush_command() {
        &&& p1 == Seq::<Seq<char>>::empty()
        &&& v1 == v0
        &&& r matches BrokerAction::Flush(out) && texts(out@) == p0
    } else if starts_with_text(msg, verbosity_command()) {
        &&& p1 == p0
        &&& match parsed_u8(msg.skip(14)) {
            Some(n) => v1 == n && r == BrokerAction::VerbositySet(n),
            None => v1 == v0 && r is Ignored,
        }
    } else if !shown(level, v0) {
        p1 == p0 && v1 == v0 && r is Ignored
    } else if level == OutputLevel::Summary {
        &&& v1 == v0
        &&& r is Queued
        &&& p1 == if p0.len() + 1 > summary_limit() {
            p0.push(msg).drop_first()
        } else {
            p0.push(msg)
        }
    } else {
        &&& p1 == p0
        &&& v1 == v0
        &&& r matches BrokerAction::Print(m) && m@ == msg
    }
}

/// Errors and summaries are shown at every verbosity.
pub proof fn law_errors_and_summaries_always_shown(verbosity: u8)
    ensures
        shown(OutputLevel::Error, verbosity),
        shown(OutputLevel::Summary, verbosity),
{
}

/// Raising the verbosity hides nothing that was shown.
pub proof fn law_verbosity_monotone(level: OutputLevel, low: u8, high: u8)
    requires
        low <= high,
        shown(level, low),
    ensures
        shown(level, high),
{
}

/// A summary that is handled is held back as the newest, and no more than the limit of
/// summaries is ever held back.
pub proof fn law_summary_held_newest(
    v0: u8,
    p0: Seq<Seq<char>>,
    msg: Seq<char>,
    v1: u8,
    p1: Seq<Seq<char>>,
    r: BrokerAction,
)
    requires
        msg != flush_command(),
        !starts_with_text(msg, verbosity_command()),
        p0.len() <= summary_limit(),
        handled(v0, p0, OutputLevel::Summary, msg, v1, p1, r),
    ensures
        p1.len() > 0,
        p1.last() == msg,
        p1.len() <= summary_limit(),
{
}

/// Setting the verbosity with the command for a number up to 255 sets exactly that level.
pub proof fn law_set_verbosity(v0: u8, p0: Seq<Seq<char>>, level: OutputLevel, digits: Seq<char>, n: u8, v1: u8, p1: Seq<Seq<char>>, r: BrokerAction)
    requires
        parsed_u8(digits) == Some(n),
        handled(v0, p0, level, verbosity_command() + digits, v1, p1, r),
    ensures
        v1 == n,
        p1 == p0,
        r == BrokerAction::VerbositySet(n),
{
    reveal_strlit("FLUSH_SUMMARIES");
    reveal_strlit("SET_VERBOSITY_");
    let msg = verbosity_command() + digits;
    assert(msg.subrange(0, 14) =~= verbosity_command());
    assert(msg.skip(14) =~= digits);
    assert(msg != flush_command()) by {
        assert(msg[0] == 'S');
        assert(flush_command()[0] == 'F');
    }
}

} // verus!
