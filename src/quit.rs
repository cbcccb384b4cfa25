use vstd::prelude::*;

verus! {

/// The request, raised by the player, that the foreground loop stop. It is
/// edge-triggered: the poll that sees it raised also lowers it.
#[derive(Debug)]
pub struct QuitFlag {
    pub raised: bool,
}

/// What the foreground's event source does on a poll.
#[derive(Debug, Clone, Copy, PartialEq, Eq, Structural)]
pub enum PollOutcome {
    /// Hands the loop a stop event instead of reading input.
    Stop,
    /// Reads the next event from the terminal as usual.
    Forward,
}

impl QuitFlag {
    pub fn new() -> (r: QuitFlag)
        ensures
            !r.raised,
    {
        QuitFlag { raised: false }
    }

    pub fn raise(&mut self)
        ensures
            final(self).raised,
    {
        self.raised = true;
    }

    /// Whether the flag is up; it stays as it is.
    pub fn is_raised(&self) -> (r: bool)
        ensures
            r == self.raised,
    {
        self.raised
    }

    /// Whether the flag was up; it is down afterwards.
    pub fn take(&mut self) -> (r: bool)
        ensures
            r == old(self).raised,
            !final(self).raised,
    {
        let r = self.raised;
        self.raised = false;
        r
    }
}

/// One poll of the event source. `locked` says whether the shared flag
/// could be locked; when it could not, the poll stops the loop and `flag`
/// is not read.
pub fn next_event(locked: bool, flag: &mut QuitFlag) -> (r: PollOutcome)
    ensures
        r == (if !locked || old(flag).raised {
            PollOutcome::Stop
        } else {
            PollOutcome::Forward
        }),
        final(flag).raised == (!locked && old(flag).raised),
{
    if !locked {
        return PollOutcome::Stop;
    }
    if flag.take() {
        PollOutcome::Stop
    } else {
        PollOutcome::Forward
    }
}

/// The loop's own quit test, widened by the flag without lowering it;
/// `flag` is `None` when the flag could not be read, which counts as a
/// request to stop.
pub fn quit_test(inner: bool, flag: Option<&QuitFlag>) -> (r: bool)
    ensures
        r == (inner || match flag {
            Some(f) => f.raised,
            None => true,
        }),
{
    inner || match flag {
        Some(f) => f.is_raised(),
        None => true,
    }
}

} // verus!
