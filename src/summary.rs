//! End-of-run tallies: how many posts ended in each outcome.
use vstd::prelude::*;
use crate::error::{Error, Fault, TweetFailReason};
use crate::pipeline::PostOutcome;
use crate::records::Tweet;

verus! {

pub open spec fn bump(x: u64) -> u64 {
    if x < u64::MAX {
        (x + 1) as u64
    } else {
        x
    }
}

fn inc(x: u64) -> (r: u64)
    ensures
        r == bump(x),
{
    if x < u64::MAX {
        x + 1
    } else {
        x
    }
}

/// Counts per outcome; each count stops at `u64::MAX`.
#[derive(Clone, Copy, Debug, PartialEq, Eq, Structural)]
pub struct Tally {
    pub success: u64,
    pub account_suspended: u64,
    pub account_not_existed: u64,
    pub restricted: u64,
    pub deleted: u64,
    pub medias: u64,
}

/// The tally with one more post of the given terminal reason.
pub open spec fn with_reason(t: Tally, reason: TweetFailReason) -> Tally {
    match reason {
        TweetFailReason::Restricted => Tally { restricted: bump(t.restricted), ..t },
        TweetFailReason::Deleted => Tally { deleted: bump(t.deleted), ..t },
        TweetFailReason::AccountSuspended => Tally { account_suspended: bump(t.account_suspended), ..t },
        TweetFailReason::AccountNotExisted => Tally { account_not_existed: bump(t.account_not_existed), ..t },
    }
}

/// The terminal reason that a stored failure reads back as.
pub open spec fn stored_reason(f: Fault) -> Option<TweetFailReason> {
    match f {
        Fault::NotExists => Some(TweetFailReason::Deleted),
        Fault::Restricted => Some(TweetFailReason::Restricted),
        Fault::AccountSuspended => Some(TweetFailReason::AccountSuspended),
        Fault::AccountNotExisted => Some(TweetFailReason::AccountNotExisted),
        _ => None,
    }
}

impl Tally {
    pub open spec fn zero() -> Tally {
        Tally { success: 0, account_suspended: 0, account_not_existed: 0, restricted: 0, deleted: 0, medias: 0 }
    }

    /// The tally after counting one processed post; a retried post is not counted.
    pub open spec fn counted(self, outcome: PostOutcome) -> Tally {
        match outcome {
            PostOutcome::Stored(_) => Tally { success: bump(self.success), ..self },
            PostOutcome::Terminal(reason) => with_reason(self, reason),
            PostOutcome::Retry => self,
        }
    }

    pub fn new() -> (r: Self)
        ensures
            r == Tally::zero(),
    {
        Tally { success: 0, account_suspended: 0, account_not_existed: 0, restricted: 0, deleted: 0, medias: 0 }
    }

    fn add_reason(&mut self, reason: TweetFailReason)
        ensures
            *final(self) == with_reason(*old(self), reason),
    {
        match reason {
            TweetFailReason::Restricted => self.restricted = inc(self.restricted),
            TweetFailReason::Deleted => self.deleted = inc(self.deleted),
            TweetFailReason::AccountSuspended => self.account_suspended = inc(self.account_suspended),
            TweetFailReason::AccountNotExisted => self.account_not_existed = inc(self.account_not_existed),
        }
    }

    /// Counts the outcome of one processed post; a retried post is not counted.
    pub fn record(&mut self, outcome: &PostOutcome)
        ensures
            *final(self) == old(self).counted(*outcome),
    {
        match outcome {
            PostOutcome::Stored(_) => self.success = inc(self.success),
            PostOutcome::Terminal(reason) => self.add_reason(*reason),
            PostOutcome::Retry => {},
        }
    }

    /// Counts what the tweet store holds for one listed post: a post and its
    /// number of media, or its terminal failure. Returns false for any other
    /// error, which the tally does not count.
    pub fn record_lookup(&mut self, lookup: &Result<Tweet, Error>, media_count: u64) -> (r: bool)
        ensures
            match lookup {
                Ok(_) => r && *final(self) == Tally {
                    success: bump(old(self).success),
                    medias: if old(self).medias as int + media_count as int <= u64::MAX {
                        (old(self).medias + media_count) as u64
                    } else {
                        u64::MAX
                    },
                    ..*old(self)
                },
                Err(e) => match stored_reason(e.fault()) {
                    Some(reason) => r && *final(self) == with_reason(*old(self), reason),
                    None => !r && *final(self) == *old(self),
                },
            },
    {
        match lookup {
            Ok(_) => {
                self.success = inc(self.success);
                self.medias = self.medias.saturating_add(media_count);
                true
            },
            Err(Error::TweetNotExists) => {
                self.add_reason(TweetFailReason::Deleted);
                true
            },
            Err(Error::TweetRestricted) => {
                self.add_reason(TweetFailReason::Restricted);
                true
            },
            Err(Error::TwitterAccountSuspended) => {
                self.add_reason(TweetFailReason::AccountSuspended);
                true
            },
            Err(Error::TwitterAccountNotExisted) => {
                self.add_reason(TweetFailReason::AccountNotExisted);
                true
            },
            Err(_) => false,
        }
    }

    /// All posts counted, media aside.
    pub fn total(&self) -> (r: u64)
        ensures
            r as int == if self.success + self.account_suspended + self.account_not_existed
                + self.restricted + self.deleted <= u64::MAX {
                self.success + self.account_suspended + self.account_not_existed + self.restricted
                    + self.deleted
            } else {
                u64::MAX as int
            },
    {
        self.success.saturating_add(self.account_suspended).saturating_add(
            self.account_not_existed,
        ).saturating_add(self.restricted).saturating_add(self.deleted)
    }
}

} // verus!
