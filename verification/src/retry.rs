//! The discovery of an exchange's symbols: a fixed number of attempts with a
//! fixed wait between them.

use vstd::prelude::*;
use crate::session::CrawlError;

verus! {

/// How often the list of symbols is asked for, and how long to wait between
/// two attempts.
#[derive(Clone, Copy, Debug, PartialEq, Eq, Structural)]
pub struct RetryPolicy {
    /// The number of attempts that may be made in all, the first included.
    pub attempts: u32,
    /// The wait between two attempts, in milliseconds.
    pub delay: u64,
}

/// What follows an attempt.
#[derive(Debug)]
pub enum RetryStep {
    /// The symbols are there.
    Done(Vec<String>),
    /// Wait for `after` milliseconds, then ask again.
    Again { after: u64 },
}

/// Whether an attempt brought a list that can be used: one that is there and
/// is not empty.
pub open spec fn usable(fetched: Option<Vec<String>>) -> bool {
    fetched matches Some(symbols) && symbols@.len() > 0
}

/// Decides what follows the attempt number `made`, which brought `fetched`
/// (`None` where it failed). A list that is not empty is taken as it is. Any
/// other outcome is a failure: it is followed by another attempt while fewer
/// than the policy's number have been made, and by the discovery error after
/// that.
pub fn after_attempt(policy: RetryPolicy, made: u32, fetched: Option<Vec<String>>) -> (step: Result<
    RetryStep,
    CrawlError,
>)
    ensures
        match step {
            Ok(RetryStep::Done(symbols)) => fetched == Some(symbols) && symbols@.len() > 0,
            Ok(RetryStep::Again { after }) => !usable(fetched) && made < policy.attempts && after
                == policy.delay,
            Err(error) => !usable(fetched) && made >= policy.attempts && error
                == CrawlError::Discovery,
        },
{
    match fetched {
        Some(symbols) => {
            if symbols.len() > 0 {
                return Ok(RetryStep::Done(symbols));
            }
        },
        None => {},
    }
    if made < policy.attempts {
        Ok(RetryStep::Again { after: policy.delay })
    } else {
        Err(CrawlError::Discovery)
    }
}

} // verus!
