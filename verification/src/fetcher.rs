//! The checkpoint fetcher: it polls for multisig checkpoints and publishes
//! each one that is newer than the last it published.

use vstd::prelude::*;
use crate::checkpoint::MultisigSignedCheckpoint;

verus! {

/// The polling interval, in seconds, where the settings give none that can
/// be read.
pub const DEFAULT_CHECKPOINT_POLLING_INTERVAL: u64 = 5;

/// The state of the fetcher between polls.
#[derive(Clone, Copy, Debug)]
pub struct CheckpointFetcher {
    signed_checkpoint_polling_interval: u64,
    last_published_index: Option<u32>,
}

/// The lowest index that is newer than what was published last: nothing
/// where the highest index there is was published.
pub open spec fn next_minimum(last: Option<u32>) -> Option<u32> {
    match last {
        None => Some(0u32),
        Some(i) => if i < u32::MAX {
            Some((i + 1) as u32)
        } else {
            None
        },
    }
}

/// Whether a bundle at `index` is newer than what was published last.
pub open spec fn is_news(last: Option<u32>, index: u32) -> bool {
    last matches Some(i) ==> index > i
}

impl CheckpointFetcher {
    /// A fetcher that has published nothing yet.
    pub fn new(signed_checkpoint_polling_interval: u64) -> (fetcher: CheckpointFetcher)
        ensures
            fetcher.last_published() is None,
            fetcher.interval() == signed_checkpoint_polling_interval,
    {
        CheckpointFetcher { signed_checkpoint_polling_interval, last_published_index: None }
    }

    /// The index of the bundle published last.
    pub closed spec fn last_published(&self) -> Option<u32> {
        self.last_published_index
    }

    /// The seconds between two polls.
    pub closed spec fn interval(&self) -> u64 {
        self.signed_checkpoint_polling_interval
    }

    /// The index of the bundle published last.
    pub fn last_published_index(&self) -> (last: Option<u32>)
        ensures
            last == self.last_published(),
    {
        self.last_published_index
    }

    /// The seconds to wait between two polls.
    pub fn polling_interval(&self) -> (secs: u64)
        ensures
            secs == self.interval(),
    {
        self.signed_checkpoint_polling_interval
    }

    /// The minimum index to ask the syncer for on the next poll. `None`
    /// means that no newer index exists, and nothing needs asking.
    pub fn minimum_index(&self) -> (min: Option<u32>)
        ensures
            min == next_minimum(self.last_published()),
    {
        match self.last_published_index {
            None => Some(0),
            Some(i) => if i < u32::MAX {
                Some(i + 1)
            } else {
                None
            },
        }
    }

    /// Takes what a poll found and says whether to publish it. A bundle is
    /// published, and remembered as the last one, only if it is newer than
    /// the last one published; the published index never goes back.
    pub fn on_poll(&mut self, found: &Option<MultisigSignedCheckpoint>) -> (publish: bool)
        ensures
            publish == (found matches Some(bundle) && is_news(
                old(self).last_published(),
                bundle.checkpoint.index,
            )),
            final(self).last_published() == after_poll(
                old(self).last_published(),
                match *found {
                    Some(bundle) => Some(bundle.checkpoint.index),
                    None => None,
                },
            ),
            final(self).interval() == old(self).interval(),
    {
        match found {
            Some(bundle) => {
                let index = bundle.checkpoint.index;
                let news = match self.last_published_index {
                    None => true,
                    Some(i) => index > i,
                };
                if news {
                    self.last_published_index = Some(index);
                }
                news
            },
            None => false,
        }
    }
}

/// The index published last, after a poll that found a bundle at `found`,
/// or nothing.
pub open spec fn after_poll(last: Option<u32>, found: Option<u32>) -> Option<u32> {
    match found {
        Some(index) => if is_news(last, index) {
            Some(index)
        } else {
            last
        },
        None => last,
    }
}

/// The index published last after a sequence of polls, the first of them
/// first.
pub open spec fn after_polls(last: Option<u32>, found: Seq<Option<u32>>) -> Option<u32>
    decreases found.len(),
{
    if found.len() == 0 {
        last
    } else {
        after_poll(after_polls(last, found.drop_last()), found.last())
    }
}

/// Whether `a` is no newer than `b`.
pub open spec fn no_newer(a: Option<u32>, b: Option<u32>) -> bool {
    match (a, b) {
        (None, _) => true,
        (Some(_), None) => false,
        (Some(x), Some(y)) => x <= y,
    }
}

/// Whatever the polls find, the index published last never goes back: a
/// reader of the channel never sees an older checkpoint after a newer one.
pub proof fn law_published_index_never_goes_back(last: Option<u32>, found: Seq<Option<u32>>)
    ensures
        no_newer(last, after_polls(last, found)),
    decreases found.len(),
{
    if found.len() > 0 {
        law_published_index_never_goes_back(last, found.drop_last());
    }
}

} // verus!
