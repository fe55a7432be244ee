use vstd::prelude::*;
use crate::feed::FeedItem;
use crate::models::EpisodeItem;

verus! {

/// Body of a subscription request.
#[derive(Debug, Clone)]
pub struct PodcastRequest {
    pub feed_url: String,
}

/// Query of an episode listing: how many feed items to look at.
#[derive(Debug, Clone)]
pub struct EpisodeQuery {
    pub limit: Option<usize>,
}

/// Body of a request to save an episode, naming it by its GUID.
#[derive(Debug, Clone)]
pub struct EpisodeRequest {
    pub guid: String,
}

/// A page of episodes with its size.
#[derive(Debug, Clone)]
pub struct EpisodesResponse {
    pub items: Vec<EpisodeItem>,
    pub total: usize,
}

impl EpisodesResponse {
    /// The response listing `items`; `total` is their number.
    pub fn from_items(items: Vec<EpisodeItem>) -> (r: EpisodesResponse)
        ensures
            r.items == items,
            r.total == items@.len(),
    {
        let total = items.len();
        EpisodesResponse { items, total }
    }
}

/// Body of a feed listing request; `size` is the number of items to look at.
#[derive(Debug, Clone)]
pub struct FeedRequest {
    pub feed_url: String,
    pub size: Option<usize>,
}

impl FeedRequest {
    /// The number of items to look at: `size`, or 20 when it is not given.
    pub fn page_size(&self) -> (n: usize)
        ensures
            n == (match self.size {
                Some(s) => s,
                None => 20,
            }),
    {
        match self.size {
            Some(s) => s,
            None => 20,
        }
    }
}

/// Raw feed items with their number.
#[derive(Debug, Clone)]
pub struct ItemsResponse {
    pub items: Vec<FeedItem>,
    pub total: usize,
}

impl ItemsResponse {
    /// The response listing `items`; `total` is their number.
    pub fn from_items(items: Vec<FeedItem>) -> (r: ItemsResponse)
        ensures
            r.items == items,
            r.total == items@.len(),
    {
        let total = items.len();
        ItemsResponse { items, total }
    }
}

} // verus!
