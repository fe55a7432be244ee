use vstd::prelude::*;
use crate::error::AppError;
use crate::ids::{deterministic_hash, generate_deterministic_hash};
use crate::models::{EpisodeItem, PodcastMetadata};

verus! {

/// What the service reads of one `<item>` of an RSS feed.
#[derive(Debug, Clone)]
pub struct FeedItem {
    pub title: Option<String>,
    pub link: Option<String>,
    pub enclosure_url: Option<String>,
    pub guid: Option<String>,
    pub pub_date: Option<String>,
}

/// What the service reads of an RSS channel: its own fields and its items, in order.
#[derive(Debug, Clone)]
pub struct FeedChannel {
    pub title: String,
    pub description: String,
    pub image_url: Option<String>,
    pub author: Option<String>,
    pub items: Vec<FeedItem>,
}

pub struct FeedItemView {
    pub title: Option<Seq<char>>,
    pub link: Option<Seq<char>>,
    pub enclosure_url: Option<Seq<char>>,
    pub guid: Option<Seq<char>>,
    pub pub_date: Option<Seq<char>>,
}

pub struct FeedChannelView {
    pub title: Seq<char>,
    pub description: Seq<char>,
    pub image_url: Option<Seq<char>>,
    pub author: Option<Seq<char>>,
    pub items: Seq<FeedItemView>,
}

pub open spec fn opt_view(s: Option<String>) -> Option<Seq<char>> {
    match s {
        Some(t) => Some(t@),
        None => None,
    }
}

impl View for FeedItem {
    type V = FeedItemView;

    open spec fn view(&self) -> FeedItemView {
        FeedItemView {
            title: opt_view(self.title),
            link: opt_view(self.link),
            enclosure_url: opt_view(self.enclosure_url),
            guid: opt_view(self.guid),
            pub_date: opt_view(self.pub_date),
        }
    }
}

impl View for FeedChannel {
    type V = FeedChannelView;

    open spec fn view(&self) -> FeedChannelView {
        FeedChannelView {
            title: self.title@,
            description: self.description@,
            image_url: opt_view(self.image_url),
            author: opt_view(self.author),
            items: self.items@.map_values(|i: FeedItem| i@),
        }
    }
}

/// The channel that `rss::Channel::read_from` reads from these bytes, as the fields the
/// service uses (channel title, description, image URL, iTunes author; per item the
/// title, link, enclosure URL, GUID value and publication date); `None` when it fails.
pub uninterp spec fn parsed_feed(xml: Seq<u8>) -> Option<FeedChannelView>;

/// Reads an RSS document with `rss::Channel::read_from` and copies out the fields the
/// service uses; the result is named by `parsed_feed`.
#[verifier::external_body]
fn read_feed(xml: &[u8]) -> (r: Option<FeedChannel>)
    ensures
        r matches Some(c) ==> parsed_feed(xml@) == Some(c@),
        r is None ==> parsed_feed(xml@) is None,
{
    let c = rss::Channel::read_from(xml).ok()?;
    Some(FeedChannel {
        title: c.title,
        description: c.description,
        image_url: c.image.map(|i| i.url),
        author: c.itunes_ext.and_then(|x| x.author),
        items: c.items.into_iter().map(|i| FeedItem {
            title: i.title,
            link: i.link,
            enclosure_url: i.enclosure.map(|e| e.url),
            guid: i.guid.map(|g| g.value),
            pub_date: i.pub_date,
        }).collect(),
    })
}

/// The episode entry for a feed item: `None` when it has no audio enclosure. Without a
/// title it is called "Unknown Episode"; without a GUID it gets one derived from its audio URL.
pub open spec fn episode_of(item: FeedItemView) -> Option<(Seq<char>, Seq<char>, Seq<char>, Option<Seq<char>>)> {
    match item.enclosure_url {
        None => None,
        Some(url) => Some(
            (
                match item.guid {
                    Some(g) => g,
                    None => deterministic_hash(url),
                },
                match item.title {
                    Some(t) => t,
                    None => "Unknown Episode"@,
                },
                url,
                item.pub_date,
            ),
        ),
    }
}

/// (guid, title, audio URL, publish date) of an episode entry.
pub open spec fn episode_item_view(e: EpisodeItem) -> (Seq<char>, Seq<char>, Seq<char>, Option<Seq<char>>) {
    (e.guid@, e.title@, e.audio_url@, opt_view(e.publish_date))
}

/// Entries of the items, in order, skipping items without audio.
pub open spec fn episodes_of(items: Seq<FeedItemView>) -> Seq<(Seq<char>, Seq<char>, Seq<char>, Option<Seq<char>>)>
    decreases items.len(),
{
    if items.len() == 0 {
        seq![]
    } else {
        let prev = episodes_of(items.drop_last());
        match episode_of(items.last()) {
            Some(e) => prev.push(e),
            None => prev,
        }
    }
}

/// Index of the first item whose entry has this GUID.
pub open spec fn first_with_guid(items: Seq<FeedItemView>, guid: Seq<char>, i: int) -> bool {
    0 <= i < items.len() && (episode_of(items[i]) matches Some(e) && e.0 == guid) && forall|j: int|
        0 <= j < i ==> !(episode_of(#[trigger] items[j]) matches Some(e) && e.0 == guid)
}

/// How many items a listing looks at: at most `limit`, all without one.
pub open spec fn listed_count(len: nat, limit: Option<usize>) -> int {
    match limit {
        Some(l) => if l < len {
            l as int
        } else {
            len as int
        },
        None => len as int,
    }
}

/// The entries of a run of items are the entries of exactly the items with audio, in
/// feed order.
pub proof fn lemma_episodes_of_items_with_audio(items: Seq<FeedItemView>)
    ensures
        episodes_of(items) == items.filter_map(|i: FeedItemView| episode_of(i)),
    decreases items.len(),
{
    if items.len() > 0 {
        lemma_episodes_of_items_with_audio(items.drop_last());
        match episode_of(items.last()) {
            Some(e) => assert(episodes_of(items) =~= episodes_of(items.drop_last()) + seq![e]),
            None => {},
        }
    }
}

proof fn lemma_episodes_of_all_audio(items: Seq<FeedItemView>)
    requires
        forall|i: int| 0 <= i < items.len() ==> #[trigger] episode_of(items[i]) is Some,
    ensures
        episodes_of(items).len() == items.len(),
    decreases items.len(),
{
    if items.len() > 0 {
        let t = items.drop_last();
        assert forall|i: int| 0 <= i < t.len() implies #[trigger] episode_of(t[i]) is Some by {
            assert(t[i] == items[i]);
        }
        lemma_episodes_of_all_audio(t);
        assert(episode_of(items[items.len() - 1]) is Some);
    }
}

/// When every item has audio, a listing with limit `l` holds exactly the smaller of `l`
/// and the number of items, and one without a limit holds every item.
pub proof fn lemma_listing_size(items: Seq<FeedItemView>, limit: Option<usize>)
    requires
        forall|i: int| 0 <= i < items.len() ==> #[trigger] episode_of(items[i]) is Some,
    ensures
        episodes_of(items.take(listed_count(items.len(), limit))).len() == (match limit {
            Some(l) => if (l as int) <= items.len() {
                l as int
            } else {
                items.len() as int
            },
            None => items.len() as int,
        }),
{
    let n = listed_count(items.len(), limit);
    let t = items.take(n);
    assert forall|i: int| 0 <= i < t.len() implies #[trigger] episode_of(t[i]) is Some by {
        assert(t[i] == items[i]);
    }
    lemma_episodes_of_all_audio(t);
}

/// Raising a limit that is below the number of items by one adds exactly the entry of
/// the next item, if it has audio: a listing is always a prefix of the feed's entries.
pub proof fn lemma_listing_grows_by_one(items: Seq<FeedItemView>, l: usize)
    requires
        (l as int) < items.len(),
        l < usize::MAX,
    ensures
        episodes_of(items.take(listed_count(items.len(), Some((l + 1) as usize)))) == episodes_of(
            items.take(listed_count(items.len(), Some(l))),
        ) + match episode_of(items[l as int]) {
            Some(e) => seq![e],
            None => seq![],
        },
{
    let a = items.take(listed_count(items.len(), Some((l + 1) as usize)));
    let b = items.take(listed_count(items.len(), Some(l)));
    assert(a.drop_last() =~= b);
    assert(a.last() == items[l as int]);
    match episode_of(items[l as int]) {
        Some(e) => assert(episodes_of(a) =~= episodes_of(b) + seq![e]),
        None => assert(episodes_of(a) =~= episodes_of(b) + Seq::empty()),
    }
}

fn copy_string(s: &String) -> (r: String)
    ensures
        r@ == s@,
{
    String::from_str(s.as_str())
}

fn copy_opt(s: &Option<String>) -> (r: Option<String>)
    ensures
        opt_view(r) == opt_view(*s),
{
    match s {
        Some(t) => Some(copy_string(t)),
        None => None,
    }
}

/// Reading RSS feeds and picking episodes out of them.
pub struct RSSFeedService;

impl RSSFeedService {
    /// The episode entry of a feed item; `NotFound` when the item has no audio enclosure.
    pub fn extract_metadata(item: &FeedItem) -> (r: Result<EpisodeItem, AppError>)
        ensures
            match r {
                Ok(e) => episode_of(item@) == Some(episode_item_view(e)),
                Err(err) => episode_of(item@) is None && err == AppError::NotFound,
            },
    {
        let title = match &item.title {
            Some(t) => copy_string(t),
            None => String::from_str("Unknown Episode"),
        };
        let audio_url = match &item.enclosure_url {
            Some(u) => copy_string(u),
            None => {
                return Err(AppError::NotFound);
            },
        };
        let publish_date = copy_opt(&item.pub_date);
        let guid = match &item.guid {
            Some(g) => copy_string(g),
            None => generate_deterministic_hash(audio_url.as_str()),
        };
        Ok(EpisodeItem { guid, title, audio_url, publish_date })
    }

    /// Reads an RSS document; a document that does not parse is an internal error.
    pub fn parse_rss_channel(xml_bytes: &[u8]) -> (r: Result<FeedChannel, AppError>)
        ensures
            match r {
                Ok(c) => parsed_feed(xml_bytes@) == Some(c@),
                Err(e) => parsed_feed(xml_bytes@) is None && (e matches AppError::InternalServerError(m)
                    && m@ == "Invalid RSS format"@),
            },
    {
        match read_feed(xml_bytes) {
            Some(c) => Ok(c),
            None => Err(AppError::InternalServerError(String::from_str("Invalid RSS format"))),
        }
    }

    /// Entries of the first `limit` items of the channel (all items without a limit),
    /// skipping items without audio.
    pub fn list_episodes(channel: &FeedChannel, limit: Option<usize>) -> (r: Vec<EpisodeItem>)
        ensures
            r@.map_values(|e: EpisodeItem| episode_item_view(e)) == episodes_of(
                channel@.items.take(listed_count(channel@.items.len(), limit)),
            ),
            limit matches Some(l) ==> r@.len() <= l,
    {
        let ghost items = channel@.items;
        let n = match limit {
            Some(l) => if l < channel.items.len() {
                l
            } else {
                channel.items.len()
            },
            None => channel.items.len(),
        };
        let mut r: Vec<EpisodeItem> = Vec::new();
        for i in 0..n
            invariant
                n <= channel.items@.len(),
                n == listed_count(channel@.items.len(), limit),
                items == channel@.items,
                r@.len() <= i,
                r@.map_values(|e: EpisodeItem| episode_item_view(e)) == episodes_of(
                    items.take(i as int),
                ),
        {
            proof {
                assert(items.take(i + 1).drop_last() =~= items.take(i as int));
                assert(items[i as int] == channel.items@[i as int]@);
            }
            let ghost before = r@.map_values(|e: EpisodeItem| episode_item_view(e));
            match Self::extract_metadata(&channel.items[i]) {
                Ok(e) => {
                    r.push(e);
                    proof {
                        assert(r@.map_values(|e: EpisodeItem| episode_item_view(e)) =~= before.push(
                            episode_item_view(e),
                        ));
                    }
                },
                Err(_) => {},
            }
        }
        r
    }

    /// The first item whose entry has this GUID; `NotFound` when there is none.
    pub fn find_episode(channel: &FeedChannel, guid: &str) -> (r: Result<EpisodeItem, AppError>)
        ensures
            match r {
                Ok(e) => exists|i: int|
                    first_with_guid(channel@.items, guid@, i) && episode_of(channel@.items[i])
                        == Some(episode_item_view(e)),
                Err(err) => err == AppError::NotFound && forall|i: int|
                    0 <= i < channel@.items.len() ==> !(episode_of(#[trigger] channel@.items[i]) matches Some(
                        e,
                    ) && e.0 == guid@),
            },
    {
        let ghost items = channel@.items;
        for i in 0..channel.items.len()
            invariant
                items == channel@.items,
                forall|j: int|
                    0 <= j < i ==> !(episode_of(#[trigger] items[j]) matches Some(e) && e.0 == guid@),
        {
            proof {
                assert(items[i as int] == channel.items@[i as int]@);
            }
            match Self::extract_metadata(&channel.items[i]) {
                Ok(e) => {
                    if crate::text::str_equal(e.guid.as_str(), guid) {
                        proof {
                            assert(first_with_guid(items, guid@, i as int));
                        }
                        return Ok(e);
                    }
                },
                Err(_) => {},
            }
        }
        Err(AppError::NotFound)
    }

    /// The error reported when the audio of the newest episode cannot be downloaded.
    pub fn download_failure() -> (e: AppError)
        ensures
            e matches AppError::InternalServerError(m) && m@ == "Failed to download audio"@,
    {
        AppError::InternalServerError(String::from_str("Failed to download audio"))
    }

    /// The newest (first) item's entry: an internal error when the feed has no items,
    /// `NotFound` when that item has no audio.
    pub fn latest_episode(channel: &FeedChannel) -> (r: Result<EpisodeItem, AppError>)
        ensures
            match r {
                Ok(e) => channel@.items.len() > 0 && episode_of(channel@.items[0]) == Some(
                    episode_item_view(e),
                ),
                Err(err) => if channel@.items.len() == 0 {
                    err matches AppError::InternalServerError(m) && m@ == "No episodes found in feed"@
                } else {
                    episode_of(channel@.items[0]) is None && err == AppError::NotFound
                },
            },
    {
        if channel.items.len() == 0 {
            return Err(AppError::InternalServerError(String::from_str("No episodes found in feed")));
        }
        match Self::extract_metadata(&channel.items[0]) {
            Ok(e) => Ok(e),
            Err(_) => Err(AppError::NotFound),
        }
    }
}

impl PodcastMetadata {
    /// The podcast's metadata as its feed gives it; an empty description counts as none.
    pub fn from_channel(channel: &FeedChannel, feed_url: String) -> (m: PodcastMetadata)
        ensures
            m.title@ == channel.title@,
            m.feed_url == feed_url,
            opt_view(m.image_url) == opt_view(channel.image_url),
            opt_view(m.description) == (if channel.description@.len() == 0 {
                None
            } else {
                Some(channel.description@)
            }),
            opt_view(m.author) == opt_view(channel.author),
    {
        let description = if channel.description.as_str().unicode_len() == 0 {
            None
        } else {
            Some(copy_string(&channel.description))
        };
        PodcastMetadata {
            title: copy_string(&channel.title),
            feed_url,
            image_url: copy_opt(&channel.image_url),
            description,
            author: copy_opt(&channel.author),
        }
    }
}

} // verus!
