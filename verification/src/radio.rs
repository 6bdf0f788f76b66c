//! Catalogue data model and the station-selection logic. The HTTP
//! transfers happen outside the library; everything decided about their
//! results — which places qualify, which channel is picked, how a
//! station is assembled, when the cache is fresh — is decided here.

use vstd::prelude::*;

use crate::settings::StationInfo;

verus! {

/// Generic response wrapper of the radio directory.
#[derive(Debug, Clone)]
pub struct ApiResponse<T> {
    /// API version tag.
    pub api_version: u32,
    /// Optional version string.
    pub version: Option<String>,
    /// The payload.
    pub data: T,
}

/// Places list payload.
#[derive(Debug, Clone)]
pub struct PlacesData {
    /// All places.
    pub list: Vec<Place>,
}

/// A place (city) with radio stations. Coordinates are microdegrees.
#[derive(Debug, Clone)]
pub struct Place {
    /// Catalogue identifier.
    pub id: String,
    /// Place name.
    pub title: String,
    /// Country name.
    pub country: String,
    /// Catalogue URL path.
    pub url: String,
    /// Number of stations.
    pub size: u32,
    /// Whether the catalogue boosts this place.
    pub boost: bool,
    /// Latitude in microdegrees.
    pub latitude_micro: i64,
    /// Longitude in microdegrees.
    pub longitude_micro: i64,
}

impl Place {
    /// Latitude in microdegrees.
    pub fn latitude(&self) -> (r: i64)
        ensures
            r == self.latitude_micro,
    {
        self.latitude_micro
    }

    /// Longitude in microdegrees.
    pub fn longitude(&self) -> (r: i64)
        ensures
            r == self.longitude_micro,
    {
        self.longitude_micro
    }
}

/// Channels list payload.
#[derive(Debug, Clone)]
pub struct ChannelsData {
    /// Optional section title.
    pub title: Option<String>,
    /// Channel sections.
    pub content: Vec<ChannelSection>,
}

/// Section of channel references.
#[derive(Debug, Clone)]
pub struct ChannelSection {
    /// Kind of the items.
    pub items_type: Option<String>,
    /// The channel references.
    pub items: Vec<ChannelRef>,
}

/// Item wrapper in a place listing.
#[derive(Debug, Clone)]
pub struct ChannelItem {
    /// The wrapped channel reference.
    pub page: ChannelRef,
}

/// Channel reference in a place listing.
#[derive(Debug, Clone)]
pub struct ChannelRef {
    /// Catalogue URL path, e.g. `/listen/name/id`.
    pub url: String,
    /// Channel title.
    pub title: String,
}

/// The index of the last `/` in a character sequence, or -1.
pub open spec fn last_slash(s: Seq<char>) -> int
    decreases s.len(),
{
    if s.len() == 0 {
        -1
    } else if s[s.len() - 1] == '/' {
        s.len() - 1
    } else {
        last_slash(s.drop_last())
    }
}

/// Whether the sequence starts with the `/listen/` prefix.
pub open spec fn has_listen_prefix(s: Seq<char>) -> bool {
    &&& s.len() >= 8
    &&& s[0] == '/'
    &&& s[1] == 'l'
    &&& s[2] == 'i'
    &&& s[3] == 's'
    &&& s[4] == 't'
    &&& s[5] == 'e'
    &&& s[6] == 'n'
    &&& s[7] == '/'
}

/// The characters after the last `/` of the sequence.
pub open spec fn after_last_slash(s: Seq<char>) -> Seq<char> {
    s.subrange(last_slash(s) + 1, s.len() as int)
}

/// The last `/` lies within the sequence.
pub proof fn lemma_last_slash_range(s: Seq<char>)
    ensures
        -1 <= last_slash(s) < s.len(),
        last_slash(s) >= 0 ==> s[last_slash(s)] == '/',
        forall|j: int| last_slash(s) < j < s.len() ==> s[j] != '/',
    decreases s.len(),
{
    if s.len() > 0 {
        lemma_last_slash_range(s.drop_last());
        if s[s.len() - 1] != '/' {
            assert forall|j: int| last_slash(s) < j < s.len() implies s[j] != '/' by {
                if j < s.len() - 1 {
                    assert(s.drop_last()[j] == s[j]);
                }
            }
        }
    }
}

/// Scan for the last `/` of a string, as a character index.
fn find_last_slash(s: &str) -> (r: Option<usize>)
    requires
        s@.len() < 0x1_0000_0000,
    ensures
        match r {
            Some(j) => j == last_slash(s@) && j < s@.len(),
            None => last_slash(s@) == -1,
        },
{
    let n: usize = s.unicode_len();
    let mut i: usize = n;
    proof {
        assert(s@.subrange(0, n as int) =~= s@);
    }
    while i > 0
        invariant
            n == s@.len(),
            n < 0x1_0000_0000,
            i <= n,
            last_slash(s@) == last_slash(s@.subrange(0, i as int)),
        decreases i,
    {
        let c: char = s.get_char(i - 1);
        proof {
            assert(s@.subrange(0, i as int).drop_last() =~= s@.subrange(0, i as int - 1));
            assert(s@.subrange(0, i as int)[i - 1] == s@[i as int - 1]);
        }
        if c == '/' {
            proof {
                assert(last_slash(s@.subrange(0, i as int)) == i - 1);
            }
            return Some(i - 1);
        }
        i = i - 1;
    }
    proof {
        assert(s@.subrange(0, 0) =~= Seq::<char>::empty());
    }
    None
}

impl ChannelRef {
    /// Extract the channel ID from the URL: for `/listen/{name}/{id}`,
    /// the part after the last `/`. URLs without the `/listen/` prefix
    /// carry no ID.
    pub fn id(&self) -> (r: Option<&str>)
        requires
            self.url@.len() < 0x1_0000_0000,
        ensures
            r is Some <==> has_listen_prefix(self.url@),
            match r {
                Some(t) => t@ == after_last_slash(self.url@),
                None => true,
            },
    {
        let n: usize = self.url.unicode_len();
        if n < 8 {
            return None;
        }
        if !(self.url.get_char(0) == '/' && self.url.get_char(1) == 'l' && self.url.get_char(2)
            == 'i' && self.url.get_char(3) == 's' && self.url.get_char(4) == 't'
            && self.url.get_char(5) == 'e' && self.url.get_char(6) == 'n' && self.url.get_char(7)
            == '/') {
            return None;
        }
        let j: usize = match find_last_slash(self.url.as_str()) {
            Some(j) => j,
            None => {
                proof {
                    lemma_last_slash_range(self.url@);
                }
                0
            },
        };
        proof {
            lemma_last_slash_range(self.url@);
        }
        Some(self.url.as_str().substring_char(j + 1, n))
    }
}

/// Full channel details payload.
#[derive(Debug, Clone)]
pub struct ChannelData {
    /// Catalogue identifier.
    pub id: String,
    /// Channel title.
    pub title: String,
    /// Catalogue URL path.
    pub url: String,
    /// Station homepage.
    pub website: Option<String>,
    /// Whether the stream is served over TLS.
    pub secure: bool,
    /// The place the channel belongs to.
    pub place: PlaceRef,
    /// The country the channel belongs to.
    pub country: CountryRef,
}

/// Place reference in channel details.
#[derive(Debug, Clone)]
pub struct PlaceRef {
    /// Catalogue identifier.
    pub id: String,
    /// Place name.
    pub title: String,
}

/// Country reference in channel details.
#[derive(Debug, Clone)]
pub struct CountryRef {
    /// Catalogue identifier.
    pub id: String,
    /// Country name.
    pub title: String,
}

/// Search response (not wrapped like the other payloads).
#[derive(Debug, Clone)]
pub struct SearchResponse {
    /// Query duration.
    pub took: Option<u32>,
    /// Echoed query.
    pub query: Option<String>,
    /// The hits, when any.
    pub hits: Option<SearchHits>,
}

/// Search hit container.
#[derive(Debug, Clone)]
pub struct SearchHits {
    /// Individual hits.
    pub hits: Vec<SearchHit>,
}

/// Individual search hit.
#[derive(Debug, Clone)]
pub struct SearchHit {
    /// The hit's source record.
    pub source: SearchSource,
}

/// Search result source record.
#[derive(Debug, Clone)]
pub struct SearchSource {
    /// Country code, when given.
    pub code: Option<String>,
    /// Nested page data with the channel or place details.
    pub page: Option<SearchPage>,
    /// Result kind: `channel` or `place`.
    pub result_type: String,
}

/// Nested page data in search results.
#[derive(Debug, Clone)]
pub struct SearchPage {
    /// Catalogue URL path.
    pub url: String,
    /// Title.
    pub title: String,
    /// The place, when given.
    pub place: Option<PlaceRef>,
    /// The country, when given.
    pub country: Option<CountryRef>,
    /// Subtitle, when given.
    pub subtitle: Option<String>,
}

impl SearchSource {
    /// The nested page data.
    pub fn page(&self) -> (r: Option<&SearchPage>)
        ensures
            r is Some <==> self.page is Some,
            match r {
                Some(p) => self.page == Some(*p),
                None => true,
            },
    {
        self.page.as_ref()
    }

    /// The ID from the page URL: the part after its last `/`.
    pub fn id(&self) -> (r: Option<&str>)
        requires
            self.page matches Some(p) ==> p.url@.len() < 0x1_0000_0000,
        ensures
            r is Some <==> self.page is Some,
            match (r, self.page) {
                (Some(t), Some(p)) => t@ == after_last_slash(p.url@),
                _ => true,
            },
    {
        match &self.page {
            Some(p) => {
                let n: usize = p.url.unicode_len();
                let j: usize = match find_last_slash(p.url.as_str()) {
                    Some(j) => j + 1,
                    None => 0,
                };
                proof {
                    lemma_last_slash_range(p.url@);
                }
                Some(p.url.as_str().substring_char(j, n))
            },
            None => None,
        }
    }

    /// The title from the nested page.
    pub fn title(&self) -> (r: Option<&str>)
        ensures
            r is Some <==> self.page is Some,
            match (r, self.page) {
                (Some(t), Some(p)) => t@ == p.title@,
                _ => true,
            },
    {
        match &self.page {
            Some(p) => Some(p.title.as_str()),
            None => None,
        }
    }

    /// Whether this is a channel result.
    pub fn is_channel(&self) -> (r: bool)
        ensures
            r == (self.result_type@ == "channel"@),
    {
        proof {
            reveal_strlit("channel");
        }
        string_eq_literal_channel(&self.result_type)
    }

    /// Whether this is a place result.
    pub fn is_place(&self) -> (r: bool)
        ensures
            r == (self.result_type@ == "place"@),
    {
        proof {
            reveal_strlit("place");
        }
        string_eq_literal_place(&self.result_type)
    }
}

/// Compare a string against the `channel` literal.
fn string_eq_literal_channel(s: &String) -> (r: bool)
    ensures
        r == (s@ == "channel"@),
{
    let lit: &str = "channel";
    str_eq(s.as_str(), lit)
}

/// Compare a string against the `place` literal.
fn string_eq_literal_place(s: &String) -> (r: bool)
    ensures
        r == (s@ == "place"@),
{
    let lit: &str = "place";
    str_eq(s.as_str(), lit)
}

/// Character-wise string equality.
pub fn str_eq(a: &str, b: &str) -> (r: bool)
    ensures
        r == (a@ == b@),
{
    let na: usize = a.unicode_len();
    let nb: usize = b.unicode_len();
    if na != nb {
        proof {
            assert(a@.len() != b@.len());
        }
        return false;
    }
    let mut i: usize = 0;
    while i < na
        invariant
            na == a@.len(),
            na == b@.len(),
            i <= na,
            forall|j: int| 0 <= j < i ==> a@[j] == b@[j],
        decreases na - i,
    {
        if a.get_char(i) != b.get_char(i) {
            return false;
        }
        i = i + 1;
    }
    proof {
        assert(a@ =~= b@);
    }
    true
}

/// Place details payload.
#[derive(Debug, Clone)]
pub struct PlaceData {
    /// Place name.
    pub title: String,
    /// Catalogue URL path.
    pub url: String,
    /// Subtitle, when given.
    pub subtitle: Option<String>,
    /// Content sections.
    pub content: Vec<PlaceContent>,
}

/// Content section in place details.
#[derive(Debug, Clone)]
pub struct PlaceContent {
    /// Kind of the items.
    pub items_type: Option<String>,
    /// The wrapped channel references.
    pub items: Vec<ChannelItem>,
}

/// All channel references of the sections up to `k`, flattened in
/// order.
pub open spec fn flattened_channels(content: Seq<PlaceContent>, k: int) -> Seq<ChannelRef>
    decreases k,
{
    if k <= 0 {
        Seq::empty()
    } else {
        flattened_channels(content, k - 1) + content[k - 1].items@.map_values(
            |it: ChannelItem| it.page,
        )
    }
}

/// Flatten the channel sections of a place into one list of channel
/// references, keeping order.
pub fn flatten_channels(content: Vec<PlaceContent>) -> (r: Vec<ChannelRef>)
    ensures
        r@ == flattened_channels(content@, content.len() as int),
{
    let ghost orig = content@;
    let mut rest: Vec<PlaceContent> = content;
    let mut r: Vec<ChannelRef> = Vec::new();
    let ghost mut done: int = 0;
    proof {
        assert(rest@ =~= orig.subrange(0, orig.len() as int));
    }
    while rest.len() > 0
        invariant
            0 <= done <= orig.len(),
            orig.len() == done + rest.len(),
            rest@ == orig.subrange(done, orig.len() as int),
            r@ == flattened_channels(orig, done),
        decreases rest.len(),
    {
        let section: PlaceContent = rest.remove(0);
        proof {
            assert(section == orig[done]);
            assert(rest@ =~= orig.subrange(done + 1, orig.len() as int));
        }
        let ghost items_seq = section.items@;
        let mut items: Vec<ChannelItem> = section.items;
        let ghost mut j: int = 0;
        proof {
            assert(flattened_channels(orig, done + 1) == flattened_channels(orig, done)
                + orig[done].items@.map_values(|it: ChannelItem| it.page));
            assert(items_seq.map_values(|it: ChannelItem| it.page).take(0) =~= Seq::<
                ChannelRef,
            >::empty());
            assert(items@ =~= items_seq.subrange(0, items_seq.len() as int));
        }
        while items.len() > 0
            invariant
                0 <= j <= items_seq.len(),
                items_seq.len() == j + items.len(),
                items@ == items_seq.subrange(j, items_seq.len() as int),
                r@ == flattened_channels(orig, done) + items_seq.map_values(
                    |it: ChannelItem| it.page,
                ).take(j),
            decreases items.len(),
        {
            let item: ChannelItem = items.remove(0);
            proof {
                assert(item == items_seq[j]);
                assert(items@ =~= items_seq.subrange(j + 1, items_seq.len() as int));
                assert(items_seq.map_values(|it: ChannelItem| it.page).take(j + 1)
                    =~= items_seq.map_values(|it: ChannelItem| it.page).take(j) + seq![
                    items_seq[j].page,
                ]);
            }
            r.push(item.page);
            proof {
                j = j + 1;
            }
        }
        proof {
            assert(items_seq.map_values(|it: ChannelItem| it.page).take(items_seq.len() as int)
                =~= items_seq.map_values(|it: ChannelItem| it.page));
            done = done + 1;
        }
    }
    proof {
        assert(done == orig.len());
    }
    r
}

/// The places with at least one station, among the first `k`, keeping
/// order.
pub open spec fn places_with_stations(s: Seq<Place>, k: int) -> Seq<Place>
    decreases k,
{
    if k <= 0 {
        Seq::empty()
    } else {
        places_with_stations(s, k - 1) + if s[k - 1].size > 0 {
            seq![s[k - 1]]
        } else {
            Seq::empty()
        }
    }
}

/// Keep the places that actually have stations.
pub fn filter_valid_places(places: Vec<Place>) -> (r: Vec<Place>)
    ensures
        r@ == places_with_stations(places@, places.len() as int),
{
    let ghost orig = places@;
    let mut rest: Vec<Place> = places;
    let mut r: Vec<Place> = Vec::new();
    let ghost mut done: int = 0;
    proof {
        assert(rest@ =~= orig.subrange(0, orig.len() as int));
    }
    while rest.len() > 0
        invariant
            0 <= done <= orig.len(),
            orig.len() == done + rest.len(),
            rest@ == orig.subrange(done, orig.len() as int),
            r@ == places_with_stations(orig, done),
        decreases rest.len(),
    {
        let p: Place = rest.remove(0);
        proof {
            assert(p == orig[done]);
            assert(rest@ =~= orig.subrange(done + 1, orig.len() as int));
        }
        if p.size > 0 {
            r.push(p);
        }
        proof {
            done = done + 1;
        }
    }
    r
}

/// The channel references that carry a channel ID, among the first `k`.
pub open spec fn channels_with_ids(s: Seq<ChannelRef>, k: int) -> Seq<ChannelRef>
    decreases k,
{
    if k <= 0 {
        Seq::empty()
    } else {
        channels_with_ids(s, k - 1) + if has_listen_prefix(s[k - 1].url@) {
            seq![s[k - 1]]
        } else {
            Seq::empty()
        }
    }
}

/// Keep the channels whose URL carries a channel ID.
pub fn filter_valid_channels(channels: Vec<ChannelRef>) -> (r: Vec<ChannelRef>)
    requires
        forall|i: int| 0 <= i < channels.len() ==> #[trigger] channels[i].url@.len()
            < 0x1_0000_0000,
    ensures
        r@ == channels_with_ids(channels@, channels.len() as int),
{
    let ghost orig = channels@;
    let mut rest: Vec<ChannelRef> = channels;
    let mut r: Vec<ChannelRef> = Vec::new();
    let ghost mut done: int = 0;
    proof {
        assert(rest@ =~= orig.subrange(0, orig.len() as int));
    }
    while rest.len() > 0
        invariant
            0 <= done <= orig.len(),
            orig.len() == done + rest.len(),
            rest@ == orig.subrange(done, orig.len() as int),
            forall|i: int| 0 <= i < orig.len() ==> #[trigger] orig[i].url@.len() < 0x1_0000_0000,
            r@ == channels_with_ids(orig, done),
        decreases rest.len(),
    {
        let c: ChannelRef = rest.remove(0);
        proof {
            assert(c == orig[done]);
            assert(rest@ =~= orig.subrange(done + 1, orig.len() as int));
        }
        if c.id().is_some() {
            r.push(c);
        }
        proof {
            done = done + 1;
        }
    }
    r
}

/// Pick an element of a non-empty list by an externally drawn draw,
/// reduced modulo the length.
pub fn choose_by_draw<T>(items: &Vec<T>, draw: usize) -> (r: Option<&T>)
    ensures
        r is Some <==> items.len() > 0,
        match r {
            Some(t) => *t == items[draw as int % items.len() as int],
            None => true,
        },
{
    if items.len() == 0 {
        None
    } else {
        Some(&items[draw % items.len()])
    }
}

/// The first place whose ID equals `id`, if any.
pub fn find_place_by_id<'a>(places: &'a Vec<Place>, id: &str) -> (r: Option<&'a Place>)
    ensures
        match r {
            Some(p) => exists|i: int|
                0 <= i < places.len() && places[i] == *p && places[i].id@ == id@,
            None => forall|i: int| 0 <= i < places.len() ==> #[trigger] places[i].id@ != id@,
        },
{
    let mut i: usize = 0;
    while i < places.len()
        invariant
            i <= places.len(),
            forall|j: int| 0 <= j < i ==> #[trigger] places[j].id@ != id@,
        decreases places.len() - i,
    {
        if str_eq(places[i].id.as_str(), id) {
            return Some(&places[i]);
        }
        i = i + 1;
    }
    None
}

/// The first search result that is a channel with page data, if any.
pub fn first_channel_hit(results: &Vec<SearchSource>) -> (r: Option<&SearchSource>)
    ensures
        match r {
            Some(s) => exists|i: int|
                {
                    &&& 0 <= i < results.len()
                    &&& results[i] == *s
                    &&& results[i].result_type@ == "channel"@
                    &&& results[i].page is Some
                    &&& forall|j: int|
                        0 <= j < i ==> !(#[trigger] results[j].result_type@ == "channel"@
                            && results[j].page is Some)
                },
            None => forall|i: int|
                0 <= i < results.len() ==> !(#[trigger] results[i].result_type@ == "channel"@
                    && results[i].page is Some),
        },
{
    let mut i: usize = 0;
    while i < results.len()
        invariant
            i <= results.len(),
            forall|j: int|
                0 <= j < i ==> !(#[trigger] results[j].result_type@ == "channel"@
                    && results[j].page is Some),
        decreases results.len() - i,
    {
        let hit: &SearchSource = &results[i];
        if hit.is_channel() && hit.page.is_some() {
            return Some(hit);
        }
        i = i + 1;
    }
    None
}

/// Assemble station metadata from channel details, the resolved stream
/// URL, and place data when it is at hand. Without a place the
/// coordinates stay zero and the channel's own place name is used.
pub fn station_from_channel(channel: &ChannelData, place: Option<&Place>, stream_url: String) -> (s:
    StationInfo)
    ensures
        s.id@ == channel.id@,
        s.name@ == channel.title@,
        s.country@ == channel.country.title@,
        s.stream_url matches Some(u) && u@ == stream_url@,
        s.website is Some <==> channel.website is Some,
        match (s.website, channel.website) {
            (Some(a), Some(b)) => a@ == b@,
            _ => true,
        },
        match place {
            Some(p) => {
                &&& s.latitude_micro == p.latitude_micro
                &&& s.longitude_micro == p.longitude_micro
                &&& s.place_name@ == p.title@
            },
            None => {
                &&& s.latitude_micro == 0
                &&& s.longitude_micro == 0
                &&& s.place_name@ == channel.place.title@
            },
        },
{
    match place {
        Some(p) => StationInfo {
            id: channel.id.clone(),
            name: channel.title.clone(),
            country: channel.country.title.clone(),
            place_name: p.title.clone(),
            latitude_micro: p.latitude_micro,
            longitude_micro: p.longitude_micro,
            stream_url: Some(stream_url),
            website: clone_opt_string(&channel.website),
        },
        None => StationInfo {
            id: channel.id.clone(),
            name: channel.title.clone(),
            country: channel.country.title.clone(),
            place_name: channel.place.title.clone(),
            latitude_micro: 0,
            longitude_micro: 0,
            stream_url: Some(stream_url),
            website: clone_opt_string(&channel.website),
        },
    }
}

/// Clone an optional string, keeping its characters.
fn clone_opt_string(s: &Option<String>) -> (r: Option<String>)
    ensures
        r is Some <==> s is Some,
        match (r, s) {
            (Some(a), Some(b)) => a@ == b@,
            _ => true,
        },
{
    match s {
        Some(v) => Some(v.clone()),
        None => None,
    }
}

/// Time-to-live of the cached places list, in seconds.
pub const PLACES_TTL_SECS: u64 = 3600;

/// The in-memory places cache with its write timestamp.
#[derive(Debug, Clone)]
pub struct PlacesCache {
    /// The cached list, when one was stored.
    pub places: Option<Vec<Place>>,
    /// Seconds timestamp of the store.
    pub stamp_secs: u64,
}

/// A cache entry is fresh at `now` when it was written no more than the
/// TTL ago and the clock has not run backwards.
pub open spec fn cache_fresh(c: PlacesCache, now_secs: int) -> bool {
    &&& c.places is Some
    &&& c.stamp_secs <= now_secs
    &&& now_secs - c.stamp_secs < PLACES_TTL_SECS
}

impl PlacesCache {
    /// An empty cache.
    pub fn new() -> (c: Self)
        ensures
            c.places is None,
    {
        PlacesCache { places: None, stamp_secs: 0 }
    }

    /// The cached places, if still fresh at `now_secs`.
    pub fn get(&self, now_secs: u64) -> (r: Option<&Vec<Place>>)
        ensures
            r is Some <==> cache_fresh(*self, now_secs as int),
            match (r, self.places) {
                (Some(v), Some(p)) => v@ == p@,
                _ => true,
            },
    {
        match &self.places {
            Some(p) => {
                if self.stamp_secs <= now_secs && now_secs - self.stamp_secs < PLACES_TTL_SECS {
                    Some(p)
                } else {
                    None
                }
            },
            None => None,
        }
    }

    /// Store a fresh places list at `now_secs`.
    pub fn set(&mut self, places: Vec<Place>, now_secs: u64)
        ensures
            final(self).places matches Some(p) && p@ == places@,
            final(self).stamp_secs == now_secs,
    {
        self.places = Some(places);
        self.stamp_secs = now_secs;
    }

    /// Drop the cached list.
    pub fn clear(&mut self)
        ensures
            final(self).places is None,
    {
        self.places = None;
    }
}

/// What `str::to_lowercase` returns for a sequence of characters; a
/// function of the characters alone.
pub uninterp spec fn lower_of(s: Seq<char>) -> Seq<char>;

/// Relies on str::to_lowercase: the Unicode lowercase mapping of the
/// string, depending on its characters alone.
#[verifier::external_body]
fn to_lowercase(s: &str) -> (r: String)
    ensures
        r@ == lower_of(s@),
{
    s.to_lowercase()
}

/// `needle` occurs contiguously in `hay`.
pub open spec fn contains_seq(hay: Seq<char>, needle: Seq<char>) -> bool {
    exists|k: int|
        0 <= k <= hay.len() - needle.len() && #[trigger] hay.subrange(k, k + needle.len())
            == needle
}

/// Substring search, character by character.
pub fn contains_chars(hay: &str, needle: &str) -> (r: bool)
    ensures
        r == contains_seq(hay@, needle@),
{
    let nh: usize = hay.unicode_len();
    let nn: usize = needle.unicode_len();
    if nn > nh {
        return false;
    }
    if nn == 0 {
        proof {
            assert(hay@.subrange(0, 0 + needle@.len() as int) =~= needle@);
        }
        return true;
    }
    let mut k: usize = 0;
    while k <= nh - nn
        invariant
            nh == hay@.len(),
            nn == needle@.len(),
            1 <= nn <= nh,
            k <= nh - nn + 1,
            forall|t: int| 0 <= t < k ==> #[trigger] hay@.subrange(t, t + nn) != needle@,
        decreases nh - nn + 1 - k,
    {
        let mut j: usize = 0;
        let mut matched: bool = true;
        while j < nn
            invariant
                nh == hay@.len(),
                nn == needle@.len(),
                k + nn <= nh,
                j <= nn,
                matched ==> forall|t: int| 0 <= t < j ==> hay@[k + t] == needle@[t],
                !matched ==> hay@.subrange(k as int, k as int + nn) != needle@,
            decreases nn - j,
        {
            if matched {
                let a: char = hay.get_char(k + j);
                let b: char = needle.get_char(j);
                if a != b {
                    proof {
                        assert(hay@.subrange(k as int, k as int + nn)[j as int] == hay@[k + j]);
                    }
                    matched = false;
                }
            }
            j = j + 1;
        }
        if matched {
            proof {
                assert(hay@.subrange(k as int, k as int + nn) =~= needle@);
            }
            return true;
        }
        k = k + 1;
    }
    proof {
        assert forall|t: int| 0 <= t <= hay@.len() - needle@.len() implies #[trigger] hay@.subrange(
            t,
            t + needle@.len() as int,
        ) != needle@ by {
            assert(t < nh - nn + 1);
        }
    }
    false
}

/// The places whose lowercased country contains the lowercased region,
/// and that have stations, among the first `k`.
pub open spec fn region_places(s: Seq<Place>, k: int, region_low: Seq<char>) -> Seq<Place>
    decreases k,
{
    if k <= 0 {
        Seq::empty()
    } else {
        region_places(s, k - 1, region_low) + if contains_seq(lower_of(s[k - 1].country@), region_low)
            && s[k - 1].size > 0 {
            seq![s[k - 1]]
        } else {
            Seq::empty()
        }
    }
}

/// Keep the places whose country matches the region,
/// case-insensitively, and that have stations.
pub fn filter_region_places(places: Vec<Place>, region: &str) -> (r: Vec<Place>)
    ensures
        r@ == region_places(places@, places.len() as int, lower_of(region@)),
{
    let region_low: String = to_lowercase(region);
    let ghost orig = places@;
    let mut rest: Vec<Place> = places;
    let mut r: Vec<Place> = Vec::new();
    let ghost mut done: int = 0;
    proof {
        assert(rest@ =~= orig.subrange(0, orig.len() as int));
    }
    while rest.len() > 0
        invariant
            region_low@ == lower_of(region@),
            0 <= done <= orig.len(),
            orig.len() == done + rest.len(),
            rest@ == orig.subrange(done, orig.len() as int),
            r@ == region_places(orig, done, lower_of(region@)),
        decreases rest.len(),
    {
        let p: Place = rest.remove(0);
        proof {
            assert(p == orig[done]);
            assert(rest@ =~= orig.subrange(done + 1, orig.len() as int));
        }
        let country_low: String = to_lowercase(p.country.as_str());
        let keep: bool = contains_chars(country_low.as_str(), region_low.as_str()) && p.size > 0;
        if keep {
            r.push(p);
        }
        proof {
            done = done + 1;
        }
    }
    r
}

} // verus!
