use vstd::prelude::*;

verus! {

/// A calendar date as it appears in the catalog (`YYYY-MM-DD`).
#[derive(Debug, Clone, Copy, PartialEq, Eq, Structural)]
pub struct Date {
    pub year: i32,
    pub month: u32,
    pub day: u32,
}

/// Copies a list of values; each copy has the same view as the value it copies.
pub fn clone_vec<T: Clone + DeepView>(v: &Vec<T>) -> (res: Vec<T>)
    requires
        forall|a: T, b: T| #[trigger] cloned(a, b) ==> a.deep_view() == b.deep_view(),
    ensures
        res.deep_view() == v.deep_view(),
{
    let res = v.clone();
    proof {
        assert forall|i: int| 0 <= i < v.len() implies #[trigger] res@[i].deep_view()
            == v@[i].deep_view() by {
            assert(cloned(v[i], res[i]));
        }
        assert(res.deep_view() =~= v.deep_view());
    }
    res
}

/// Copies a list of strings, keeping every element.
pub fn clone_strings(v: &Vec<String>) -> (res: Vec<String>)
    ensures
        res.deep_view() == v.deep_view(),
{
    let res = v.clone();
    proof {
        assert(res.deep_view() =~= v.deep_view());
    }
    res
}

/// A broadcast category, such as news or sports.
#[derive(Debug, PartialEq)]
pub struct Category {
    pub id: String,
    pub name: String,
    pub description: String,
}

pub struct CategoryView {
    pub id: Seq<char>,
    pub name: Seq<char>,
    pub description: Seq<char>,
}

impl View for Category {
    type V = CategoryView;

    open spec fn view(&self) -> CategoryView {
        CategoryView { id: self.id@, name: self.name@, description: self.description@ }
    }
}

impl DeepView for Category {
    type V = CategoryView;

    open spec fn deep_view(&self) -> CategoryView {
        self@
    }
}

impl Clone for Category {
    fn clone(&self) -> (res: Self)
        ensures
            res@ == self@,
    {
        Category {
            id: self.id.clone(),
            name: self.name.clone(),
            description: self.description.clone(),
        }
    }
}

pub type Categories = Vec<Category>;

/// An IPTV channel: its identity and catalog metadata.
#[derive(Debug, PartialEq)]
pub struct Channel {
    pub id: String,
    pub name: String,
    pub alt_names: Vec<String>,
    pub category_ids: Vec<String>,
    pub country_code: String,
    pub is_nsfw: bool,
    pub launched: Option<Date>,
    pub closed: Option<Date>,
    pub website: String,
    pub network: String,
}

pub struct ChannelView {
    pub id: Seq<char>,
    pub name: Seq<char>,
    pub alt_names: Seq<Seq<char>>,
    pub category_ids: Seq<Seq<char>>,
    pub country_code: Seq<char>,
    pub is_nsfw: bool,
    pub launched: Option<Date>,
    pub closed: Option<Date>,
    pub website: Seq<char>,
    pub network: Seq<char>,
}

impl View for Channel {
    type V = ChannelView;

    open spec fn view(&self) -> ChannelView {
        ChannelView {
            id: self.id@,
            name: self.name@,
            alt_names: self.alt_names.deep_view(),
            category_ids: self.category_ids.deep_view(),
            country_code: self.country_code@,
            is_nsfw: self.is_nsfw,
            launched: self.launched,
            closed: self.closed,
            website: self.website@,
            network: self.network@,
        }
    }
}

impl DeepView for Channel {
    type V = ChannelView;

    open spec fn deep_view(&self) -> ChannelView {
        self@
    }
}

impl Clone for Channel {
    fn clone(&self) -> (res: Self)
        ensures
            res@ == self@,
    {
        Channel {
            id: self.id.clone(),
            name: self.name.clone(),
            alt_names: clone_strings(&self.alt_names),
            category_ids: clone_strings(&self.category_ids),
            country_code: self.country_code.clone(),
            is_nsfw: self.is_nsfw,
            launched: self.launched,
            closed: self.closed,
            website: self.website.clone(),
            network: self.network.clone(),
        }
    }
}

pub type Channels = Vec<Channel>;

/// A country that channels broadcast from, with the languages spoken there.
#[derive(Debug, PartialEq)]
pub struct Country {
    pub code: String,
    pub name: String,
    pub languages: Vec<String>,
    pub flag_url: String,
}

pub struct CountryView {
    pub code: Seq<char>,
    pub name: Seq<char>,
    pub languages: Seq<Seq<char>>,
    pub flag_url: Seq<char>,
}

impl View for Country {
    type V = CountryView;

    open spec fn view(&self) -> CountryView {
        CountryView {
            code: self.code@,
            name: self.name@,
            languages: self.languages.deep_view(),
            flag_url: self.flag_url@,
        }
    }
}

impl DeepView for Country {
    type V = CountryView;

    open spec fn deep_view(&self) -> CountryView {
        self@
    }
}

impl Clone for Country {
    fn clone(&self) -> (res: Self)
        ensures
            res@ == self@,
    {
        Country {
            code: self.code.clone(),
            name: self.name.clone(),
            languages: clone_strings(&self.languages),
            flag_url: self.flag_url.clone(),
        }
    }
}

pub type Countries = Vec<Country>;

/// A feed of a channel (a regional or timezone variant of its broadcast).
#[derive(Debug, PartialEq)]
pub struct Feed {
    pub id: String,
    pub channel_id: String,
    pub name: String,
    pub broadcast_codes: Vec<String>,
    pub language_codes: Vec<String>,
    pub is_main: bool,
}

pub struct FeedView {
    pub id: Seq<char>,
    pub channel_id: Seq<char>,
    pub name: Seq<char>,
    pub broadcast_codes: Seq<Seq<char>>,
    pub language_codes: Seq<Seq<char>>,
    pub is_main: bool,
}

impl View for Feed {
    type V = FeedView;

    open spec fn view(&self) -> FeedView {
        FeedView {
            id: self.id@,
            channel_id: self.channel_id@,
            name: self.name@,
            broadcast_codes: self.broadcast_codes.deep_view(),
            language_codes: self.language_codes.deep_view(),
            is_main: self.is_main,
        }
    }
}

impl DeepView for Feed {
    type V = FeedView;

    open spec fn deep_view(&self) -> FeedView {
        self@
    }
}

impl Clone for Feed {
    fn clone(&self) -> (res: Self)
        ensures
            res@ == self@,
    {
        Feed {
            id: self.id.clone(),
            channel_id: self.channel_id.clone(),
            name: self.name.clone(),
            broadcast_codes: clone_strings(&self.broadcast_codes),
            language_codes: clone_strings(&self.language_codes),
            is_main: self.is_main,
        }
    }
}

pub type Feeds = Vec<Feed>;

/// A language that broadcasts are provided in.
#[derive(Debug, PartialEq)]
pub struct Language {
    pub code: String,
    pub name: String,
}

pub struct LanguageView {
    pub code: Seq<char>,
    pub name: Seq<char>,
}

impl View for Language {
    type V = LanguageView;

    open spec fn view(&self) -> LanguageView {
        LanguageView { code: self.code@, name: self.name@ }
    }
}

impl DeepView for Language {
    type V = LanguageView;

    open spec fn deep_view(&self) -> LanguageView {
        self@
    }
}

impl Clone for Language {
    fn clone(&self) -> (res: Self)
        ensures
            res@ == self@,
    {
        Language { code: self.code.clone(), name: self.name.clone() }
    }
}

pub type Languages = Vec<Language>;

/// A scheduled program of a channel; `start` and `stop` are Unix timestamps
/// in seconds (UTC).
#[derive(Debug, PartialEq)]
pub struct Program {
    pub channel_id: String,
    pub title: String,
    pub description: String,
    pub start: i64,
    pub stop: i64,
}

pub struct ProgramView {
    pub channel_id: Seq<char>,
    pub title: Seq<char>,
    pub description: Seq<char>,
    pub start: i64,
    pub stop: i64,
}

impl View for Program {
    type V = ProgramView;

    open spec fn view(&self) -> ProgramView {
        ProgramView {
            channel_id: self.channel_id@,
            title: self.title@,
            description: self.description@,
            start: self.start,
            stop: self.stop,
        }
    }
}

impl DeepView for Program {
    type V = ProgramView;

    open spec fn deep_view(&self) -> ProgramView {
        self@
    }
}

impl Clone for Program {
    fn clone(&self) -> (res: Self)
        ensures
            res@ == self@,
    {
        Program {
            channel_id: self.channel_id.clone(),
            title: self.title.clone(),
            description: self.description.clone(),
            start: self.start,
            stop: self.stop,
        }
    }
}

pub type Programs = Vec<Program>;

/// A playable stream of a channel: the URL a video player loads, with the
/// request headers it needs.
#[derive(Debug, PartialEq)]
pub struct Stream {
    pub channel_id: String,
    pub feed_id: String,
    pub url: String,
    pub quality: String,
    pub referrer: String,
    pub title: String,
    pub user_agent: String,
}

pub struct StreamView {
    pub channel_id: Seq<char>,
    pub feed_id: Seq<char>,
    pub url: Seq<char>,
    pub quality: Seq<char>,
    pub referrer: Seq<char>,
    pub title: Seq<char>,
    pub user_agent: Seq<char>,
}

impl View for Stream {
    type V = StreamView;

    open spec fn view(&self) -> StreamView {
        StreamView {
            channel_id: self.channel_id@,
            feed_id: self.feed_id@,
            url: self.url@,
            quality: self.quality@,
            referrer: self.referrer@,
            title: self.title@,
            user_agent: self.user_agent@,
        }
    }
}

impl DeepView for Stream {
    type V = StreamView;

    open spec fn deep_view(&self) -> StreamView {
        self@
    }
}

impl Clone for Stream {
    fn clone(&self) -> (res: Self)
        ensures
            res@ == self@,
    {
        Stream {
            channel_id: self.channel_id.clone(),
            feed_id: self.feed_id.clone(),
            url: self.url.clone(),
            quality: self.quality.clone(),
            referrer: self.referrer.clone(),
            title: self.title.clone(),
            user_agent: self.user_agent.clone(),
        }
    }
}

pub type Streams = Vec<Stream>;

/// Copies a list of channels.
pub fn clone_channels(v: &Vec<Channel>) -> (res: Vec<Channel>)
    ensures
        res.deep_view() == v.deep_view(),
{
    clone_vec(v)
}

/// Copies a list of feeds.
pub fn clone_feeds(v: &Vec<Feed>) -> (res: Vec<Feed>)
    ensures
        res.deep_view() == v.deep_view(),
{
    clone_vec(v)
}

/// Copies a list of streams.
pub fn clone_streams(v: &Vec<Stream>) -> (res: Vec<Stream>)
    ensures
        res.deep_view() == v.deep_view(),
{
    clone_vec(v)
}

/// Copies a list of categories.
pub fn clone_categories(v: &Vec<Category>) -> (res: Vec<Category>)
    ensures
        res.deep_view() == v.deep_view(),
{
    clone_vec(v)
}

/// Copies a list of countries.
pub fn clone_countries(v: &Vec<Country>) -> (res: Vec<Country>)
    ensures
        res.deep_view() == v.deep_view(),
{
    clone_vec(v)
}

/// Copies a list of languages.
pub fn clone_languages(v: &Vec<Language>) -> (res: Vec<Language>)
    ensures
        res.deep_view() == v.deep_view(),
{
    clone_vec(v)
}

} // verus!
