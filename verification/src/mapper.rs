//! Conversion of API records into catalog models.
use crate::domain::{
    Category, CategoryView, Channel, ChannelView, Country, CountryView, Date, Feed, FeedView,
    Language, LanguageView, Stream, StreamView,
};
use crate::dto::{CategoryDTO, ChannelDTO, CountryDTO, FeedDTO, LanguageDTO, StreamDTO};
use chrono::Datelike;
use std::str::FromStr;
use vstd::prelude::*;

verus! {

/// The date that chrono's `NaiveDate::from_str` reads from `text`, if it
/// reads one.
pub uninterp spec fn parsed_date(text: Seq<char>) -> Option<Date>;

/// Reads a `YYYY-MM-DD` date with chrono's `NaiveDate::from_str`.
/// Trusted: the result is `parsed_date` of the text (chrono's parser is a
/// function of its input), and a date that is read has a month in 1..=12 and
/// a day in 1..=31, as chrono's `Datelike::month` and `Datelike::day`
/// document. Which texts are accepted is left to chrono.
#[verifier::external_body]
fn parse_date(text: &str) -> (r: Option<Date>)
    ensures
        r == parsed_date(text@),
        r matches Some(d) ==> 1 <= d.month <= 12 && 1 <= d.day <= 31,
{
    match chrono::NaiveDate::from_str(text) {
        Ok(d) => Some(Date { year: d.year(), month: d.month(), day: d.day() }),
        Err(_) => None,
    }
}

/// The date read from an optional text.
pub open spec fn parsed_optional_date(text: Option<String>) -> Option<Date> {
    match text {
        Some(t) => parsed_date(t@),
        None => None,
    }
}

/// The text held, or the empty text.
pub open spec fn text_or_empty(o: Option<String>) -> Seq<char> {
    match o {
        Some(s) => s@,
        None => Seq::empty(),
    }
}

fn string_or_empty(o: Option<String>) -> (r: String)
    ensures
        r@ == text_or_empty(o),
{
    match o {
        Some(s) => s,
        None => String::new(),
    }
}

/// The channel described by `dto`, with its launch and closing dates already
/// read.
pub open spec fn channel_view_of(
    dto: ChannelDTO,
    launched: Option<Date>,
    closed: Option<Date>,
) -> ChannelView {
    ChannelView {
        id: dto.id@,
        name: dto.name@,
        alt_names: dto.alt_names.deep_view(),
        category_ids: dto.categories.deep_view(),
        country_code: dto.country@,
        is_nsfw: dto.is_nsfw,
        launched,
        closed,
        website: dto.website@,
        network: text_or_empty(dto.network),
    }
}

/// Builds the channel of `dto` from the dates read from its `launched` and
/// `closed` fields.
pub fn channel_from_dto(dto: ChannelDTO, launched: Option<Date>, closed: Option<Date>) -> (r:
    Channel)
    ensures
        r@ == channel_view_of(dto, launched, closed),
{
    Channel {
        id: dto.id,
        name: dto.name,
        alt_names: dto.alt_names,
        category_ids: dto.categories,
        country_code: dto.country,
        is_nsfw: dto.is_nsfw,
        launched,
        closed,
        website: dto.website,
        network: string_or_empty(dto.network),
    }
}

/// Maps an API channel record to a channel; a date that cannot be read is
/// left out.
pub fn map_channel_dto(dto: ChannelDTO) -> (r: Option<Channel>)
    ensures
        r matches Some(c) && c@ == channel_view_of(
            dto,
            parsed_optional_date(dto.launched),
            parsed_optional_date(dto.closed),
        ),
{
    let launched = match &dto.launched {
        Some(d) => parse_date(d.as_str()),
        None => None,
    };
    let closed = match &dto.closed {
        Some(d) => parse_date(d.as_str()),
        None => None,
    };
    Some(channel_from_dto(dto, launched, closed))
}

/// The stream described by `dto`: none without a URL or a title.
pub open spec fn stream_view_of(dto: StreamDTO) -> Option<StreamView> {
    if dto.url@.len() == 0 || dto.title@.len() == 0 {
        None
    } else {
        Some(
            StreamView {
                channel_id: text_or_empty(dto.channel),
                feed_id: text_or_empty(dto.feed),
                url: dto.url@,
                quality: text_or_empty(dto.quality),
                referrer: text_or_empty(dto.referrer),
                title: dto.title@,
                user_agent: text_or_empty(dto.user_agent),
            },
        )
    }
}

/// Maps an API stream record to a stream; a record without URL or title is
/// dropped.
pub fn map_stream_dto(dto: StreamDTO) -> (r: Option<Stream>)
    ensures
        r.deep_view() == stream_view_of(dto),
{
    if dto.url.as_str().is_empty() || dto.title.as_str().is_empty() {
        return None;
    }
    Some(
        Stream {
            channel_id: string_or_empty(dto.channel),
            feed_id: string_or_empty(dto.feed),
            url: dto.url,
            quality: string_or_empty(dto.quality),
            referrer: string_or_empty(dto.referrer),
            title: dto.title,
            user_agent: string_or_empty(dto.user_agent),
        },
    )
}

/// The feed described by `dto`: none without an identifier, a channel or a
/// name.
pub open spec fn feed_view_of(dto: FeedDTO) -> Option<FeedView> {
    if dto.id@.len() == 0 || dto.channel@.len() == 0 || dto.name@.len() == 0 {
        None
    } else {
        Some(
            FeedView {
                id: dto.id@,
                channel_id: dto.channel@,
                name: dto.name@,
                broadcast_codes: dto.broadcast_areas.deep_view(),
                language_codes: dto.languages.deep_view(),
                is_main: false,
            },
        )
    }
}

/// Maps an API feed record to a feed; a record without identifier, channel
/// or name is dropped.
pub fn map_feed_dto(dto: FeedDTO) -> (r: Option<Feed>)
    ensures
        r.deep_view() == feed_view_of(dto),
{
    if dto.id.as_str().is_empty() || dto.channel.as_str().is_empty()
        || dto.name.as_str().is_empty() {
        return None;
    }
    Some(
        Feed {
            id: dto.id,
            channel_id: dto.channel,
            name: dto.name,
            broadcast_codes: dto.broadcast_areas,
            language_codes: dto.languages,
            is_main: false,
        },
    )
}

/// Maps an API language record to a language.
pub fn map_language_dto(dto: LanguageDTO) -> (r: Option<Language>)
    ensures
        r.deep_view() == Some(LanguageView { code: dto.code@, name: dto.name@ }),
{
    Some(Language { code: dto.code, name: dto.name })
}

/// Maps an API country record to a country.
pub fn map_country_dto(dto: CountryDTO) -> (r: Option<Country>)
    ensures
        r.deep_view() == Some(
            CountryView {
                code: dto.code@,
                name: dto.name@,
                languages: dto.languages.deep_view(),
                flag_url: dto.flag@,
            },
        ),
{
    Some(Country { code: dto.code, name: dto.name, languages: dto.languages, flag_url: dto.flag })
}

/// Maps an API category record to a category.
pub fn map_category_dto(dto: CategoryDTO) -> (r: Option<Category>)
    ensures
        r.deep_view() == Some(
            CategoryView { id: dto.id@, name: dto.name@, description: dto.description@ },
        ),
{
    Some(Category { id: dto.id, name: dto.name, description: dto.description })
}

} // verus!
