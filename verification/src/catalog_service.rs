//! Catalog use cases: searching and filtering the channels of a repository.
use crate::domain::{Categories, Channel, ChannelView, Channels, Countries, CountryView, Languages};
use crate::repository::CatalogRepository;
use crate::text::{
    contains_chars, eq_ignore_ascii_case, eq_ignore_case, has_substring, is_blank, is_blank_text,
    is_space_char, lower, lower_char, lower_chars,
};
use vstd::prelude::*;

verus! {

/// The channels of `chs` that satisfy `p`, in the order they are listed.
pub open spec fn select(chs: Seq<ChannelView>, p: spec_fn(ChannelView) -> bool) -> Seq<ChannelView>
    decreases chs.len(),
{
    if chs.len() == 0 {
        Seq::empty()
    } else {
        let rest = select(chs.drop_last(), p);
        if p(chs.last()) {
            rest.push(chs.last())
        } else {
            rest
        }
    }
}

/// The name or one of the alternative names of `c` contains `query`, both
/// taken in ASCII lower case.
pub open spec fn matches_query(c: ChannelView, query: Seq<char>) -> bool {
    has_substring(lower(c.name), lower(query)) || exists|i: int|
        0 <= i < c.alt_names.len() && has_substring(lower(#[trigger] c.alt_names[i]), lower(query))
}

pub open spec fn query_filter(query: Seq<char>) -> spec_fn(ChannelView) -> bool {
    |c: ChannelView| matches_query(c, query)
}

/// One of the category identifiers of `c` equals `category_id` up to ASCII
/// case.
pub open spec fn in_category(c: ChannelView, category_id: Seq<char>) -> bool {
    exists|i: int|
        0 <= i < c.category_ids.len() && eq_ignore_case(#[trigger] c.category_ids[i], category_id)
}

pub open spec fn category_filter(category_id: Seq<char>) -> spec_fn(ChannelView) -> bool {
    |c: ChannelView| in_category(c, category_id)
}

/// The country code of `c` equals `country_code` up to ASCII case.
pub open spec fn in_country(c: ChannelView, country_code: Seq<char>) -> bool {
    eq_ignore_case(c.country_code, country_code)
}

pub open spec fn country_filter(country_code: Seq<char>) -> spec_fn(ChannelView) -> bool {
    |c: ChannelView| in_country(c, country_code)
}

/// The result of a search: nothing for a query that is empty or only white
/// space, otherwise the channels whose name or alternative names contain the
/// query, ignoring ASCII case.
pub open spec fn search_results(chs: Seq<ChannelView>, query: Seq<char>) -> Seq<ChannelView> {
    if is_blank(query) {
        Seq::empty()
    } else {
        select(chs, query_filter(query))
    }
}

/// The channels listed under a category: nothing for an empty identifier.
pub open spec fn category_results(chs: Seq<ChannelView>, category_id: Seq<char>) -> Seq<
    ChannelView,
> {
    if category_id.len() == 0 {
        Seq::empty()
    } else {
        select(chs, category_filter(category_id))
    }
}

/// The channels of a country: nothing for an empty code.
pub open spec fn country_results(chs: Seq<ChannelView>, country_code: Seq<char>) -> Seq<
    ChannelView,
> {
    if country_code.len() == 0 {
        Seq::empty()
    } else {
        select(chs, country_filter(country_code))
    }
}

/// One of the languages of `country` equals `language_code` up to ASCII case.
pub open spec fn speaks(country: CountryView, language_code: Seq<char>) -> bool {
    exists|j: int|
        0 <= j < country.languages.len() && eq_ignore_case(
            #[trigger] country.languages[j],
            language_code,
        )
}

/// `i` is the first country that speaks `language_code`.
pub open spec fn is_first_speaking(
    countries: Seq<CountryView>,
    language_code: Seq<char>,
    i: int,
) -> bool {
    &&& 0 <= i < countries.len()
    &&& speaks(countries[i], language_code)
    &&& forall|j: int| 0 <= j < i ==> !speaks(#[trigger] countries[j], language_code)
}

/// The first country that speaks `language_code`, if any.
pub open spec fn first_speaking(countries: Seq<CountryView>, language_code: Seq<char>) -> Option<
    CountryView,
> {
    if exists|i: int| is_first_speaking(countries, language_code, i) {
        Some(countries[choose|i: int| is_first_speaking(countries, language_code, i)])
    } else {
        None
    }
}

/// The channels of a language: those of the first country that speaks it;
/// nothing for an empty code or a language that no country speaks.
pub open spec fn language_results(
    chs: Seq<ChannelView>,
    countries: Seq<CountryView>,
    language_code: Seq<char>,
) -> Seq<ChannelView> {
    if language_code.len() == 0 {
        Seq::empty()
    } else {
        match first_speaking(countries, language_code) {
            Some(country) => country_results(chs, country.code),
            None => Seq::empty(),
        }
    }
}

proof fn lemma_select_push(chs: Seq<ChannelView>, c: ChannelView, p: spec_fn(ChannelView) -> bool)
    ensures
        select(chs.push(c), p) == if p(c) {
            select(chs, p).push(c)
        } else {
            select(chs, p)
        },
{
    assert(chs.push(c).drop_last() =~= chs);
}

/// Whether the channel matches the (lower-cased) query by name or
/// alternative name.
fn channel_matches_query(c: &Channel, query: &Vec<char>, Ghost(q): Ghost<Seq<char>>) -> (r: bool)
    requires
        query@ == lower(q),
    ensures
        r == matches_query(c@, q),
{
    let name = lower_chars(c.name.as_str());
    if contains_chars(&name, query) {
        return true;
    }
    let n = c.alt_names.len();
    for i in 0..n
        invariant
            n == c.alt_names.len(),
            query@ == lower(q),
            !has_substring(lower(c@.name), lower(q)),
            forall|j: int| 0 <= j < i ==> !has_substring(lower(#[trigger] c@.alt_names[j]), lower(q)),
    {
        let alt = lower_chars(c.alt_names[i].as_str());
        if contains_chars(&alt, query) {
            assert(has_substring(lower(c@.alt_names[i as int]), lower(q)));
            return true;
        }
    }
    false
}

/// Whether one of the channel's categories equals `category_id` up to ASCII
/// case.
fn channel_in_category(c: &Channel, category_id: &str) -> (r: bool)
    ensures
        r == in_category(c@, category_id@),
{
    let n = c.category_ids.len();
    for i in 0..n
        invariant
            n == c.category_ids.len(),
            forall|j: int|
                0 <= j < i ==> !eq_ignore_case(#[trigger] c@.category_ids[j], category_id@),
    {
        if eq_ignore_ascii_case(c.category_ids[i].as_str(), category_id) {
            assert(eq_ignore_case(c@.category_ids[i as int], category_id@));
            return true;
        }
    }
    false
}

/// Whether one of the country's languages equals `language_code` up to ASCII
/// case.
fn country_speaks(country: &crate::domain::Country, language_code: &str) -> (r: bool)
    ensures
        r == speaks(country@, language_code@),
{
    let n = country.languages.len();
    for j in 0..n
        invariant
            n == country.languages.len(),
            forall|k: int|
                0 <= k < j ==> !eq_ignore_case(#[trigger] country@.languages[k], language_code@),
    {
        if eq_ignore_ascii_case(country.languages[j].as_str(), language_code) {
            assert(eq_ignore_case(country@.languages[j as int], language_code@));
            return true;
        }
    }
    false
}

/// Searches the channels by name or alternative name, ignoring ASCII case.
pub fn search_channels(chs: &Vec<Channel>, query: &str) -> (r: Channels)
    ensures
        r.deep_view() == search_results(chs.deep_view(), query@),
{
    if is_blank_text(query) {
        return Vec::new();
    }
    let q = lower_chars(query);
    let ghost all = chs.deep_view();
    let mut r: Vec<Channel> = Vec::new();
    let n = chs.len();
    for k in 0..n
        invariant
            n == chs.len(),
            all == chs.deep_view(),
            q@ == lower(query@),
            r.deep_view() == select(all.take(k as int), query_filter(query@)),
    {
        proof {
            assert(all.take(k + 1) =~= all.take(k as int).push(all[k as int]));
            lemma_select_push(all.take(k as int), all[k as int], query_filter(query@));
        }
        if channel_matches_query(&chs[k], &q, Ghost(query@)) {
            r.push(chs[k].clone());
            proof {
                assert(r.deep_view() =~= select(all.take(k as int), query_filter(query@)).push(
                    all[k as int],
                ));
            }
        }
    }
    assert(all.take(n as int) =~= all);
    r
}

/// The channels listed under `category_id` (ASCII case ignored).
pub fn channels_in_category(chs: &Vec<Channel>, category_id: &str) -> (r: Channels)
    ensures
        r.deep_view() == category_results(chs.deep_view(), category_id@),
{
    if category_id.is_empty() {
        return Vec::new();
    }
    let ghost all = chs.deep_view();
    let mut r: Vec<Channel> = Vec::new();
    let n = chs.len();
    for k in 0..n
        invariant
            n == chs.len(),
            all == chs.deep_view(),
            r.deep_view() == select(all.take(k as int), category_filter(category_id@)),
    {
        proof {
            assert(all.take(k + 1) =~= all.take(k as int).push(all[k as int]));
            lemma_select_push(all.take(k as int), all[k as int], category_filter(category_id@));
        }
        if channel_in_category(&chs[k], category_id) {
            r.push(chs[k].clone());
            proof {
                assert(r.deep_view() =~= select(
                    all.take(k as int),
                    category_filter(category_id@),
                ).push(all[k as int]));
            }
        }
    }
    assert(all.take(n as int) =~= all);
    r
}

/// The channels whose country code is `country_code` (ASCII case ignored).
pub fn channels_in_country(chs: &Vec<Channel>, country_code: &str) -> (r: Channels)
    ensures
        r.deep_view() == country_results(chs.deep_view(), country_code@),
{
    if country_code.is_empty() {
        return Vec::new();
    }
    let ghost all = chs.deep_view();
    let mut r: Vec<Channel> = Vec::new();
    let n = chs.len();
    for k in 0..n
        invariant
            n == chs.len(),
            all == chs.deep_view(),
            r.deep_view() == select(all.take(k as int), country_filter(country_code@)),
    {
        proof {
            assert(all.take(k + 1) =~= all.take(k as int).push(all[k as int]));
            lemma_select_push(all.take(k as int), all[k as int], country_filter(country_code@));
        }
        if eq_ignore_ascii_case(chs[k].country_code.as_str(), country_code) {
            r.push(chs[k].clone());
            proof {
                assert(r.deep_view() =~= select(
                    all.take(k as int),
                    country_filter(country_code@),
                ).push(all[k as int]));
            }
        }
    }
    assert(all.take(n as int) =~= all);
    r
}

/// The channels of the first country that speaks `language_code` (ASCII case
/// ignored).
pub fn channels_in_language(
    chs: &Vec<Channel>,
    countries: &Vec<crate::domain::Country>,
    language_code: &str,
) -> (r: Channels)
    ensures
        r.deep_view() == language_results(
            chs.deep_view(),
            countries.deep_view(),
            language_code@,
        ),
{
    if language_code.is_empty() {
        return Vec::new();
    }
    let ghost cs = countries.deep_view();
    let n = countries.len();
    for i in 0..n
        invariant
            n == countries.len(),
            cs == countries.deep_view(),
            language_code@.len() > 0,
            forall|j: int| 0 <= j < i ==> !speaks(#[trigger] cs[j], language_code@),
    {
        if country_speaks(&countries[i], language_code) {
            let r = channels_in_country(chs, countries[i].code.as_str());
            proof {
                assert(is_first_speaking(cs, language_code@, i as int));
                let k = choose|k: int| is_first_speaking(cs, language_code@, k);
                assert(k == i) by {
                    if k < i {
                        assert(!speaks(cs[k], language_code@));
                    } else if k > i {
                        assert(!speaks(cs[i as int], language_code@));
                    }
                }
            }
            return r;
        }
    }
    proof {
        assert forall|i: int| !is_first_speaking(cs, language_code@, i) by {
            if 0 <= i < cs.len() {
                assert(!speaks(cs[i], language_code@));
            }
        }
    }
    Vec::new()
}

/// The catalog use cases offered to applications.
pub trait CatalogService: Sized {
    /// Channels whose name or alternative names contain `query`.
    fn search(&self, query: &str) -> Channels;

    /// Channels listed under a category.
    fn filter_by_category_id(&self, category_id: &str) -> Channels;

    /// Channels of a country.
    fn filter_by_country(&self, country_code: &str) -> Channels;

    /// Channels of a language.
    fn filter_by_language(&self, language_code: &str) -> Channels;

    /// All channels.
    fn get_all(&self) -> Channels;

    /// All categories.
    fn get_categories(&self) -> Categories;

    /// All countries.
    fn get_countries(&self) -> Countries;

    /// All languages.
    fn get_languages(&self) -> Languages;

    /// Whether `after` is a state this service can be left in by one
    /// refresh. An implementation states what its refresh does by overriding
    /// this.
    closed spec fn spec_refreshes_to(&self, after: Self) -> bool {
        arbitrary()
    }

    /// Reloads the catalog.
    fn refresh(&mut self)
        ensures
            old(self).spec_refreshes_to(*final(self)),
    ;
}

/// The catalog service over a repository.
pub struct IptvCatalogService<R: CatalogRepository> {
    inner: R,
}

impl<R: CatalogRepository> IptvCatalogService<R> {
    /// The repository this service reads.
    pub closed spec fn repository(&self) -> R {
        self.inner
    }

    pub fn new(repository: R) -> (r: Self)
        ensures
            r.repository() == repository,
    {
        IptvCatalogService { inner: repository }
    }
}

impl<R: CatalogRepository> CatalogService for IptvCatalogService<R> {
    fn search(&self, query: &str) -> (r: Channels)
        ensures
            r.deep_view() == search_results(self.repository().spec_channels(), query@),
    {
        if is_blank_text(query) {
            return Vec::new();
        }
        let chs = self.inner.get_channels();
        search_channels(&chs, query)
    }

    fn filter_by_category_id(&self, category_id: &str) -> (r: Channels)
        ensures
            r.deep_view() == category_results(self.repository().spec_channels(), category_id@),
    {
        if category_id.is_empty() {
            return Vec::new();
        }
        let chs = self.inner.get_channels();
        channels_in_category(&chs, category_id)
    }

    fn filter_by_country(&self, country_code: &str) -> (r: Channels)
        ensures
            r.deep_view() == country_results(self.repository().spec_channels(), country_code@),
    {
        if country_code.is_empty() {
            return Vec::new();
        }
        let chs = self.inner.get_channels();
        channels_in_country(&chs, country_code)
    }

    fn filter_by_language(&self, language_code: &str) -> (r: Channels)
        ensures
            r.deep_view() == language_results(
                self.repository().spec_channels(),
                self.repository().spec_countries(),
                language_code@,
            ),
    {
        if language_code.is_empty() {
            return Vec::new();
        }
        let countries = self.inner.get_countries();
        let chs = self.inner.get_channels();
        channels_in_language(&chs, &countries, language_code)
    }

    fn get_all(&self) -> (r: Channels)
        ensures
            r.deep_view() == self.repository().spec_channels(),
    {
        self.inner.get_channels()
    }

    fn get_categories(&self) -> (r: Categories)
        ensures
            r.deep_view() == self.repository().spec_categories(),
    {
        self.inner.get_categories()
    }

    fn get_countries(&self) -> (r: Countries)
        ensures
            r.deep_view() == self.repository().spec_countries(),
    {
        self.inner.get_countries()
    }

    fn get_languages(&self) -> (r: Languages)
        ensures
            r.deep_view() == self.repository().spec_languages(),
    {
        self.inner.get_languages()
    }

    /// Refreshing the service is refreshing its repository.
    open spec fn spec_refreshes_to(&self, after: Self) -> bool {
        self.repository().spec_refreshes_to(after.repository())
    }

    fn refresh(&mut self) {
        self.inner.refresh();
    }
}

// ----------------------------------------------------------------------------
// Laws of search and filtering
// ----------------------------------------------------------------------------

/// A selection holds exactly the channels that satisfy the predicate: each
/// selected channel is one of the channels and satisfies it, and each channel
/// that satisfies it is selected.
pub proof fn lemma_select_exact(chs: Seq<ChannelView>, p: spec_fn(ChannelView) -> bool)
    ensures
        forall|i: int|
            0 <= i < select(chs, p).len() ==> p(#[trigger] select(chs, p)[i]) && chs.contains(
                select(chs, p)[i],
            ),
        forall|k: int| 0 <= k < chs.len() && p(#[trigger] chs[k]) ==> select(chs, p).contains(chs[k]),
        select(chs, p).len() <= chs.len(),
    decreases chs.len(),
{
    if chs.len() > 0 {
        let init = chs.drop_last();
        lemma_select_exact(init, p);
        let r = select(chs, p);
        let ri = select(init, p);
        assert forall|i: int| 0 <= i < r.len() implies p(#[trigger] r[i]) && chs.contains(r[i]) by {
            if i < ri.len() {
                assert(r[i] == ri[i]);
                let j = choose|j: int| 0 <= j < init.len() && init[j] == ri[i];
                assert(chs[j] == init[j]);
            } else {
                assert(chs[chs.len() - 1] == r[i]);
            }
        }
        assert forall|k: int| 0 <= k < chs.len() && p(#[trigger] chs[k]) implies r.contains(chs[k]) by {
            if k < chs.len() - 1 {
                assert(init[k] == chs[k]);
                let j = choose|j: int| 0 <= j < ri.len() && ri[j] == init[k];
                assert(r[j] == ri[j]);
            } else {
                assert(r[r.len() - 1] == chs[k]);
            }
        }
    }
}

/// A search returns exactly the catalog channels that match a query that is
/// not blank, by name or alternative name; a blank query returns nothing.
pub proof fn lemma_search_exact(chs: Seq<ChannelView>, query: Seq<char>)
    requires
        !is_blank(query),
    ensures
        forall|i: int|
            0 <= i < search_results(chs, query).len() ==> matches_query(
                #[trigger] search_results(chs, query)[i],
                query,
            ) && chs.contains(search_results(chs, query)[i]),
        forall|k: int|
            0 <= k < chs.len() && matches_query(#[trigger] chs[k], query) ==> search_results(
                chs,
                query,
            ).contains(chs[k]),
{
    lemma_select_exact(chs, query_filter(query));
    assert forall|k: int| 0 <= k < chs.len() && matches_query(#[trigger] chs[k], query) implies search_results(
        chs,
        query,
    ).contains(chs[k]) by {
        assert(query_filter(query)(chs[k]));
    }
}

/// Searching ignores ASCII case: queries that are equal up to case give the
/// same results.
pub proof fn lemma_search_ignores_case(chs: Seq<ChannelView>, q1: Seq<char>, q2: Seq<char>)
    requires
        lower(q1) == lower(q2),
    ensures
        search_results(chs, q1) == search_results(chs, q2),
{
    assert(lower(q1).len() == q1.len() && lower(q2).len() == q2.len());
    assert forall|i: int| 0 <= i < q1.len() implies is_space_char(#[trigger] q1[i])
        == is_space_char(q2[i]) by {
        assert(lower(q1)[i] == lower_char(q1[i]));
        assert(lower(q2)[i] == lower_char(q2[i]));
    }
    assert(is_blank(q1) == is_blank(q2)) by {
        if is_blank(q1) {
            assert forall|i: int| 0 <= i < q2.len() implies is_space_char(#[trigger] q2[i]) by {
                assert(is_space_char(q1[i]));
            }
        }
        if is_blank(q2) {
            assert forall|i: int| 0 <= i < q1.len() implies is_space_char(#[trigger] q1[i]) by {
                assert(is_space_char(q2[i]));
            }
        }
    }
    assert(query_filter(q1) =~= query_filter(q2));
}

/// Filtering by country returns exactly the channels whose country code
/// equals a non-empty code up to ASCII case, and codes equal up to case give
/// the same channels.
pub proof fn lemma_country_filter_exact(chs: Seq<ChannelView>, code: Seq<char>, other: Seq<char>)
    requires
        code.len() > 0,
    ensures
        forall|i: int|
            0 <= i < country_results(chs, code).len() ==> eq_ignore_case(
                (#[trigger] country_results(chs, code)[i]).country_code,
                code,
            ) && chs.contains(country_results(chs, code)[i]),
        forall|k: int|
            0 <= k < chs.len() && eq_ignore_case((#[trigger] chs[k]).country_code, code)
                ==> country_results(chs, code).contains(chs[k]),
        lower(code) == lower(other) ==> country_results(chs, code) == country_results(chs, other),
{
    lemma_select_exact(chs, country_filter(code));
    assert forall|i: int| 0 <= i < country_results(chs, code).len() implies eq_ignore_case(
        (#[trigger] country_results(chs, code)[i]).country_code,
        code,
    ) && chs.contains(country_results(chs, code)[i]) by {
        assert(country_filter(code)(country_results(chs, code)[i]));
    }
    assert forall|k: int|
        0 <= k < chs.len() && eq_ignore_case((#[trigger] chs[k]).country_code, code) implies country_results(
        chs,
        code,
    ).contains(chs[k]) by {
        assert(country_filter(code)(chs[k]));
    }
    if lower(code) == lower(other) {
        assert(lower(other).len() == other.len());
        assert(country_filter(code) =~= country_filter(other));
    }
}

/// Filtering by category returns exactly the channels listed under a
/// non-empty category identifier, ignoring ASCII case.
pub proof fn lemma_category_filter_exact(chs: Seq<ChannelView>, category_id: Seq<char>)
    requires
        category_id.len() > 0,
    ensures
        forall|i: int|
            0 <= i < category_results(chs, category_id).len() ==> in_category(
                #[trigger] category_results(chs, category_id)[i],
                category_id,
            ) && chs.contains(category_results(chs, category_id)[i]),
        forall|k: int|
            0 <= k < chs.len() && in_category(#[trigger] chs[k], category_id) ==> category_results(
                chs,
                category_id,
            ).contains(chs[k]),
{
    lemma_select_exact(chs, category_filter(category_id));
    assert forall|i: int| 0 <= i < category_results(chs, category_id).len() implies in_category(
        #[trigger] category_results(chs, category_id)[i],
        category_id,
    ) && chs.contains(category_results(chs, category_id)[i]) by {
        assert(category_filter(category_id)(category_results(chs, category_id)[i]));
    }
    assert forall|k: int|
        0 <= k < chs.len() && in_category(#[trigger] chs[k], category_id) implies category_results(
        chs,
        category_id,
    ).contains(chs[k]) by {
        assert(category_filter(category_id)(chs[k]));
    }
}

/// Filtering by language is filtering by the country of the first country that
/// speaks it.
pub proof fn lemma_language_is_first_country(
    chs: Seq<ChannelView>,
    countries: Seq<CountryView>,
    language_code: Seq<char>,
    i: int,
)
    requires
        language_code.len() > 0,
        is_first_speaking(countries, language_code, i),
    ensures
        language_results(chs, countries, language_code) == country_results(chs, countries[i].code),
{
    let k = choose|k: int| is_first_speaking(countries, language_code, k);
    assert(k == i) by {
        if k < i {
            assert(!speaks(countries[k], language_code));
        } else if k > i {
            assert(!speaks(countries[i], language_code));
        }
    }
}

} // verus!
