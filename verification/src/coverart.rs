//! Cover art from several providers, graded and put in order.

use vstd::prelude::*;
use std::sync::Arc;
use crate::ranking::{
    best_first, law_ranking_is_unique, lemma_ranked_keeps, ranked, sort_best_first, Graded,
};
use crate::text::{owned, texts};

verus! {

/// Provider information structure
#[derive(Debug, Clone)]
pub struct ProviderInfo {
    pub name: String,
    pub display_name: String,
}

/// What is known of an image file.
#[derive(Debug, Clone)]
pub struct ImageMetadata {
    pub width: u32,
    pub height: u32,
    pub size_bytes: u64,
    pub format: String,
}

/// Image information with URL and metadata
#[derive(Debug, Clone)]
pub struct ImageInfo {
    pub url: String,
    pub width: Option<u32>,
    pub height: Option<u32>,
    pub size_bytes: Option<u64>,
    pub format: Option<String>,
    pub grade: Option<i32>,
}

/// What a grader is told of an image.
#[derive(Debug, Clone)]
pub struct GraderImageInfo {
    pub url: String,
    pub width: Option<u32>,
    pub height: Option<u32>,
    pub size_bytes: Option<u64>,
    pub format: Option<String>,
    pub provider: String,
}

impl ImageInfo {
    /// An image of which only the URL is known.
    pub open spec fn bare(url: String) -> ImageInfo {
        ImageInfo { url, width: None, height: None, size_bytes: None, format: None, grade: None }
    }

    /// The image with its metadata filled in. The grade stays.
    pub open spec fn measured(self, metadata: ImageMetadata) -> ImageInfo {
        ImageInfo {
            url: self.url,
            width: Some(metadata.width),
            height: Some(metadata.height),
            size_bytes: Some(metadata.size_bytes),
            format: Some(metadata.format),
            grade: self.grade,
        }
    }

    /// The image after an attempt to measure it: a failed one changes nothing.
    pub open spec fn after_fetch(self, found: Result<ImageMetadata, String>) -> ImageInfo {
        match found {
            Ok(metadata) => self.measured(metadata),
            Err(_) => self,
        }
    }

    /// The image with a grade.
    pub open spec fn graded(self, grade: i32) -> ImageInfo {
        ImageInfo {
            url: self.url,
            width: self.width,
            height: self.height,
            size_bytes: self.size_bytes,
            format: self.format,
            grade: Some(grade),
        }
    }

    /// What the grader is told of the image.
    pub open spec fn for_grader(self, provider: String) -> GraderImageInfo {
        GraderImageInfo {
            url: self.url,
            width: self.width,
            height: self.height,
            size_bytes: self.size_bytes,
            format: self.format,
            provider,
        }
    }

    /// Create a new ImageInfo with just a URL (no metadata)
    pub fn new(url: String) -> (r: Self)
        ensures
            r == ImageInfo::bare(url),
    {
        ImageInfo { url, width: None, height: None, size_bytes: None, format: None, grade: None }
    }

    /// Create a new ImageInfo with URL and metadata
    pub fn with_metadata(url: String, metadata: ImageMetadata) -> (r: Self)
        ensures
            r == ImageInfo::bare(url).measured(metadata),
    {
        ImageInfo {
            url,
            width: Some(metadata.width),
            height: Some(metadata.height),
            size_bytes: Some(metadata.size_bytes),
            format: Some(metadata.format),
            grade: None,
        }
    }

    /// Add the metadata that was found for this image. Where the attempt failed,
    /// the image stays as it is.
    pub fn fetch_metadata(&mut self, found: Result<ImageMetadata, String>)
        ensures
            *final(self) == old(self).after_fetch(found),
    {
        match found {
            Ok(metadata) => {
                self.width = Some(metadata.width);
                self.height = Some(metadata.height);
                self.size_bytes = Some(metadata.size_bytes);
                self.format = Some(metadata.format);
            },
            Err(_) => {},
        }
    }

    /// Set the grade for this image
    pub fn set_grade(&mut self, grade: i32)
        ensures
            *final(self) == old(self).graded(grade),
    {
        self.grade = Some(grade);
    }

    /// Convert to grader format
    pub fn to_grader(&self, provider: &String) -> (r: GraderImageInfo)
        ensures
            r == self.for_grader(*provider),
    {
        let format = match &self.format {
            Some(f) => Some(f.clone()),
            None => None,
        };
        GraderImageInfo {
            url: self.url.clone(),
            width: self.width,
            height: self.height,
            size_bytes: self.size_bytes,
            format,
            provider: provider.clone(),
        }
    }
}

impl Graded for ImageInfo {
    /// The grade; an image without one counts as zero.
    open spec fn rank(&self) -> i32 {
        match self.grade {
            Some(g) => g,
            None => 0,
        }
    }

    fn rank_of(&self) -> (r: i32) {
        match self.grade {
            Some(g) => g,
            None => 0,
        }
    }
}

/// Cover art result from a specific provider
#[derive(Debug, Clone)]
pub struct CoverartResult {
    pub provider: ProviderInfo,
    pub images: Vec<ImageInfo>,
}

impl Graded for CoverartResult {
    /// The grade of the first image; the lowest number where there is none.
    open spec fn rank(&self) -> i32 {
        if self.images@.len() > 0 {
            match self.images@[0].grade {
                Some(g) => g,
                None => i32::MIN,
            }
        } else {
            i32::MIN
        }
    }

    fn rank_of(&self) -> (r: i32) {
        if self.images.len() > 0 {
            match self.images[0].grade {
                Some(g) => g,
                None => i32::MIN,
            }
        } else {
            i32::MIN
        }
    }
}

/// The images of a list of URLs, each after the attempt to measure it.
pub open spec fn measured_all(
    urls: Seq<String>,
    found: Seq<Result<ImageMetadata, String>>,
) -> Seq<ImageInfo> {
    Seq::new(urls.len(), |i: int| ImageInfo::bare(urls[i]).after_fetch(found[i]))
}

/// The images with their grades.
pub open spec fn graded_all(images: Seq<ImageInfo>, scores: Seq<i32>) -> Seq<ImageInfo> {
    Seq::new(images.len(), |i: int| images[i].graded(scores[i]))
}

/// `scores` are grades that the grader can give the images of a provider.
pub open spec fn graded_by<G: Fn(&GraderImageInfo) -> i32>(
    grade: G,
    provider: String,
    images: Seq<ImageInfo>,
    scores: Seq<i32>,
) -> bool {
    &&& scores.len() == images.len()
    &&& forall|i: int|
        0 <= i < images.len() ==> call_ensures(
            grade,
            (&images[i].for_grader(provider),),
            #[trigger] scores[i],
        )
}

/// The result that grading and sorting makes of images.
pub open spec fn result_of<G: Fn(&GraderImageInfo) -> i32>(
    provider: ProviderInfo,
    images: Seq<ImageInfo>,
    grade: G,
    result: CoverartResult,
) -> bool {
    &&& result.provider == provider
    &&& exists|scores: Seq<i32>| #[trigger]
        graded_by(grade, provider.name, images, scores) && ranked(
            graded_all(images, scores),
            result.images@,
        )
}

/// Builds one image for each URL and adds what was found of it.
pub fn describe_images(
    urls: Vec<String>,
    found: Vec<Result<ImageMetadata, String>>,
) -> (r: Vec<ImageInfo>)
    requires
        found.len() == urls.len(),
    ensures
        r@ == measured_all(urls@, found@),
{
    let ghost all_urls = urls@;
    let ghost all_found = found@;
    let mut urls = urls;
    let mut found = found;
    let mut images: Vec<ImageInfo> = Vec::new();
    while urls.len() > 0
        invariant
            urls.len() <= all_urls.len(),
            all_found.len() == all_urls.len(),
            found.len() == urls.len(),
            urls@ == all_urls.skip(all_urls.len() - urls.len()),
            found@ == all_found.skip(all_urls.len() - urls.len()),
            images@ == measured_all(all_urls, all_found).take(all_urls.len() - urls.len()),
        decreases urls.len(),
    {
        let ghost n = all_urls.len() - urls.len();
        let url = urls.remove(0);
        let report = found.remove(0);
        let mut image = ImageInfo::new(url);
        image.fetch_metadata(report);
        images.push(image);
        proof {
            assert(urls@ =~= all_urls.skip(n + 1));
            assert(found@ =~= all_found.skip(n + 1));
            assert(images@ =~= measured_all(all_urls, all_found).take(n + 1));
        }
    }
    assert(images@ =~= measured_all(all_urls, all_found));
    images
}

impl CoverartResult {
    /// Create a new CoverartResult from a provider, a list of URLs, what was found
    /// of each image, and a grader
    pub fn new<G: Fn(&GraderImageInfo) -> i32>(
        provider: ProviderInfo,
        urls: Vec<String>,
        found: Vec<Result<ImageMetadata, String>>,
        grade: &G,
    ) -> (r: Self)
        requires
            found.len() == urls.len(),
            forall|info: &GraderImageInfo| call_requires(*grade, (info,)),
        ensures
            result_of(provider, measured_all(urls@, found@), *grade, r),
    {
        let images = describe_images(urls, found);
        CoverartResult::with_images(provider, images, grade)
    }

    /// Create a new CoverartResult with pre-computed ImageInfo and apply grading
    pub fn with_images<G: Fn(&GraderImageInfo) -> i32>(
        provider: ProviderInfo,
        images: Vec<ImageInfo>,
        grade: &G,
    ) -> (r: Self)
        requires
            forall|info: &GraderImageInfo| call_requires(*grade, (info,)),
        ensures
            result_of(provider, images@, *grade, r),
    {
        let mut scores: Vec<i32> = Vec::new();
        let mut i: usize = 0;
        while i < images.len()
            invariant
                i <= images.len(),
                scores.len() == i,
                forall|info: &GraderImageInfo| call_requires(*grade, (info,)),
                forall|k: int|
                    0 <= k < i ==> call_ensures(
                        *grade,
                        (&images@[k].for_grader(provider.name),),
                        #[trigger] scores@[k],
                    ),
            decreases images.len() - i,
        {
            let info = images[i].to_grader(&provider.name);
            let score: i32 = grade(&info);
            scores.push(score);
            i = i + 1;
        }
        let ghost all = images@;
        assert(graded_by(*grade, provider.name, all, scores@));
        CoverartResult::with_scores(provider, images, scores)
    }

    /// Create a new CoverartResult from images and their grades, best image first
    pub fn with_scores(
        provider: ProviderInfo,
        images: Vec<ImageInfo>,
        scores: Vec<i32>,
    ) -> (r: Self)
        requires
            scores.len() == images.len(),
        ensures
            r.provider == provider,
            ranked(graded_all(images@, scores@), r.images@),
            r.images.len() == images.len(),
    {
        let ghost all = images@;
        let mut rest = images;
        let mut graded: Vec<ImageInfo> = Vec::new();
        let mut i: usize = 0;
        while i < scores.len()
            invariant
                i <= scores.len(),
                scores.len() == all.len(),
                rest@ == all.skip(i as int),
                graded@ == graded_all(all, scores@).take(i as int),
            decreases scores.len() - i,
        {
            let mut image = rest.remove(0);
            image.set_grade(scores[i]);
            graded.push(image);
            i = i + 1;
            proof {
                assert(rest@ =~= all.skip(i as int));
                assert(graded@ =~= graded_all(all, scores@).take(i as int));
            }
        }
        assert(graded@ =~= graded_all(all, scores@));
        CoverartResult { provider, images: sort_best_first(graded) }
    }
}

/// Order provider result blocks so the single highest-graded image across *all*
/// providers ends up at `results[0].images[0]`.
///
/// Each provider's own `images` list is already sorted best-first (see
/// [`CoverartResult::with_images`]), so a provider's first image is that
/// provider's own maximum grade. Sorting the provider blocks themselves by that
/// value is therefore equivalent to ranking every image from every provider
/// together ([`law_best_image_first`]).
pub fn sort_by_best_image(results: Vec<CoverartResult>) -> (r: Vec<CoverartResult>)
    ensures
        ranked(results@, r@),
        r.len() == results.len(),
{
    sort_best_first(results)
}

/// Every image of the result carries a grade, the best comes first, and there is
/// at least one.
pub open spec fn presentable(result: CoverartResult) -> bool {
    &&& result.images@.len() > 0
    &&& best_first(result.images@)
    &&& forall|i: int| 0 <= i < result.images@.len() ==> (#[trigger] result.images@[i]).grade is Some
}

/// Of blocks that are each sorted best first, put in order by their first image,
/// the first image of the first block has the highest grade of all.
pub proof fn law_best_image_first(blocks: Seq<CoverartResult>, sorted: Seq<CoverartResult>)
    requires
        ranked(blocks, sorted),
        forall|i: int| 0 <= i < blocks.len() ==> presentable(#[trigger] blocks[i]),
    ensures
        forall|i: int, j: int|
            #![trigger blocks[i].images@[j]]
            0 <= i < blocks.len() && 0 <= j < blocks[i].images@.len() ==> sorted.len() > 0
                && sorted[0].images@.len() > 0 && sorted[0].images@[0].grade->0
                >= blocks[i].images@[j].grade->0,
{
    lemma_ranked_keeps(blocks, sorted);
    assert forall|i: int, j: int|
        #![trigger blocks[i].images@[j]]
        0 <= i < blocks.len() && 0 <= j < blocks[i].images@.len() implies sorted.len() > 0
        && sorted[0].images@.len() > 0 && sorted[0].images@[0].grade->0
        >= blocks[i].images@[j].grade->0 by {
        assert(blocks.contains(blocks[i]));
        assert(sorted.contains(blocks[i]));
        let at = choose|at: int| 0 <= at < sorted.len() && sorted[at] == blocks[i];
        assert(sorted.contains(sorted[0]));
        assert(blocks.contains(sorted[0]));
        let from = choose|from: int| 0 <= from < blocks.len() && blocks[from] == sorted[0];
        assert(presentable(blocks[from]));
        assert(presentable(blocks[i]));
        assert(sorted[0].rank() >= sorted[at].rank());
        if j > 0 {
            assert(blocks[i].images@[0].rank() >= blocks[i].images@[j].rank());
        }
    }
}

/// Defines the types of cover art retrieval methods that a provider can support
#[derive(Debug, Clone, Copy, PartialEq, Eq, Hash, Structural)]
pub enum CoverartMethod {
    /// Get cover art for an artist by name
    Artist,
    /// Get cover art for a song by title and artist
    Song,
    /// Get cover art for an album by title, artist, and optional year
    Album,
    /// Get cover art from a URL
    Url,
}

/// A set of cover art methods.
#[derive(Debug, Clone, Copy, PartialEq, Eq, Structural)]
pub struct CoverartMethods {
    artist: bool,
    song: bool,
    album: bool,
    url: bool,
}

impl View for CoverartMethods {
    type V = Set<CoverartMethod>;

    closed spec fn view(&self) -> Set<CoverartMethod> {
        Set::new(
            |m: CoverartMethod|
                match m {
                    CoverartMethod::Artist => self.artist,
                    CoverartMethod::Song => self.song,
                    CoverartMethod::Album => self.album,
                    CoverartMethod::Url => self.url,
                },
        )
    }
}

impl CoverartMethods {
    /// The empty set
    pub fn new() -> (r: Self)
        ensures
            r@ == Set::<CoverartMethod>::empty(),
    {
        let r = CoverartMethods { artist: false, song: false, album: false, url: false };
        assert(r@ =~= Set::<CoverartMethod>::empty());
        r
    }

    /// Adds a method
    pub fn insert(&mut self, method: CoverartMethod)
        ensures
            final(self)@ == old(self)@.insert(method),
    {
        match method {
            CoverartMethod::Artist => self.artist = true,
            CoverartMethod::Song => self.song = true,
            CoverartMethod::Album => self.album = true,
            CoverartMethod::Url => self.url = true,
        }
        assert(self@ =~= old(self)@.insert(method));
    }

    /// Whether a method is in the set
    pub fn contains(&self, method: &CoverartMethod) -> (r: bool)
        ensures
            r == self@.contains(*method),
    {
        match method {
            CoverartMethod::Artist => self.artist,
            CoverartMethod::Song => self.song,
            CoverartMethod::Album => self.album,
            CoverartMethod::Url => self.url,
        }
    }

    /// The number of methods in the set
    pub fn len(&self) -> (r: usize)
        ensures
            self@.finite(),
            r == self@.len(),
    {
        let mut n: usize = 0;
        let ghost mut seen = Set::<CoverartMethod>::empty();
        if self.artist {
            n = n + 1;
            proof {
                seen = seen.insert(CoverartMethod::Artist);
            }
        }
        if self.song {
            n = n + 1;
            proof {
                seen = seen.insert(CoverartMethod::Song);
            }
        }
        if self.album {
            n = n + 1;
            proof {
                seen = seen.insert(CoverartMethod::Album);
            }
        }
        if self.url {
            n = n + 1;
            proof {
                seen = seen.insert(CoverartMethod::Url);
            }
        }
        assert(seen =~= self@);
        n
    }
}

/// What cover art is wanted for.
pub enum CoverartQuery {
    Artist(Seq<char>),
    Song(Seq<char>, Seq<char>),
    Album(Seq<char>, Seq<char>, Option<i32>),
    Url(Seq<char>),
}

impl CoverartQuery {
    /// The method that a provider needs in order to answer.
    pub open spec fn method(self) -> CoverartMethod {
        match self {
            CoverartQuery::Artist(_) => CoverartMethod::Artist,
            CoverartQuery::Song(_, _) => CoverartMethod::Song,
            CoverartQuery::Album(_, _, _) => CoverartMethod::Album,
            CoverartQuery::Url(_) => CoverartMethod::Url,
        }
    }
}

/// Trait for cover art providers that can retrieve cover art from various sources
pub trait CoverartProvider: Send + Sync {
    /// The internal and the human-readable name. This, the methods and the answers
    /// are for the provider to say; nothing is known of them here.
    closed spec fn names(&self) -> (Seq<char>, Seq<char>) {
        arbitrary()
    }

    /// The methods that the provider supports.
    closed spec fn methods(&self) -> Set<CoverartMethod> {
        arbitrary()
    }

    /// The provider may answer the query with these URLs.
    closed spec fn may_answer(&self, query: CoverartQuery, urls: Seq<Seq<char>>) -> bool {
        arbitrary()
    }

    /// Returns the internal name identifier for this provider
    fn name(&self) -> (r: &str)
        ensures
            r@ == self.names().0,
    ;

    /// Returns the human-readable display name for this provider
    fn display_name(&self) -> (r: &str)
        ensures
            r@ == self.names().1,
    ;

    /// Returns the set of methods this provider supports
    fn supported_methods(&self) -> (r: CoverartMethods)
        ensures
            r@ == self.methods(),
    ;

    /// Get cover art for an artist by name: URLs or local file paths. A provider
    /// without the method is not asked.
    fn get_artist_coverart(&self, artist: &str) -> (r: Vec<String>)
        ensures
            r.len() > 0 ==> self.methods().contains(CoverartMethod::Artist) && self.may_answer(
                CoverartQuery::Artist(artist@),
                texts(r@),
            ),
        default_ensures
            if self.methods().contains(CoverartMethod::Artist) {
                call_ensures(Self::get_artist_coverart_impl, (self, artist), r)
            } else {
                r@ == Seq::<String>::empty()
            },
    {
        if self.supported_methods().contains(&CoverartMethod::Artist) {
            self.get_artist_coverart_impl(artist)
        } else {
            Vec::new()
        }
    }

    /// Get cover art for a song by title and artist: URLs or local file paths. A
    /// provider without the method is not asked.
    fn get_song_coverart(&self, title: &str, artist: &str) -> (r: Vec<String>)
        ensures
            r.len() > 0 ==> self.methods().contains(CoverartMethod::Song) && self.may_answer(
                CoverartQuery::Song(title@, artist@),
                texts(r@),
            ),
        default_ensures
            if self.methods().contains(CoverartMethod::Song) {
                call_ensures(Self::get_song_coverart_impl, (self, title, artist), r)
            } else {
                r@ == Seq::<String>::empty()
            },
    {
        if self.supported_methods().contains(&CoverartMethod::Song) {
            self.get_song_coverart_impl(title, artist)
        } else {
            Vec::new()
        }
    }

    /// Get cover art for an album by title, artist, and optional year: URLs or
    /// local file paths. A provider without the method is not asked.
    fn get_album_coverart(&self, title: &str, artist: &str, year: Option<i32>) -> (r: Vec<String>)
        ensures
            r.len() > 0 ==> self.methods().contains(CoverartMethod::Album) && self.may_answer(
                CoverartQuery::Album(title@, artist@, year),
                texts(r@),
            ),
        default_ensures
            if self.methods().contains(CoverartMethod::Album) {
                call_ensures(Self::get_album_coverart_impl, (self, title, artist, year), r)
            } else {
                r@ == Seq::<String>::empty()
            },
    {
        if self.supported_methods().contains(&CoverartMethod::Album) {
            self.get_album_coverart_impl(title, artist, year)
        } else {
            Vec::new()
        }
    }

    /// Get cover art from a URL: URLs or local file paths. A provider without the
    /// method is not asked.
    fn get_url_coverart(&self, url: &str) -> (r: Vec<String>)
        ensures
            r.len() > 0 ==> self.methods().contains(CoverartMethod::Url) && self.may_answer(
                CoverartQuery::Url(url@),
                texts(r@),
            ),
        default_ensures
            if self.methods().contains(CoverartMethod::Url) {
                call_ensures(Self::get_url_coverart_impl, (self, url), r)
            } else {
                r@ == Seq::<String>::empty()
            },
    {
        if self.supported_methods().contains(&CoverartMethod::Url) {
            self.get_url_coverart_impl(url)
        } else {
            Vec::new()
        }
    }

    /// Implementation for artist cover art retrieval
    /// Only called if CoverartMethod::Artist is in supported_methods()
    fn get_artist_coverart_impl(&self, _artist: &str) -> (r: Vec<String>)
        ensures
            r.len() > 0 ==> self.may_answer(CoverartQuery::Artist(_artist@), texts(r@)),
        default_ensures
            r.len() == 0,
    {
        Vec::new()
    }

    /// Implementation for song cover art retrieval
    /// Only called if CoverartMethod::Song is in supported_methods()
    fn get_song_coverart_impl(&self, _title: &str, _artist: &str) -> (r: Vec<String>)
        ensures
            r.len() > 0 ==> self.may_answer(CoverartQuery::Song(_title@, _artist@), texts(r@)),
        default_ensures
            r.len() == 0,
    {
        Vec::new()
    }

    /// Implementation for album cover art retrieval
    /// Only called if CoverartMethod::Album is in supported_methods()
    fn get_album_coverart_impl(&self, _title: &str, _artist: &str, _year: Option<i32>) -> (r: Vec<
        String,
    >)
        ensures
            r.len() > 0 ==> self.may_answer(
                CoverartQuery::Album(_title@, _artist@, _year),
                texts(r@),
            ),
        default_ensures
            r.len() == 0,
    {
        Vec::new()
    }

    /// Implementation for URL cover art retrieval
    /// Only called if CoverartMethod::Url is in supported_methods()
    fn get_url_coverart_impl(&self, _url: &str) -> (r: Vec<String>)
        ensures
            r.len() > 0 ==> self.may_answer(CoverartQuery::Url(_url@), texts(r@)),
        default_ensures
            r.len() == 0,
    {
        Vec::new()
    }
}

/// The URLs that one provider has for a query.
#[derive(Debug, Clone)]
pub struct ProviderOffer {
    pub provider: ProviderInfo,
    pub urls: Vec<String>,
}

/// The names of the provider and the URLs of an offer.
pub struct Offer {
    pub name: Seq<char>,
    pub display_name: Seq<char>,
    pub urls: Seq<Seq<char>>,
}

/// The offers that a list holds.
pub open spec fn offers_of(list: Seq<ProviderOffer>) -> Seq<Offer> {
    list.map_values(
        |o: ProviderOffer|
            Offer {
                name: o.provider.name@,
                display_name: o.provider.display_name@,
                urls: texts(o.urls@),
            },
    )
}

/// The offers of the providers that had an answer, in the order of the providers.
pub open spec fn kept(names: Seq<(Seq<char>, Seq<char>)>, answers: Seq<Seq<Seq<char>>>) -> Seq<Offer>
    decreases answers.len(),
{
    if answers.len() == 0 {
        Seq::empty()
    } else {
        let i = answers.len() - 1;
        let before = kept(names, answers.drop_last());
        if answers[i].len() > 0 {
            before.push(Offer { name: names[i].0, display_name: names[i].1, urls: answers[i] })
        } else {
            before
        }
    }
}

/// The names of the providers.
pub open spec fn names_of(providers: Seq<Arc<dyn CoverartProvider>>) -> Seq<(Seq<char>, Seq<char>)> {
    providers.map_values(|p: Arc<dyn CoverartProvider>| p.names())
}

/// The answers of the providers, one each: what asking the provider gave, which is one
/// that it may give, and empty where it lacks the method.
pub open spec fn answered(
    providers: Seq<Arc<dyn CoverartProvider>>,
    query: CoverartQuery,
    answers: Seq<Seq<Seq<char>>>,
) -> bool {
    &&& answers.len() == providers.len()
    &&& forall|i: int| 0 <= i < providers.len() ==> gave(providers, i, query, #[trigger] answers[i])
    &&& forall|i: int|
        0 <= i < providers.len() && (#[trigger] answers[i]).len() > 0 ==> {
            &&& providers[i].methods().contains(query.method())
            &&& providers[i].may_answer(query, answers[i])
        }
}

/// Keeps the providers that have at least one URL.
pub fn keep_offers(providers: Vec<ProviderInfo>, answers: Vec<Vec<String>>) -> (r: Vec<
    ProviderOffer,
>)
    requires
        providers.len() == answers.len(),
    ensures
        offers_of(r@) == kept(
            providers@.map_values(|p: ProviderInfo| (p.name@, p.display_name@)),
            answers@.map_values(|a: Vec<String>| texts(a@)),
        ),
{
    let ghost names = providers@.map_values(|p: ProviderInfo| (p.name@, p.display_name@));
    let ghost lists = answers@.map_values(|a: Vec<String>| texts(a@));
    let ghost all_providers = providers@;
    let ghost all_answers = answers@;
    let mut providers = providers;
    let mut answers = answers;
    let mut offers: Vec<ProviderOffer> = Vec::new();
    assert(lists.take(0) =~= Seq::empty());
    assert(offers_of(offers@) =~= Seq::empty());
    while answers.len() > 0
        invariant
            answers.len() <= all_answers.len(),
            providers.len() == answers.len(),
            all_providers.len() == all_answers.len(),
            names == all_providers.map_values(|p: ProviderInfo| (p.name@, p.display_name@)),
            lists == all_answers.map_values(|a: Vec<String>| texts(a@)),
            providers@ == all_providers.skip(all_answers.len() - answers.len()),
            answers@ == all_answers.skip(all_answers.len() - answers.len()),
            offers_of(offers@) == kept(names, lists.take(all_answers.len() - answers.len())),
        decreases answers.len(),
    {
        let ghost n = all_answers.len() - answers.len();
        let ghost before = offers@;
        let provider = providers.remove(0);
        let urls = answers.remove(0);
        proof {
            assert(providers@ =~= all_providers.skip(n + 1));
            assert(answers@ =~= all_answers.skip(n + 1));
            assert(lists.take(n + 1).drop_last() =~= lists.take(n));
            assert(lists[n] == texts(urls@));
            assert(names[n] == (provider.name@, provider.display_name@));
        }
        if urls.len() > 0 {
            offers.push(ProviderOffer { provider, urls });
            assert(offers_of(offers@) =~= offers_of(before).push(
                offers_of(offers@)[before.len() as int],
            ));
        }
    }
    assert(lists.take(all_answers.len() as int) =~= lists);
    offers
}

/// Every offer that is kept has at least one URL.
pub proof fn law_kept_offers_have_urls(
    names: Seq<(Seq<char>, Seq<char>)>,
    answers: Seq<Seq<Seq<char>>>,
)
    ensures
        forall|i: int| 0 <= i < kept(names, answers).len() ==> (#[trigger] kept(names, answers)[i]).urls.len() > 0,
    decreases answers.len(),
{
    if answers.len() > 0 {
        law_kept_offers_have_urls(names, answers.drop_last());
        let before = kept(names, answers.drop_last());
        let all = kept(names, answers);
        assert forall|i: int| 0 <= i < all.len() implies (#[trigger] all[i]).urls.len() > 0 by {
            if i < before.len() {
                assert(all[i] == before[i]);
            }
        }
    }
}

/// Every answer with a URL is among the offers that are kept, under the names of its
/// provider: where one provider has an answer, something is kept.
pub proof fn law_answers_are_kept(
    names: Seq<(Seq<char>, Seq<char>)>,
    answers: Seq<Seq<Seq<char>>>,
    i: int,
)
    requires
        0 <= i < answers.len(),
        answers[i].len() > 0,
    ensures
        kept(names, answers).contains(
            Offer { name: names[i].0, display_name: names[i].1, urls: answers[i] },
        ),
        kept(names, answers).len() > 0,
    decreases answers.len(),
{
    let offer = Offer { name: names[i].0, display_name: names[i].1, urls: answers[i] };
    let all = kept(names, answers);
    let n = answers.len() - 1;
    let before = kept(names, answers.drop_last());
    if i < n {
        law_answers_are_kept(names, answers.drop_last(), i);
        let k = choose|k: int| 0 <= k < before.len() && before[k] == offer;
        assert(all[k] == offer);
    } else {
        assert(all[before.len() as int] == offer);
    }
}

/// Each block is what grading and sorting makes of one offer.
pub open spec fn built_from<G: Fn(&GraderImageInfo) -> i32>(
    offers: Seq<ProviderOffer>,
    found: Seq<Vec<Result<ImageMetadata, String>>>,
    grade: G,
    blocks: Seq<CoverartResult>,
) -> bool {
    &&& blocks.len() == offers.len()
    &&& forall|i: int|
        0 <= i < offers.len() ==> result_of(
            offers[i].provider,
            measured_all(offers[i].urls@, found[i]@),
            grade,
            #[trigger] blocks[i],
        )
}

/// Turns the offers of the providers into results, in the order of the offers.
pub fn list_offers<G: Fn(&GraderImageInfo) -> i32>(
    offers: Vec<ProviderOffer>,
    found: Vec<Vec<Result<ImageMetadata, String>>>,
    grade: &G,
) -> (r: Vec<CoverartResult>)
    requires
        found.len() == offers.len(),
        forall|i: int| 0 <= i < offers.len() ==> (#[trigger] found@[i]).len() == offers@[i].urls.len(),
        forall|info: &GraderImageInfo| call_requires(*grade, (info,)),
    ensures
        built_from(offers@, found@, *grade, r@),
{
    let ghost all_offers = offers@;
    let ghost all_found = found@;
    let mut offers = offers;
    let mut found = found;
    let mut blocks: Vec<CoverartResult> = Vec::new();
    while offers.len() > 0
        invariant
            offers.len() <= all_offers.len(),
            all_found.len() == all_offers.len(),
            found.len() == offers.len(),
            blocks.len() == all_offers.len() - offers.len(),
            offers@ == all_offers.skip(blocks.len() as int),
            found@ == all_found.skip(blocks.len() as int),
            forall|i: int|
                0 <= i < all_offers.len() ==> (#[trigger] all_found[i]).len()
                    == all_offers[i].urls.len(),
            forall|info: &GraderImageInfo| call_requires(*grade, (info,)),
            forall|i: int|
                0 <= i < blocks.len() ==> result_of(
                    all_offers[i].provider,
                    measured_all(all_offers[i].urls@, all_found[i]@),
                    *grade,
                    #[trigger] blocks@[i],
                ),
        decreases offers.len(),
    {
        let ghost n = blocks.len() as int;
        let offer = offers.remove(0);
        let reports = found.remove(0);
        assert(offer == all_offers[n] && reports == all_found[n]);
        assert(offers@ =~= all_offers.skip(n + 1));
        assert(found@ =~= all_found.skip(n + 1));
        blocks.push(CoverartResult::new(offer.provider, offer.urls, reports, grade));
    }
    blocks
}

/// Turns the offers of the providers into results, ordered so the single
/// best-graded image across all providers comes first.
pub fn rank_offers<G: Fn(&GraderImageInfo) -> i32>(
    offers: Vec<ProviderOffer>,
    found: Vec<Vec<Result<ImageMetadata, String>>>,
    grade: &G,
) -> (r: Vec<CoverartResult>)
    requires
        found.len() == offers.len(),
        forall|i: int| 0 <= i < offers.len() ==> (#[trigger] found@[i]).len() == offers@[i].urls.len(),
        forall|info: &GraderImageInfo| call_requires(*grade, (info,)),
    ensures
        exists|blocks: Seq<CoverartResult>| #[trigger]
            built_from(offers@, found@, *grade, blocks) && ranked(blocks, r@),
        r.len() == offers.len(),
        (forall|i: int| 0 <= i < offers.len() ==> (#[trigger] offers@[i]).urls.len() > 0) ==> forall|
            i: int,
            j: int,
        |
            #![trigger r@[i].images@[j]]
            0 <= i < r.len() && 0 <= j < r@[i].images@.len() ==> r@[0].images@.len() > 0
                && r@[0].images@[0].grade->0 >= r@[i].images@[j].grade->0,
{
    let ghost all = offers@;
    let ghost reports = found@;
    let blocks = list_offers(offers, found, grade);
    let ghost unsorted = blocks@;
    let sorted = sort_by_best_image(blocks);
    proof {
        assert(built_from(all, reports, *grade, unsorted));
        if forall|i: int| 0 <= i < all.len() ==> (#[trigger] all[i]).urls.len() > 0 {
            assert forall|i: int| 0 <= i < unsorted.len() implies presentable(
                #[trigger] unsorted[i],
            ) by {
                lemma_result_presentable(
                    all[i].provider,
                    measured_all(all[i].urls@, reports[i]@),
                    *grade,
                    unsorted[i],
                );
            }
            law_best_image_first(unsorted, sorted@);
            lemma_ranked_keeps(unsorted, sorted@);
            assert forall|i: int, j: int|
                #![trigger sorted@[i].images@[j]]
                0 <= i < sorted.len() && 0 <= j < sorted@[i].images@.len() implies sorted@[0].images@.len()
                > 0 && sorted@[0].images@[0].grade->0 >= sorted@[i].images@[j].grade->0 by {
                assert(sorted@.contains(sorted@[i]));
                let from = choose|from: int|
                    0 <= from < unsorted.len() && unsorted[from] == sorted@[i];
                assert(unsorted[from].images@[j] == sorted@[i].images@[j]);
            }
        }
    }
    sorted
}

/// The best image of all comes first in the results for such a query. Those for a song
/// or a URL stay in the order of the providers.
pub open spec fn best_wanted(method: CoverartMethod) -> bool {
    method == CoverartMethod::Artist || method == CoverartMethod::Album
}

/// Turns the offers of the providers for a query into results: for an artist or an
/// album ordered so the single best-graded image across all providers comes first, for
/// a song or a URL in the order of the providers.
pub fn arrange_offers<G: Fn(&GraderImageInfo) -> i32>(
    method: CoverartMethod,
    offers: Vec<ProviderOffer>,
    found: Vec<Vec<Result<ImageMetadata, String>>>,
    grade: &G,
) -> (r: Vec<CoverartResult>)
    requires
        found.len() == offers.len(),
        forall|i: int| 0 <= i < offers.len() ==> (#[trigger] found@[i]).len() == offers@[i].urls.len(),
        forall|info: &GraderImageInfo| call_requires(*grade, (info,)),
    ensures
        r.len() == offers.len(),
        if best_wanted(method) {
            exists|blocks: Seq<CoverartResult>| #[trigger]
                built_from(offers@, found@, *grade, blocks) && ranked(blocks, r@)
        } else {
            built_from(offers@, found@, *grade, r@)
        },
        best_wanted(method) && (forall|i: int|
            0 <= i < offers.len() ==> (#[trigger] offers@[i]).urls.len() > 0) ==> forall|
            i: int,
            j: int,
        |
            #![trigger r@[i].images@[j]]
            0 <= i < r.len() && 0 <= j < r@[i].images@.len() ==> r@[0].images@.len() > 0
                && r@[0].images@[0].grade->0 >= r@[i].images@[j].grade->0,
{
    match method {
        CoverartMethod::Artist | CoverartMethod::Album => rank_offers(offers, found, grade),
        CoverartMethod::Song | CoverartMethod::Url => list_offers(offers, found, grade),
    }
}

/// A grader gives one image one grade.
pub open spec fn grades_alike<G: Fn(&GraderImageInfo) -> i32>(grade: G) -> bool {
    forall|info: &GraderImageInfo, a: i32, b: i32|
        call_ensures(grade, (info,), a) && call_ensures(grade, (info,), b) ==> a == b
}

/// Grading and ordering twice changes nothing, if the grader gives one image one grade:
/// the images, their grades and their order stay.
pub proof fn law_grading_twice<G: Fn(&GraderImageInfo) -> i32>(
    provider: ProviderInfo,
    images: Seq<ImageInfo>,
    grade: G,
    once: CoverartResult,
    twice: CoverartResult,
)
    requires
        grades_alike(grade),
        result_of(provider, images, grade, once),
        result_of(provider, once.images@, grade, twice),
    ensures
        twice.provider == once.provider,
        twice.images@ == once.images@,
{
    let scores = choose|scores: Seq<i32>| #[trigger]
        graded_by(grade, provider.name, images, scores) && ranked(
            graded_all(images, scores),
            once.images@,
        );
    let again = choose|again: Seq<i32>| #[trigger]
        graded_by(grade, provider.name, once.images@, again) && ranked(
            graded_all(once.images@, again),
            twice.images@,
        );
    let graded = graded_all(images, scores);
    lemma_ranked_keeps(graded, once.images@);
    assert forall|i: int| 0 <= i < once.images@.len() implies (#[trigger] graded_all(
        once.images@,
        again,
    )[i]) == once.images@[i] by {
        let image = once.images@[i];
        assert(once.images@.contains(image));
        assert(graded.contains(image));
        let k = choose|k: int| 0 <= k < graded.len() && graded[k] == image;
        assert(image.for_grader(provider.name) == images[k].for_grader(provider.name));
        let info = &image.for_grader(provider.name);
        assert(call_ensures(grade, (info,), scores[k]));
        assert(call_ensures(grade, (info,), again[i]));
    }
    assert(graded_all(once.images@, again) =~= once.images@);
    law_ranking_is_unique(once.images@, once.images@, twice.images@);
}

/// The result of at least one image can be presented.
proof fn lemma_result_presentable<G: Fn(&GraderImageInfo) -> i32>(
    provider: ProviderInfo,
    images: Seq<ImageInfo>,
    grade: G,
    result: CoverartResult,
)
    requires
        result_of(provider, images, grade, result),
        images.len() > 0,
    ensures
        presentable(result),
{
    let scores = choose|scores: Seq<i32>| #[trigger]
        graded_by(grade, provider.name, images, scores) && ranked(
            graded_all(images, scores),
            result.images@,
        );
    let graded = graded_all(images, scores);
    lemma_ranked_keeps(graded, result.images@);
    assert(graded.contains(graded[0]));
    assert(result.images@.contains(graded[0]));
    assert forall|i: int| 0 <= i < result.images@.len() implies (#[trigger] result.images@[i]).grade is Some by {
        assert(result.images@.contains(result.images@[i]));
        assert(graded.contains(result.images@[i]));
    }
}

/// Global coverart manager that maintains a registry of coverart providers
pub struct CoverartManager {
    providers: Vec<Arc<dyn CoverartProvider>>,
}

impl View for CoverartManager {
    type V = Seq<Arc<dyn CoverartProvider>>;

    closed spec fn view(&self) -> Seq<Arc<dyn CoverartProvider>> {
        self.providers@
    }
}

/// A provider was registered behind the others.
pub open spec fn registered<P>(provider: P, before: Seq<P>, after: Seq<P>) -> bool {
    &&& after.len() == before.len() + 1
    &&& after.last() == provider
    &&& after.drop_last() == before
}

/// The number of calls that registered a provider; the others only read.
pub open spec fn registrations(calls: Seq<Option<Arc<dyn CoverartProvider>>>) -> nat
    decreases calls.len(),
{
    if calls.len() == 0 {
        0
    } else {
        registrations(calls.drop_last()) + if calls.last() is Some {
            1nat
        } else {
            0nat
        }
    }
}

/// A manager that was empty has as many providers as were registered, whatever else was
/// called in between: that only reads.
pub proof fn law_count_of_registrations(
    managers: Seq<CoverartManager>,
    calls: Seq<Option<Arc<dyn CoverartProvider>>>,
)
    requires
        managers.len() == calls.len() + 1,
        managers[0]@.len() == 0,
        forall|i: int|
            0 <= i < calls.len() ==> match #[trigger] calls[i] {
                Some(provider) => registered(provider, managers[i]@, managers[i + 1]@),
                None => managers[i + 1] == managers[i],
            },
    ensures
        managers.last()@.len() == registrations(calls),
        forall|i: int| 0 <= i < calls.len() && (#[trigger] calls[i]) is Some ==> exists|k: int|
            0 <= k < managers.last()@.len() && managers.last()@[k] == calls[i]->0,
    decreases calls.len(),
{
    if calls.len() > 0 {
        let n = calls.len() - 1;
        let before = managers.drop_last();
        let earlier = calls.drop_last();
        assert forall|i: int| 0 <= i < earlier.len() implies match #[trigger] earlier[i] {
            Some(provider) => registered(provider, before[i]@, before[i + 1]@),
            None => before[i + 1] == before[i],
        } by {
            assert(earlier[i] == calls[i]);
        }
        law_count_of_registrations(before, earlier);
        assert(before.last() == managers[n]);
        let now = managers.last()@;
        let then = managers[n]@;
        assert(calls[n] == calls.last());
        assert forall|i: int| 0 <= i < calls.len() && (#[trigger] calls[i]) is Some implies exists|
            k: int,
        |
            0 <= k < now.len() && now[k] == calls[i]->0 by {
            if i < n {
                assert(earlier[i] == calls[i]);
                let k = choose|k: int| 0 <= k < then.len() && then[k] == calls[i]->0;
                if calls[n] is Some {
                    assert(now.drop_last()[k] == now[k]);
                }
                assert(now[k] == calls[i]->0);
            } else {
                assert(now[now.len() - 1] == calls[i]->0);
            }
        }
    }
}

/// Appends an item to a list. The item comes first, so that its type settles that
/// of the list and a trait object is taken as it is.
fn push_onto<T>(item: T, list: &mut Vec<T>)
    ensures
        final(list)@ == old(list)@.push(item),
{
    list.push(item);
}

/// A query on its way to the providers.
enum Asked<'a> {
    Artist(&'a str),
    Song(&'a str, &'a str),
    Album(&'a str, &'a str, Option<i32>),
    Url(&'a str),
}

impl<'a> Asked<'a> {
    spec fn query(self) -> CoverartQuery {
        match self {
            Asked::Artist(artist) => CoverartQuery::Artist(artist@),
            Asked::Song(title, artist) => CoverartQuery::Song(title@, artist@),
            Asked::Album(title, artist, year) => CoverartQuery::Album(title@, artist@, year),
            Asked::Url(url) => CoverartQuery::Url(url@),
        }
    }
}

/// Asks a provider for an artist.
fn ask_artist<P: CoverartProvider + ?Sized>(provider: &Arc<P>, artist: &str) -> (r: Vec<String>)
    ensures
        call_ensures(P::get_artist_coverart, (&**provider, artist), r),
        r.len() > 0 ==> {
            &&& provider.methods().contains(CoverartMethod::Artist)
            &&& provider.may_answer(CoverartQuery::Artist(artist@), texts(r@))
        },
{
    provider.get_artist_coverart(artist)
}

/// Asks a provider for a song.
fn ask_song<P: CoverartProvider + ?Sized>(provider: &Arc<P>, title: &str, artist: &str) -> (r: Vec<
    String,
>)
    ensures
        call_ensures(P::get_song_coverart, (&**provider, title, artist), r),
        r.len() > 0 ==> {
            &&& provider.methods().contains(CoverartMethod::Song)
            &&& provider.may_answer(CoverartQuery::Song(title@, artist@), texts(r@))
        },
{
    provider.get_song_coverart(title, artist)
}

/// Asks a provider for an album.
fn ask_album<P: CoverartProvider + ?Sized>(
    provider: &Arc<P>,
    title: &str,
    artist: &str,
    year: Option<i32>,
) -> (r: Vec<String>)
    ensures
        call_ensures(P::get_album_coverart, (&**provider, title, artist, year), r),
        r.len() > 0 ==> {
            &&& provider.methods().contains(CoverartMethod::Album)
            &&& provider.may_answer(CoverartQuery::Album(title@, artist@, year), texts(r@))
        },
{
    provider.get_album_coverart(title, artist, year)
}

/// Asks a provider for a URL.
fn ask_url<P: CoverartProvider + ?Sized>(provider: &Arc<P>, url: &str) -> (r: Vec<String>)
    ensures
        call_ensures(P::get_url_coverart, (&**provider, url), r),
        r.len() > 0 ==> {
            &&& provider.methods().contains(CoverartMethod::Url)
            &&& provider.may_answer(CoverartQuery::Url(url@), texts(r@))
        },
{
    provider.get_url_coverart(url)
}

/// Asked for a query, the provider at a place in a list gave these URLs, or none: they are
/// what its own method for such a query returned.
pub closed spec fn gave(
    providers: Seq<Arc<dyn CoverartProvider>>,
    i: int,
    query: CoverartQuery,
    urls: Seq<Seq<char>>,
) -> bool {
    match query {
        CoverartQuery::Artist(artist) => exists|a: &str, list: Vec<String>|
            {
                &&& #[trigger] call_ensures(
                    ask_artist::<dyn CoverartProvider>,
                    (&providers[i], a),
                    list,
                )
                &&& a@ == artist
                &&& texts(list@) == urls
            },
        CoverartQuery::Song(title, artist) => exists|t: &str, a: &str, list: Vec<String>|
            {
                &&& #[trigger] call_ensures(
                    ask_song::<dyn CoverartProvider>,
                    (&providers[i], t, a),
                    list,
                )
                &&& t@ == title
                &&& a@ == artist
                &&& texts(list@) == urls
            },
        CoverartQuery::Album(title, artist, year) => exists|t: &str, a: &str, list: Vec<String>|
            {
                &&& #[trigger] call_ensures(
                    ask_album::<dyn CoverartProvider>,
                    (&providers[i], t, a, year),
                    list,
                )
                &&& t@ == title
                &&& a@ == artist
                &&& texts(list@) == urls
            },
        CoverartQuery::Url(url) => exists|u: &str, list: Vec<String>|
            {
                &&& #[trigger] call_ensures(
                    ask_url::<dyn CoverartProvider>,
                    (&providers[i], u),
                    list,
                )
                &&& u@ == url
                &&& texts(list@) == urls
            },
    }
}

impl CoverartManager {
    /// Create a new empty coverart manager
    pub fn new() -> (r: Self)
        ensures
            r@ == Seq::<Arc<dyn CoverartProvider>>::empty(),
    {
        CoverartManager { providers: Vec::new() }
    }

    /// Register a new coverart provider
    pub fn register_provider(&mut self, provider: Arc<dyn CoverartProvider>)
        ensures
            registered(provider, old(self)@, final(self)@),
    {
        push_onto(provider, &mut self.providers);
        assert(self@.drop_last() =~= old(self)@);
    }

    /// Asks the provider at a place in the list.
    fn ask(&self, i: usize, asked: &Asked<'_>) -> (r: Vec<String>)
        requires
            i < self@.len(),
        ensures
            gave(self@, i as int, asked.query(), texts(r@)),
            r.len() > 0 ==> {
                &&& self@[i as int].methods().contains(asked.query().method())
                &&& self@[i as int].may_answer(asked.query(), texts(r@))
            },
    {
        let provider = &self.providers[i];
        match asked {
            Asked::Artist(artist) => {
                let urls = ask_artist::<dyn CoverartProvider>(provider, artist);
                assert(call_ensures(
                    ask_artist::<dyn CoverartProvider>,
                    (&self@[i as int], *artist),
                    urls,
                ));
                urls
            },
            Asked::Song(title, artist) => {
                let urls = ask_song::<dyn CoverartProvider>(provider, title, artist);
                assert(call_ensures(
                    ask_song::<dyn CoverartProvider>,
                    (&self@[i as int], *title, *artist),
                    urls,
                ));
                urls
            },
            Asked::Album(title, artist, year) => {
                let urls = ask_album::<dyn CoverartProvider>(provider, title, artist, *year);
                assert(call_ensures(
                    ask_album::<dyn CoverartProvider>,
                    (&self@[i as int], *title, *artist, *year),
                    urls,
                ));
                urls
            },
            Asked::Url(url) => {
                let urls = ask_url::<dyn CoverartProvider>(provider, url);
                assert(call_ensures(
                    ask_url::<dyn CoverartProvider>,
                    (&self@[i as int], *url),
                    urls,
                ));
                urls
            },
        }
    }

    /// Asks every provider in turn and keeps those with an answer.
    fn gather(&self, asked: &Asked<'_>) -> (r: Vec<ProviderOffer>)
        ensures
            exists|answers: Seq<Seq<Seq<char>>>| #[trigger]
                answered(self@, asked.query(), answers) && offers_of(r@) == kept(
                    names_of(self@),
                    answers,
                ),
    {
        let mut infos: Vec<ProviderInfo> = Vec::new();
        let mut answers: Vec<Vec<String>> = Vec::new();
        let mut i: usize = 0;
        while i < self.providers.len()
            invariant
                i <= self.providers.len(),
                self@ == self.providers@,
                infos.len() == i,
                answers.len() == i,
                forall|k: int|
                    0 <= k < i ==> ((#[trigger] infos@[k]).name@, infos@[k].display_name@)
                        == self@[k].names(),
                forall|k: int|
                    0 <= k < i && (#[trigger] answers@[k]).len() > 0 ==> {
                        &&& self@[k].methods().contains(asked.query().method())
                        &&& self@[k].may_answer(asked.query(), texts(answers@[k]@))
                    },
                forall|k: int|
                    0 <= k < i ==> gave(self@, k, asked.query(), texts((#[trigger] answers@[k])@)),
            decreases self.providers.len() - i,
        {
            let provider = &self.providers[i];
            let urls = self.ask(i, asked);
            infos.push(
                ProviderInfo {
                    name: owned(provider.name()),
                    display_name: owned(provider.display_name()),
                },
            );
            answers.push(urls);
            i = i + 1;
        }
        proof {
            let lists = answers@.map_values(|a: Vec<String>| texts(a@));
            let names = infos@.map_values(|p: ProviderInfo| (p.name@, p.display_name@));
            assert(names =~= names_of(self@));
            assert(answered(self@, asked.query(), lists));
        }
        keep_offers(infos, answers)
    }

    /// Get cover art for an artist from all registered providers. What is found of
    /// the images goes to [`arrange_offers`], which puts the single best-graded image
    /// across all providers first
    pub fn get_artist_coverart(&self, artist: &str) -> (r: Vec<ProviderOffer>)
        ensures
            exists|answers: Seq<Seq<Seq<char>>>| #[trigger]
                answered(self@, CoverartQuery::Artist(artist@), answers) && offers_of(r@) == kept(
                    names_of(self@),
                    answers,
                ),
    {
        self.gather(&Asked::Artist(artist))
    }

    /// Get cover art for a song from all registered providers. What is found of the
    /// images goes to [`arrange_offers`]
    pub fn get_song_coverart(&self, title: &str, artist: &str) -> (r: Vec<ProviderOffer>)
        ensures
            exists|answers: Seq<Seq<Seq<char>>>| #[trigger]
                answered(self@, CoverartQuery::Song(title@, artist@), answers) && offers_of(r@)
                    == kept(names_of(self@), answers),
    {
        self.gather(&Asked::Song(title, artist))
    }

    /// Get cover art for an album from all registered providers. What is found of
    /// the images goes to [`arrange_offers`], which puts the single best-graded image
    /// across all providers first
    pub fn get_album_coverart(&self, title: &str, artist: &str, year: Option<i32>) -> (r: Vec<
        ProviderOffer,
    >)
        ensures
            exists|answers: Seq<Seq<Seq<char>>>| #[trigger]
                answered(self@, CoverartQuery::Album(title@, artist@, year), answers) && offers_of(
                    r@,
                ) == kept(names_of(self@), answers),
    {
        self.gather(&Asked::Album(title, artist, year))
    }

    /// Get cover art from a URL from all registered providers. What is found of the
    /// images goes to [`arrange_offers`]
    pub fn get_url_coverart(&self, url: &str) -> (r: Vec<ProviderOffer>)
        ensures
            exists|answers: Seq<Seq<Seq<char>>>| #[trigger]
                answered(self@, CoverartQuery::Url(url@), answers) && offers_of(r@) == kept(
                    names_of(self@),
                    answers,
                ),
    {
        self.gather(&Asked::Url(url))
    }

    /// Get all registered providers (for debugging/inspection)
    pub fn get_providers(&self) -> (r: &Vec<Arc<dyn CoverartProvider>>)
        ensures
            r@ == self@,
    {
        &self.providers
    }

    /// Get the number of registered providers
    pub fn provider_count(&self) -> (r: usize)
        ensures
            r == self@.len(),
    {
        self.providers.len()
    }
}

impl Default for CoverartManager {
    fn default() -> (r: Self)
        ensures
            r@ == Seq::<Arc<dyn CoverartProvider>>::empty(),
    {
        CoverartManager::new()
    }
}

} // verus!
