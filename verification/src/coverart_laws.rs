//! What grading and ordering make of cover art, image by image and field by field.

use vstd::prelude::*;
use crate::coverart::{
    answered, arrange_offers, built_from, describe_images, gave, graded_all, graded_by, keep_offers,
    kept, measured_all, names_of, offers_of, registered, result_of, sort_by_best_image,
    CoverartManager, CoverartMethod, CoverartMethods, CoverartProvider, CoverartQuery,
    CoverartResult, GraderImageInfo, ImageInfo, ImageMetadata, Offer, ProviderInfo, ProviderOffer,
};
use crate::ranking::{lemma_taken_from, ranked, taken_from, Graded};
use crate::text::texts;

verus! {

/// The grader is told everything that is known of an image, and who provided it.
pub proof fn law_grader_is_told_all(image: ImageInfo, provider: String, told: GraderImageInfo)
    requires
        call_ensures(ImageInfo::to_grader, (&image, &provider), told),
    ensures
        told.url == image.url,
        told.width == image.width,
        told.height == image.height,
        told.size_bytes == image.size_bytes,
        told.format == image.format,
        told.provider == provider,
{
}

/// A new image has its URL and nothing else; with metadata it has all of it and no grade.
pub proof fn law_new_image(
    url: String,
    metadata: ImageMetadata,
    bare: ImageInfo,
    known: ImageInfo,
)
    requires
        call_ensures(ImageInfo::new, (url,), bare),
        call_ensures(ImageInfo::with_metadata, (url, metadata), known),
    ensures
        bare.url == url,
        bare.width is None,
        bare.height is None,
        bare.size_bytes is None,
        bare.format is None,
        bare.grade is None,
        known.url == url,
        known.width == Some(metadata.width),
        known.height == Some(metadata.height),
        known.size_bytes == Some(metadata.size_bytes),
        known.format == Some(metadata.format),
        known.grade is None,
{
}

/// Measuring an image fills in its metadata and touches neither URL nor grade; a failed
/// attempt changes nothing. Grading sets the grade and nothing else.
pub proof fn law_image_changes(
    image: ImageInfo,
    metadata: ImageMetadata,
    reason: String,
    grade: i32,
)
    ensures
        ({
            let after = image.after_fetch(Ok(metadata));
            &&& after.url == image.url
            &&& after.width == Some(metadata.width)
            &&& after.height == Some(metadata.height)
            &&& after.size_bytes == Some(metadata.size_bytes)
            &&& after.format == Some(metadata.format)
            &&& after.grade == image.grade
        }),
        image.after_fetch(Err(reason)) == image,
        ({
            let after = image.graded(grade);
            &&& after.url == image.url
            &&& after.width == image.width
            &&& after.height == image.height
            &&& after.size_bytes == image.size_bytes
            &&& after.format == image.format
            &&& after.grade == Some(grade)
        }),
{
}

/// An image is that of a URL, with the metadata that was found, or with none.
pub open spec fn shown(
    image: ImageInfo,
    url: String,
    found: Result<ImageMetadata, String>,
) -> bool {
    &&& image.url == url
    &&& match found {
        Ok(metadata) => {
            &&& image.width == Some(metadata.width)
            &&& image.height == Some(metadata.height)
            &&& image.size_bytes == Some(metadata.size_bytes)
            &&& image.format == Some(metadata.format)
        },
        Err(_) => {
            &&& image.width is None
            &&& image.height is None
            &&& image.size_bytes is None
            &&& image.format is None
        },
    }
}

/// Describing URLs gives one image for each, in order, with the metadata that was found
/// for that very URL.
pub proof fn law_described_images(
    urls: Vec<String>,
    found: Vec<Result<ImageMetadata, String>>,
    r: Vec<ImageInfo>,
)
    requires
        found.len() == urls.len(),
        call_ensures(describe_images, (urls, found), r),
    ensures
        r.len() == urls.len(),
        forall|k: int|
            0 <= k < r.len() ==> shown(#[trigger] r@[k], urls@[k], found@[k]) && r@[k].grade is None,
{
}

/// The images stand in the order of their grades, the best first and equals as they came:
/// `from` says where each came from. Nothing but the grade was changed, and the grade is
/// one that the grader gives for exactly what is known of the image.
pub open spec fn in_order_of_grade<G: Fn(&GraderImageInfo) -> i32>(
    provider: String,
    grade: G,
    images: Seq<ImageInfo>,
    shown: Seq<ImageInfo>,
    from: Seq<int>,
) -> bool {
    &&& shown.len() == images.len()
    &&& from.len() == images.len()
    &&& forall|k: int|
        0 <= k < from.len() ==> {
            &&& 0 <= #[trigger] from[k] < images.len()
            &&& shown[k].url == images[from[k]].url
            &&& shown[k].width == images[from[k]].width
            &&& shown[k].height == images[from[k]].height
            &&& shown[k].size_bytes == images[from[k]].size_bytes
            &&& shown[k].format == images[from[k]].format
            &&& shown[k].grade is Some
            &&& call_ensures(
                grade,
                (&(GraderImageInfo {
                    url: images[from[k]].url,
                    width: images[from[k]].width,
                    height: images[from[k]].height,
                    size_bytes: images[from[k]].size_bytes,
                    format: images[from[k]].format,
                    provider,
                }),),
                shown[k].grade->0,
            )
        }
    &&& forall|i: int, j: int|
        0 <= i < j < from.len() ==> {
            &&& #[trigger] from[i] != #[trigger] from[j]
            &&& shown[i].grade->0 >= shown[j].grade->0
            &&& shown[i].grade->0 == shown[j].grade->0 ==> from[i] < from[j]
        }
}

proof fn lemma_in_order<G: Fn(&GraderImageInfo) -> i32>(
    provider: ProviderInfo,
    images: Seq<ImageInfo>,
    grade: G,
    r: CoverartResult,
)
    requires
        result_of(provider, images, grade, r),
    ensures
        r.provider == provider,
        exists|from: Seq<int>| #[trigger]
            in_order_of_grade(provider.name, grade, images, r.images@, from),
{
    let scores = choose|scores: Seq<i32>| #[trigger]
        graded_by(grade, provider.name, images, scores) && ranked(
            graded_all(images, scores),
            r.images@,
        );
    let graded = graded_all(images, scores);
    lemma_taken_from(graded, r.images@);
    let from = choose|from: Seq<int>| #[trigger] taken_from(graded, r.images@, from);
    assert forall|k: int| 0 <= k < from.len() implies {
        &&& 0 <= #[trigger] from[k] < images.len()
        &&& r.images@[k] == graded[from[k]]
        &&& call_ensures(
            grade,
            (&images[from[k]].for_grader(provider.name),),
            scores[from[k]],
        )
    } by {
        assert(0 <= from[k] < graded.len());
        let score = scores[from[k]];
    }
    assert(in_order_of_grade(provider.name, grade, images, r.images@, from));
}

/// A result has the images that were given, graded by what is known of them and put in
/// order.
pub proof fn law_result_with_images<G: Fn(&GraderImageInfo) -> i32>(
    provider: ProviderInfo,
    images: Vec<ImageInfo>,
    grade: &G,
    r: CoverartResult,
)
    requires
        call_ensures(CoverartResult::with_images::<G>, (provider, images, grade), r),
    ensures
        r.provider == provider,
        exists|from: Seq<int>| #[trigger]
            in_order_of_grade(provider.name, *grade, images@, r.images@, from),
{
    lemma_in_order(provider, images@, *grade, r);
}

/// The images of a result are those of the URLs, each with the metadata that was found for
/// it, graded by that and put in order: `from` says which URL each image shows.
pub open spec fn shows<G: Fn(&GraderImageInfo) -> i32>(
    provider: String,
    grade: G,
    urls: Seq<String>,
    found: Seq<Result<ImageMetadata, String>>,
    images: Seq<ImageInfo>,
    from: Seq<int>,
) -> bool {
    &&& images.len() == urls.len()
    &&& from.len() == urls.len()
    &&& forall|k: int|
        0 <= k < from.len() ==> {
            &&& 0 <= #[trigger] from[k] < urls.len()
            &&& shown(images[k], urls[from[k]], found[from[k]])
            &&& images[k].grade is Some
            &&& call_ensures(
                grade,
                (&(GraderImageInfo {
                    url: urls[from[k]],
                    width: images[k].width,
                    height: images[k].height,
                    size_bytes: images[k].size_bytes,
                    format: images[k].format,
                    provider,
                }),),
                images[k].grade->0,
            )
        }
    &&& forall|i: int, j: int|
        0 <= i < j < from.len() ==> {
            &&& #[trigger] from[i] != #[trigger] from[j]
            &&& images[i].grade->0 >= images[j].grade->0
            &&& images[i].grade->0 == images[j].grade->0 ==> from[i] < from[j]
        }
}

proof fn lemma_shows<G: Fn(&GraderImageInfo) -> i32>(
    provider: ProviderInfo,
    urls: Seq<String>,
    found: Seq<Result<ImageMetadata, String>>,
    grade: G,
    r: CoverartResult,
)
    requires
        result_of(provider, measured_all(urls, found), grade, r),
    ensures
        r.provider == provider,
        exists|from: Seq<int>| #[trigger]
            shows(provider.name, grade, urls, found, r.images@, from),
{
    let images = measured_all(urls, found);
    lemma_in_order(provider, images, grade, r);
    let from = choose|from: Seq<int>| #[trigger]
        in_order_of_grade(provider.name, grade, images, r.images@, from);
    assert forall|k: int| 0 <= k < from.len() implies {
        &&& 0 <= #[trigger] from[k] < urls.len()
        &&& shown(r.images@[k], urls[from[k]], found[from[k]])
    } by {
        assert(0 <= from[k] < images.len());
    }
    assert(shows(provider.name, grade, urls, found, r.images@, from));
}

/// The grade of a measured image is the grader's score for the metadata that was found for
/// its URL, and the best image comes first.
pub proof fn law_result_of_urls<G: Fn(&GraderImageInfo) -> i32>(
    provider: ProviderInfo,
    urls: Vec<String>,
    found: Vec<Result<ImageMetadata, String>>,
    grade: &G,
    r: CoverartResult,
)
    requires
        found.len() == urls.len(),
        call_ensures(CoverartResult::new::<G>, (provider, urls, found, grade), r),
    ensures
        r.provider == provider,
        exists|from: Seq<int>| #[trigger]
            shows(provider.name, *grade, urls@, found@, r.images@, from),
{
    lemma_shows(provider, urls@, found@, *grade, r);
}

/// Given grades go to the images that they were given for.
pub proof fn law_result_with_scores(
    provider: ProviderInfo,
    images: Vec<ImageInfo>,
    scores: Vec<i32>,
    r: CoverartResult,
)
    requires
        scores.len() == images.len(),
        call_ensures(CoverartResult::with_scores, (provider, images, scores), r),
    ensures
        r.provider == provider,
        r.images.len() == images.len(),
        exists|from: Seq<int>|
            {
                &&& #[trigger] from.len() == images.len()
                &&& forall|k: int|
                    0 <= k < from.len() ==> {
                        &&& 0 <= #[trigger] from[k] < images.len()
                        &&& r.images@[k].url == images@[from[k]].url
                        &&& r.images@[k].width == images@[from[k]].width
                        &&& r.images@[k].height == images@[from[k]].height
                        &&& r.images@[k].size_bytes == images@[from[k]].size_bytes
                        &&& r.images@[k].format == images@[from[k]].format
                        &&& r.images@[k].grade == Some(scores@[from[k]])
                    }
                &&& forall|i: int, j: int|
                    0 <= i < j < from.len() ==> {
                        let (a, b) = (#[trigger] from[i], #[trigger] from[j]);
                        a != b && (scores@[a] > scores@[b] || (scores@[a] == scores@[b] && a < b))
                    }
            },
{
    let graded = graded_all(images@, scores@);
    lemma_taken_from(graded, r.images@);
    let from = choose|from: Seq<int>| #[trigger] taken_from(graded, r.images@, from);
    assert forall|k: int| 0 <= k < from.len() implies {
        &&& 0 <= #[trigger] from[k] < images.len()
        &&& r.images@[k] == graded[from[k]]
    } by {
        assert(0 <= from[k] < graded.len());
    }
    assert forall|i: int, j: int| 0 <= i < j < from.len() implies {
        let (a, b) = (#[trigger] from[i], #[trigger] from[j]);
        a != b && (scores@[a] > scores@[b] || (scores@[a] == scores@[b] && a < b))
    } by {
        assert(graded[from[i]].grade == Some(scores@[from[i]]));
        assert(graded[from[j]].grade == Some(scores@[from[j]]));
    }
    assert(from.len() == images.len());
}

/// The grade by which a block is placed: that of its first image, and the lowest number
/// where there is no image, or no grade.
pub open spec fn first_grade(block: CoverartResult) -> i32 {
    if block.images@.len() > 0 && block.images@[0].grade is Some {
        block.images@[0].grade->0
    } else {
        i32::MIN
    }
}

/// Blocks stand in the order of their first grades, equals as they came; `from` says where
/// each came from.
pub open spec fn blocks_in_order(
    blocks: Seq<CoverartResult>,
    sorted: Seq<CoverartResult>,
    from: Seq<int>,
) -> bool {
    &&& sorted.len() == blocks.len()
    &&& from.len() == blocks.len()
    &&& forall|k: int|
        0 <= k < from.len() ==> 0 <= #[trigger] from[k] < blocks.len() && sorted[k]
            == blocks[from[k]]
    &&& forall|i: int, j: int|
        0 <= i < j < from.len() ==> {
            &&& #[trigger] from[i] != #[trigger] from[j]
            &&& first_grade(sorted[i]) >= first_grade(sorted[j])
            &&& first_grade(sorted[i]) == first_grade(sorted[j]) ==> from[i] < from[j]
        }
}

proof fn lemma_blocks_in_order(blocks: Seq<CoverartResult>, sorted: Seq<CoverartResult>)
    requires
        ranked(blocks, sorted),
    ensures
        exists|from: Seq<int>| #[trigger] blocks_in_order(blocks, sorted, from),
{
    lemma_taken_from(blocks, sorted);
    let from = choose|from: Seq<int>| #[trigger] taken_from(blocks, sorted, from);
    assert(blocks_in_order(blocks, sorted, from));
}

/// Sorting blocks by their best image keeps every block as it is and loses none.
pub proof fn law_blocks_sorted(results: Vec<CoverartResult>, r: Vec<CoverartResult>)
    requires
        call_ensures(sort_by_best_image, (results,), r),
    ensures
        exists|from: Seq<int>| #[trigger] blocks_in_order(results@, r@, from),
{
    lemma_blocks_in_order(results@, r@);
}

/// A block is that of an offer: it names the offer's provider and shows the offer's URLs.
pub open spec fn block_of_offer<G: Fn(&GraderImageInfo) -> i32>(
    offer: ProviderOffer,
    found: Seq<Result<ImageMetadata, String>>,
    grade: G,
    block: CoverartResult,
) -> bool {
    &&& block.provider == offer.provider
    &&& exists|from: Seq<int>| #[trigger]
        shows(offer.provider.name, grade, offer.urls@, found, block.images@, from)
}

/// There is one block for each offer.
pub open spec fn blocks_of_offers<G: Fn(&GraderImageInfo) -> i32>(
    offers: Seq<ProviderOffer>,
    found: Seq<Vec<Result<ImageMetadata, String>>>,
    grade: G,
    blocks: Seq<CoverartResult>,
) -> bool {
    &&& blocks.len() == offers.len()
    &&& forall|i: int|
        0 <= i < blocks.len() ==> block_of_offer(offers[i], found[i]@, grade, #[trigger] blocks[i])
}

proof fn lemma_blocks<G: Fn(&GraderImageInfo) -> i32>(
    offers: Seq<ProviderOffer>,
    found: Seq<Vec<Result<ImageMetadata, String>>>,
    grade: G,
    blocks: Seq<CoverartResult>,
)
    requires
        built_from(offers, found, grade, blocks),
    ensures
        blocks_of_offers(offers, found, grade, blocks),
{
    assert forall|i: int| 0 <= i < blocks.len() implies block_of_offer(
        offers[i],
        found[i]@,
        grade,
        #[trigger] blocks[i],
    ) by {
        lemma_shows(offers[i].provider, offers[i].urls@, found[i]@, grade, blocks[i]);
    }
}

/// For an artist or an album the blocks are put in the order of their best images; for a
/// song or a URL they stay in the order of the providers. Either way there is one block
/// for each offer.
pub proof fn law_arranged<G: Fn(&GraderImageInfo) -> i32>(
    method: CoverartMethod,
    offers: Vec<ProviderOffer>,
    found: Vec<Vec<Result<ImageMetadata, String>>>,
    grade: &G,
    r: Vec<CoverartResult>,
)
    requires
        found.len() == offers.len(),
        forall|i: int| 0 <= i < offers.len() ==> (#[trigger] found@[i]).len() == offers@[i].urls.len(),
        call_ensures(arrange_offers::<G>, (method, offers, found, grade), r),
    ensures
        r.len() == offers.len(),
        method == CoverartMethod::Song || method == CoverartMethod::Url ==> blocks_of_offers(
            offers@,
            found@,
            *grade,
            r@,
        ),
        method == CoverartMethod::Artist || method == CoverartMethod::Album ==> exists|
            blocks: Seq<CoverartResult>,
            from: Seq<int>,
        |
            #![trigger blocks_in_order(blocks, r@, from)]
            blocks_of_offers(offers@, found@, *grade, blocks) && blocks_in_order(blocks, r@, from),
{
    if method == CoverartMethod::Artist || method == CoverartMethod::Album {
        let blocks = choose|blocks: Seq<CoverartResult>| #[trigger]
            built_from(offers@, found@, *grade, blocks) && ranked(blocks, r@);
        lemma_blocks(offers@, found@, *grade, blocks);
        lemma_blocks_in_order(blocks, r@);
        let from = choose|from: Seq<int>| #[trigger] blocks_in_order(blocks, r@, from);
        assert(blocks_in_order(blocks, r@, from));
    } else {
        lemma_blocks(offers@, found@, *grade, r@);
    }
}

/// The offers are the answers with at least one URL, in order and under the names that
/// stand beside them: `from` says which answer each offer is, and no such answer is left
/// out.
pub open spec fn offered(
    names: Seq<(Seq<char>, Seq<char>)>,
    answers: Seq<Seq<Seq<char>>>,
    offers: Seq<Offer>,
    from: Seq<int>,
) -> bool {
    &&& from.len() == offers.len()
    &&& forall|k: int|
        0 <= k < from.len() ==> {
            &&& 0 <= #[trigger] from[k] < answers.len()
            &&& answers[from[k]].len() > 0
            &&& offers[k].urls == answers[from[k]]
            &&& offers[k].name == names[from[k]].0
            &&& offers[k].display_name == names[from[k]].1
        }
    &&& forall|i: int, j: int| 0 <= i < j < from.len() ==> #[trigger] from[i] < #[trigger] from[j]
    &&& forall|i: int| 0 <= i < answers.len() && (#[trigger] answers[i]).len() > 0 ==> from.contains(i)
}

proof fn lemma_offered(names: Seq<(Seq<char>, Seq<char>)>, answers: Seq<Seq<Seq<char>>>)
    ensures
        exists|from: Seq<int>| #[trigger] offered(names, answers, kept(names, answers), from),
    decreases answers.len(),
{
    if answers.len() == 0 {
        assert(offered(names, answers, kept(names, answers), Seq::empty()));
    } else {
        let earlier = answers.drop_last();
        let n = answers.len() - 1;
        lemma_offered(names, earlier);
        let before = choose|from: Seq<int>| #[trigger]
            offered(names, earlier, kept(names, earlier), from);
        let from = if answers[n].len() > 0 {
            before.push(n)
        } else {
            before
        };
        assert forall|i: int| 0 <= i < answers.len() && (#[trigger] answers[i]).len() > 0 implies from.contains(
            i,
        ) by {
            if i < n {
                assert(earlier[i] == answers[i]);
                assert(before.contains(i));
                let k = choose|k: int| 0 <= k < before.len() && before[k] == i;
                assert(from[k] == i);
            } else {
                assert(from[before.len() as int] == n);
            }
        }
        assert forall|k: int| 0 <= k < from.len() implies {
            &&& 0 <= #[trigger] from[k] < answers.len()
            &&& answers[from[k]].len() > 0
            &&& kept(names, answers)[k].urls == answers[from[k]]
            &&& kept(names, answers)[k].name == names[from[k]].0
            &&& kept(names, answers)[k].display_name == names[from[k]].1
        } by {
            if k < before.len() {
                assert(before[k] == from[k]);
                assert(earlier[from[k]] == answers[from[k]]);
                assert(kept(names, answers)[k] == kept(names, earlier)[k]);
            }
        }
        assert(offered(names, answers, kept(names, answers), from));
    }
}

/// Of the answers those with a URL are kept, each under the names of its own provider.
pub proof fn law_offers_kept(
    providers: Vec<ProviderInfo>,
    answers: Vec<Vec<String>>,
    r: Vec<ProviderOffer>,
)
    requires
        providers.len() == answers.len(),
        call_ensures(keep_offers, (providers, answers), r),
    ensures
        exists|from: Seq<int>|
            {
                &&& #[trigger] from.len() == r.len()
                &&& forall|k: int|
                    0 <= k < from.len() ==> {
                        &&& 0 <= #[trigger] from[k] < answers.len()
                        &&& answers@[from[k]].len() > 0
                        &&& texts(r@[k].urls@) == texts(answers@[from[k]]@)
                        &&& r@[k].provider.name@ == providers@[from[k]].name@
                        &&& r@[k].provider.display_name@ == providers@[from[k]].display_name@
                    }
                &&& forall|i: int, j: int|
                    0 <= i < j < from.len() ==> #[trigger] from[i] < #[trigger] from[j]
                &&& forall|i: int|
                    0 <= i < answers.len() && (#[trigger] answers@[i]).len() > 0 ==> from.contains(i)
            },
{
    let names = providers@.map_values(|p: ProviderInfo| (p.name@, p.display_name@));
    let lists = answers@.map_values(|a: Vec<String>| texts(a@));
    lemma_offered(names, lists);
    let from = choose|from: Seq<int>| #[trigger] offered(names, lists, kept(names, lists), from);
    let offers = offers_of(r@);
    assert(offers.len() == r.len());
    assert forall|k: int| 0 <= k < from.len() implies {
        &&& 0 <= #[trigger] from[k] < answers.len()
        &&& answers@[from[k]].len() > 0
        &&& texts(r@[k].urls@) == texts(answers@[from[k]]@)
        &&& r@[k].provider.name@ == providers@[from[k]].name@
        &&& r@[k].provider.display_name@ == providers@[from[k]].display_name@
    } by {
        assert(lists[from[k]] == texts(answers@[from[k]]@));
        assert(names[from[k]] == (
            providers@[from[k]].name@,
            providers@[from[k]].display_name@,
        ));
        assert(offers[k].urls == texts(r@[k].urls@));
        assert(offers[k].name == r@[k].provider.name@);
        assert(offers[k].display_name == r@[k].provider.display_name@);
    }
    assert forall|i: int| 0 <= i < answers.len() && (#[trigger] answers@[i]).len() > 0 implies from.contains(
        i,
    ) by {
        assert(lists[i] == texts(answers@[i]@));
        assert(lists[i].len() > 0);
    }
    assert(from.len() == r.len());
}

/// Every offer comes from a provider of the manager that supports the method, under its own
/// names and with URLs that it may answer the query with, in the order of the providers; a
/// provider without an offer gave no URL.
pub open spec fn offers_from(
    manager: CoverartManager,
    method: CoverartMethod,
    query: CoverartQuery,
    offers: Seq<ProviderOffer>,
    from: Seq<int>,
) -> bool {
    &&& from.len() == offers.len()
    &&& forall|k: int|
        0 <= k < from.len() ==> {
            &&& 0 <= #[trigger] from[k] < manager@.len()
            &&& offers[k].urls@.len() > 0
            &&& offers[k].provider.name@ == manager@[from[k]].names().0
            &&& offers[k].provider.display_name@ == manager@[from[k]].names().1
            &&& manager@[from[k]].methods().contains(method)
            &&& manager@[from[k]].may_answer(query, texts(offers[k].urls@))
            &&& gave(manager@, from[k], query, texts(offers[k].urls@))
        }
    &&& forall|i: int, j: int| 0 <= i < j < from.len() ==> #[trigger] from[i] < #[trigger] from[j]
    &&& forall|i: int|
        0 <= i < manager@.len() && !from.contains(i) ==> #[trigger] gave(
            manager@,
            i,
            query,
            Seq::empty(),
        )
}

proof fn lemma_offers_from(
    manager: CoverartManager,
    query: CoverartQuery,
    r: Seq<ProviderOffer>,
    answers: Seq<Seq<Seq<char>>>,
)
    requires
        answered(manager@, query, answers),
        offers_of(r) == kept(names_of(manager@), answers),
    ensures
        exists|from: Seq<int>| #[trigger] offers_from(manager, query.method(), query, r, from),
{
    let names = names_of(manager@);
    lemma_offered(names, answers);
    let from = choose|from: Seq<int>| #[trigger] offered(names, answers, kept(names, answers), from);
    let offers = offers_of(r);
    assert(offers.len() == r.len());
    assert forall|k: int| 0 <= k < from.len() implies {
        &&& 0 <= #[trigger] from[k] < manager@.len()
        &&& r[k].urls@.len() > 0
        &&& r[k].provider.name@ == manager@[from[k]].names().0
        &&& r[k].provider.display_name@ == manager@[from[k]].names().1
        &&& manager@[from[k]].methods().contains(query.method())
        &&& manager@[from[k]].may_answer(query, texts(r[k].urls@))
        &&& gave(manager@, from[k], query, texts(r[k].urls@))
    } by {
        assert(offers[k].urls == texts(r[k].urls@));
        assert(offers[k].name == r[k].provider.name@);
        assert(offers[k].display_name == r[k].provider.display_name@);
        assert(names[from[k]] == manager@[from[k]].names());
        assert(answers[from[k]].len() > 0);
    }
    assert forall|i: int| 0 <= i < manager@.len() && !from.contains(i) implies #[trigger] gave(
        manager@,
        i,
        query,
        Seq::empty(),
    ) by {
        assert(answers[i].len() == 0);
        assert(answers[i] =~= Seq::empty());
    }
    assert(offers_from(manager, query.method(), query, r, from));
}

/// Asking for an artist asks the providers for that artist.
pub proof fn law_artist_offers(manager: CoverartManager, artist: &str, r: Vec<ProviderOffer>)
    requires
        call_ensures(CoverartManager::get_artist_coverart, (&manager, artist), r),
    ensures
        exists|from: Seq<int>| #[trigger]
            offers_from(
                manager,
                CoverartMethod::Artist,
                CoverartQuery::Artist(artist@),
                r@,
                from,
            ),
{
    let query = CoverartQuery::Artist(artist@);
    let answers = choose|answers: Seq<Seq<Seq<char>>>| #[trigger]
        answered(manager@, query, answers) && offers_of(r@) == kept(names_of(manager@), answers);
    lemma_offers_from(manager, query, r@, answers);
}

/// Asking for a song asks the providers for that title by that artist.
pub proof fn law_song_offers(
    manager: CoverartManager,
    title: &str,
    artist: &str,
    r: Vec<ProviderOffer>,
)
    requires
        call_ensures(CoverartManager::get_song_coverart, (&manager, title, artist), r),
    ensures
        exists|from: Seq<int>| #[trigger]
            offers_from(
                manager,
                CoverartMethod::Song,
                CoverartQuery::Song(title@, artist@),
                r@,
                from,
            ),
{
    let query = CoverartQuery::Song(title@, artist@);
    let answers = choose|answers: Seq<Seq<Seq<char>>>| #[trigger]
        answered(manager@, query, answers) && offers_of(r@) == kept(names_of(manager@), answers);
    lemma_offers_from(manager, query, r@, answers);
}

/// Asking for an album asks the providers for that title by that artist, of that year.
pub proof fn law_album_offers(
    manager: CoverartManager,
    title: &str,
    artist: &str,
    year: Option<i32>,
    r: Vec<ProviderOffer>,
)
    requires
        call_ensures(CoverartManager::get_album_coverart, (&manager, title, artist, year), r),
    ensures
        exists|from: Seq<int>| #[trigger]
            offers_from(
                manager,
                CoverartMethod::Album,
                CoverartQuery::Album(title@, artist@, year),
                r@,
                from,
            ),
{
    let query = CoverartQuery::Album(title@, artist@, year);
    let answers = choose|answers: Seq<Seq<Seq<char>>>| #[trigger]
        answered(manager@, query, answers) && offers_of(r@) == kept(names_of(manager@), answers);
    lemma_offers_from(manager, query, r@, answers);
}

/// Asking for a URL asks the providers for that URL.
pub proof fn law_url_offers(manager: CoverartManager, url: &str, r: Vec<ProviderOffer>)
    requires
        call_ensures(CoverartManager::get_url_coverart, (&manager, url), r),
    ensures
        exists|from: Seq<int>| #[trigger]
            offers_from(manager, CoverartMethod::Url, CoverartQuery::Url(url@), r@, from),
{
    let query = CoverartQuery::Url(url@);
    let answers = choose|answers: Seq<Seq<Seq<char>>>| #[trigger]
        answered(manager@, query, answers) && offers_of(r@) == kept(names_of(manager@), answers);
    lemma_offers_from(manager, query, r@, answers);
}

/// One for a method that is in a set, and nothing for one that is not.
pub open spec fn counted(set: Set<CoverartMethod>, method: CoverartMethod) -> int {
    if set.contains(method) {
        1
    } else {
        0
    }
}

/// A set of methods tells which are in it, and counts each once.
pub proof fn law_method_set(set: CoverartMethods, method: CoverartMethod, has: bool, count: usize)
    requires
        call_ensures(CoverartMethods::contains, (&set, &method), has),
        call_ensures(CoverartMethods::len, (&set,), count),
    ensures
        has <==> set@.contains(method),
        count == counted(set@, CoverartMethod::Artist) + counted(set@, CoverartMethod::Song)
            + counted(set@, CoverartMethod::Album) + counted(set@, CoverartMethod::Url),
{
    let all = set@;
    let rest1 = all.remove(CoverartMethod::Artist);
    let rest2 = rest1.remove(CoverartMethod::Song);
    let rest3 = rest2.remove(CoverartMethod::Album);
    let rest4 = rest3.remove(CoverartMethod::Url);
    assert forall|m: CoverartMethod| !rest4.contains(m) by {
        match m {
            CoverartMethod::Artist => {},
            CoverartMethod::Song => {},
            CoverartMethod::Album => {},
            CoverartMethod::Url => {},
        }
    }
    assert(rest4 =~= Set::empty());
    assert(rest4.len() == 0);
    assert(rest3.len() == rest4.len() + counted(all, CoverartMethod::Url));
    assert(rest2.len() == rest3.len() + counted(all, CoverartMethod::Album));
    assert(rest1.len() == rest2.len() + counted(all, CoverartMethod::Song));
    assert(all.len() == rest1.len() + counted(all, CoverartMethod::Artist));
}

/// Measuring an image in place fills in its metadata and touches neither URL nor grade; a
/// failed attempt changes nothing.
pub proof fn law_fetch_metadata(
    image: &mut ImageInfo,
    found: Result<ImageMetadata, String>,
    done: (),
)
    requires
        call_ensures(ImageInfo::fetch_metadata, (image, found), done),
    ensures
        final(image).url == old(image).url,
        final(image).grade == old(image).grade,
        found matches Ok(metadata) ==> {
            &&& final(image).width == Some(metadata.width)
            &&& final(image).height == Some(metadata.height)
            &&& final(image).size_bytes == Some(metadata.size_bytes)
            &&& final(image).format == Some(metadata.format)
        },
        found is Err ==> *final(image) == *old(image),
{
}

/// Grading an image in place sets the grade and nothing else.
pub proof fn law_set_grade(image: &mut ImageInfo, grade: i32, done: ())
    requires
        call_ensures(ImageInfo::set_grade, (image, grade), done),
    ensures
        final(image).grade == Some(grade),
        final(image).url == old(image).url,
        final(image).width == old(image).width,
        final(image).height == old(image).height,
        final(image).size_bytes == old(image).size_bytes,
        final(image).format == old(image).format,
{
}

/// An image stands by its grade, and without one by zero; a block stands by the grade of its
/// first image.
pub proof fn law_places(image: ImageInfo, block: CoverartResult, of_image: i32, of_block: i32)
    requires
        call_ensures(<ImageInfo as Graded>::rank_of, (&image,), of_image),
        call_ensures(<CoverartResult as Graded>::rank_of, (&block,), of_block),
    ensures
        image.grade is None ==> of_image == 0,
        image.grade matches Some(grade) ==> of_image == grade,
        of_block == first_grade(block),
{
}

/// Registering puts a provider behind those that are there, and they stay as they are.
pub proof fn law_registering<P>(provider: P, before: Seq<P>, after: Seq<P>)
    requires
        registered(provider, before, after),
    ensures
        after.len() == before.len() + 1,
        after[before.len() as int] == provider,
        forall|i: int| 0 <= i < before.len() ==> after[i] == #[trigger] before[i],
{
    assert forall|i: int| 0 <= i < before.len() implies after[i] == #[trigger] before[i] by {
        assert(after.drop_last()[i] == before[i]);
    }
}

/// A new manager has no provider, and counting gives how many there are.
pub proof fn law_counting(manager: CoverartManager, empty: CoverartManager, count: usize)
    requires
        call_ensures(CoverartManager::new, (), empty),
        call_ensures(CoverartManager::provider_count, (&manager,), count),
    ensures
        empty@.len() == 0,
        count == manager@.len(),
{
}

/// Putting a method into a set adds that method and no other.
pub proof fn law_inserting_method(
    set: &mut CoverartMethods,
    method: CoverartMethod,
    other: CoverartMethod,
    done: (),
    before: bool,
    after: bool,
)
    requires
        call_ensures(CoverartMethods::contains, (old(set), &other), before),
        call_ensures(CoverartMethods::insert, (set, method), done),
        call_ensures(CoverartMethods::contains, (final(set), &other), after),
    ensures
        after <==> before || other == method,
{
}

/// A provider that hands something out for a query supports the method, and it is what it
/// may answer that very query with.
pub proof fn law_answers<P: CoverartProvider>(
    provider: P,
    title: &str,
    artist: &str,
    year: Option<i32>,
    url: &str,
    of_artist: Vec<String>,
    of_song: Vec<String>,
    of_album: Vec<String>,
    of_url: Vec<String>,
)
    requires
        call_ensures(P::get_artist_coverart, (&provider, artist), of_artist),
        call_ensures(P::get_song_coverart, (&provider, title, artist), of_song),
        call_ensures(P::get_album_coverart, (&provider, title, artist, year), of_album),
        call_ensures(P::get_url_coverart, (&provider, url), of_url),
    ensures
        of_artist.len() > 0 ==> provider.methods().contains(CoverartMethod::Artist)
            && provider.may_answer(CoverartQuery::Artist(artist@), texts(of_artist@)),
        of_song.len() > 0 ==> provider.methods().contains(CoverartMethod::Song)
            && provider.may_answer(CoverartQuery::Song(title@, artist@), texts(of_song@)),
        of_album.len() > 0 ==> provider.methods().contains(CoverartMethod::Album)
            && provider.may_answer(CoverartQuery::Album(title@, artist@, year), texts(of_album@)),
        of_url.len() > 0 ==> provider.methods().contains(CoverartMethod::Url)
            && provider.may_answer(CoverartQuery::Url(url@), texts(of_url@)),
{
}

} // verus!
