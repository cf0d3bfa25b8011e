use std::sync::Arc;

use coverart::coverart::{
    arrange_offers, list_offers, rank_offers, sort_by_best_image, CoverartManager, CoverartMethod,
    CoverartMethods, CoverartProvider, CoverartResult, GraderImageInfo, ImageInfo, ImageMetadata,
    ProviderInfo,
};

struct Library {
    name: String,
    methods: Vec<CoverartMethod>,
    urls: Vec<String>,
}

impl CoverartProvider for Library {
    fn name(&self) -> &str {
        &self.name
    }

    fn display_name(&self) -> &str {
        "A Library"
    }

    fn supported_methods(&self) -> CoverartMethods {
        let mut methods = CoverartMethods::new();
        for method in &self.methods {
            methods.insert(*method);
        }
        methods
    }

    fn get_artist_coverart_impl(&self, artist: &str) -> Vec<String> {
        self.urls.iter().map(|u| format!("{}/{}", u, artist)).collect()
    }

    fn get_album_coverart_impl(&self, title: &str, artist: &str, year: Option<i32>) -> Vec<String> {
        self.urls.iter().map(|u| format!("{}/{}/{}/{:?}", u, artist, title, year)).collect()
    }

    fn get_song_coverart_impl(&self, title: &str, artist: &str) -> Vec<String> {
        self.urls.iter().map(|u| format!("{}/{}/{}", u, artist, title)).collect()
    }
}

fn library(name: &str, methods: &[CoverartMethod], urls: &[&str]) -> Arc<dyn CoverartProvider> {
    Arc::new(Library {
        name: name.to_string(),
        methods: methods.to_vec(),
        urls: urls.iter().map(|u| u.to_string()).collect(),
    })
}

fn provider(name: &str) -> ProviderInfo {
    ProviderInfo { name: name.to_string(), display_name: name.to_uppercase() }
}

fn metadata(width: u32) -> ImageMetadata {
    ImageMetadata { width, height: width / 2, size_bytes: 10, format: "png".to_string() }
}

/// The grade is the width.
fn by_width(info: &GraderImageInfo) -> i32 {
    info.width.unwrap_or(0) as i32
}

fn urls(result: &CoverartResult) -> Vec<&str> {
    result.images.iter().map(|i| i.url.as_str()).collect()
}

#[test]
fn images() {
    let mut image = ImageInfo::new("u".to_string());
    assert_eq!(image.url, "u");
    assert!(image.width.is_none() && image.grade.is_none() && image.format.is_none());
    image.set_grade(3);
    image.fetch_metadata(Err("no such image".to_string()));
    assert!(image.width.is_none());
    image.fetch_metadata(Ok(metadata(8)));
    assert_eq!((image.width, image.height, image.size_bytes), (Some(8), Some(4), Some(10)));
    assert_eq!(image.format.as_deref(), Some("png"));
    assert_eq!(image.grade, Some(3));

    let image = ImageInfo::with_metadata("v".to_string(), metadata(2));
    assert_eq!((image.url.as_str(), image.width, image.grade), ("v", Some(2), None));
    let told = image.to_grader(&"p".to_string());
    assert_eq!((told.url.as_str(), told.provider.as_str(), told.height), ("v", "p", Some(1)));
}

#[test]
fn images_of_a_result_stand_best_first() {
    let found = vec![Ok(metadata(10)), Err("gone".to_string()), Ok(metadata(30)), Ok(metadata(10))];
    let names = ["a", "b", "c", "d"].iter().map(|s| s.to_string()).collect();
    let result = CoverartResult::new(provider("p"), names, found, &by_width);
    // Images of the same grade keep their order.
    assert_eq!(urls(&result), vec!["c", "a", "d", "b"]);
    assert_eq!(result.images[0].grade, Some(30));
    assert_eq!(result.images[3].grade, Some(0));
    assert_eq!(result.provider.name, "p");
}

#[test]
fn grading_knows_the_provider() {
    let grade = |info: &GraderImageInfo| if info.provider == "good" { 5 } else { 1 };
    let images = vec![ImageInfo::new("u".to_string())];
    let result = CoverartResult::with_images(provider("good"), images, &grade);
    assert_eq!(result.images[0].grade, Some(5));
    let images = vec![ImageInfo::new("u".to_string())];
    let result = CoverartResult::with_images(provider("bad"), images, &grade);
    assert_eq!(result.images[0].grade, Some(1));
}

#[test]
fn results_stand_by_their_best_image() {
    let result = |name: &str, grades: &[i32]| {
        let images = grades
            .iter()
            .map(|g| {
                let mut image = ImageInfo::new(format!("{}{}", name, g));
                image.set_grade(*g);
                image
            })
            .collect();
        CoverartResult { provider: provider(name), images }
    };
    let sorted = sort_by_best_image(vec![
        result("low", &[3, 1]),
        result("none", &[]),
        result("high", &[9, 2]),
        result("also low", &[3]),
    ]);
    let names: Vec<&str> = sorted.iter().map(|r| r.provider.name.as_str()).collect();
    assert_eq!(names, vec!["high", "low", "also low", "none"]);
}

#[test]
fn method_sets() {
    let mut methods = CoverartMethods::new();
    assert_eq!(methods.len(), 0);
    methods.insert(CoverartMethod::Url);
    methods.insert(CoverartMethod::Url);
    assert_eq!(methods.len(), 1);
    assert!(methods.contains(&CoverartMethod::Url));
    assert!(!methods.contains(&CoverartMethod::Song));
}

#[test]
fn manager_asks_those_who_can_answer() {
    let mut manager = CoverartManager::new();
    assert_eq!(manager.provider_count(), 0);
    let artist = [CoverartMethod::Artist];
    manager.register_provider(library("one", &artist, &["x"]));
    manager.register_provider(library("silent", &artist, &[]));
    manager.register_provider(library("albums", &[CoverartMethod::Album], &["y"]));
    manager.register_provider(library("two", &artist, &["z", "w"]));
    assert_eq!(manager.provider_count(), 4);
    assert_eq!(manager.get_providers()[2].name(), "albums");

    let offers = manager.get_artist_coverart("A");
    let names: Vec<&str> = offers.iter().map(|o| o.provider.name.as_str()).collect();
    assert_eq!(names, vec!["one", "two"]);
    assert_eq!(offers[0].provider.display_name, "A Library");
    assert_eq!(offers[1].urls, vec!["z/A", "w/A"]);

    let offers = manager.get_album_coverart("T", "A", Some(1999));
    assert_eq!(offers.len(), 1);
    assert_eq!(offers[0].urls, vec!["y/A/T/Some(1999)"]);

    assert!(manager.get_song_coverart("T", "A").is_empty());
    assert!(manager.get_url_coverart("http://u").is_empty());
}

#[test]
fn method_without_an_implementation_finds_nothing() {
    let mut manager = CoverartManager::default();
    manager.register_provider(library("u", &[CoverartMethod::Url, CoverartMethod::Song], &["x"]));
    assert!(manager.get_url_coverart("http://u").is_empty());
    assert_eq!(manager.get_song_coverart("T", "A")[0].urls, vec!["x/A/T"]);
}

#[test]
fn best_image_of_all_comes_first() {
    let mut manager = CoverartManager::new();
    let artist = [CoverartMethod::Artist];
    manager.register_provider(library("one", &artist, &["a", "b"]));
    manager.register_provider(library("two", &artist, &["c"]));
    let found = || vec![vec![Ok(metadata(1)), Ok(metadata(5))], vec![Ok(metadata(7))]];

    let results = rank_offers(manager.get_artist_coverart("A"), found(), &by_width);
    assert_eq!(results[0].provider.name, "two");
    assert_eq!(urls(&results[0]), vec!["c/A"]);
    assert_eq!(urls(&results[1]), vec!["b/A", "a/A"]);

    // Songs and URLs stay in the order of the providers.
    let results = list_offers(manager.get_artist_coverart("A"), found(), &by_width);
    assert_eq!(results[0].provider.name, "one");
    assert_eq!(urls(&results[0]), vec!["b/A", "a/A"]);
}

#[test]
fn order_goes_by_the_query() {
    let mut manager = CoverartManager::new();
    let artist = [CoverartMethod::Artist];
    manager.register_provider(library("one", &artist, &["a"]));
    manager.register_provider(library("two", &artist, &["b"]));
    let first = |method: CoverartMethod| {
        let found = vec![vec![Ok(metadata(1))], vec![Ok(metadata(7))]];
        let offers = manager.get_artist_coverart("A");
        arrange_offers(method, offers, found, &by_width)[0].provider.name.clone()
    };
    assert_eq!(first(CoverartMethod::Artist), "two");
    assert_eq!(first(CoverartMethod::Album), "two");
    assert_eq!(first(CoverartMethod::Song), "one");
    assert_eq!(first(CoverartMethod::Url), "one");
}

#[test]
fn grading_twice_changes_nothing() {
    let images = [3, 9, 3, 5]
        .iter()
        .enumerate()
        .map(|(i, w)| ImageInfo::with_metadata(format!("u{}", i), metadata(*w)))
        .collect();
    let once = CoverartResult::with_images(provider("p"), images, &by_width);
    let twice = CoverartResult::with_images(provider("p"), once.images.clone(), &by_width);
    assert_eq!(urls(&once), vec!["u1", "u3", "u0", "u2"]);
    assert_eq!(format!("{:?}", once), format!("{:?}", twice));
}

#[test]
fn providers_are_counted() {
    let mut manager = CoverartManager::new();
    for n in 0..4 {
        assert_eq!(manager.provider_count(), n);
        assert_eq!(manager.get_providers().len(), n);
        let _ = manager.get_artist_coverart("A");
        manager.register_provider(library("p", &[], &[]));
    }
    assert_eq!(manager.provider_count(), 4);
}

#[test]
fn every_answer_is_kept() {
    let mut manager = CoverartManager::new();
    let song = [CoverartMethod::Song];
    for n in 0..5 {
        let urls: &[&str] = if n % 2 == 0 { &["x"] } else { &[] };
        manager.register_provider(library(&format!("p{}", n), &song, urls));
    }
    let offers = manager.get_song_coverart("T", "A");
    let names: Vec<&str> = offers.iter().map(|o| o.provider.name.as_str()).collect();
    assert_eq!(names, vec!["p0", "p2", "p4"]);
}
