use rocket_container::repository::advertisement::AdvertisementDto;
use rocket_container::repository::image::ImageDto;
use rocket_container::repository::video::{AssetReferenceDto, VideoDto};
use rocket_container::service::advertisement::{Advertisement, AdvertisementMap};
use rocket_container::service::container::{
    build_container, get_container, list_containers, Container,
};
use rocket_container::service::image::{Image, ImageMap};
use rocket_container::service::video::{AssetReference, Video, VideoMap};
use rocket_container::service::{flatten_with_keys, group};
use rocket_container::types::{AssetType, Error, VideoType};

fn ad(id: u32) -> Advertisement {
    Advertisement::new(id, format!("Advertisement {}", id), format!("https://ads.com/{}", id))
}

fn image(id: u32) -> Image {
    Image::new(id, format!("Image {}", id), format!("https://images.com/{}", id))
}

fn video(id: u32) -> Video {
    Video::new(
        vec![AssetReference::new(id + 1000, AssetType::Image)],
        "d".to_string(),
        "2021-12-31".to_string(),
        id,
        format!("/path/to/{}.mp4", id),
        format!("Video {}", id),
        VideoType::Movie,
    )
}

#[test]
fn container_new_keeps_what_it_is_given() {
    let container = Container::new(vec![ad(1)], 4, vec![image(2)], "a title".to_string(), vec![video(3)]);
    assert_eq!(container.ads(), &vec![ad(1)]);
    assert_eq!(container.id(), 4);
    assert_eq!(container.images(), &vec![image(2)]);
    assert_eq!(container.title(), "a title");
    assert_eq!(container.videos(), &vec![video(3)]);
}

#[test]
fn container_title_names_what_it_holds() {
    assert_eq!(Container::title_for(5, true, true), "container-5_ads_images_videos");
    assert_eq!(Container::title_for(5, true, false), "container-5_ads_videos");
    assert_eq!(Container::title_for(5, false, true), "container-5_images_videos");
    assert_eq!(Container::title_for(5, false, false), "container-5_videos");
    assert_eq!(Container::title_for(0, false, false), "container-0_videos");
    assert_eq!(
        Container::title_for(u32::MAX, true, true),
        "container-4294967295_ads_images_videos"
    );
}

#[test]
fn container_from_lists() {
    let container = Container::from(12, &[ad(1), ad(2)], &[image(3)], &[video(4)]);
    assert_eq!(
        container,
        Container::new(
            vec![ad(1), ad(2)],
            12,
            vec![image(3)],
            "container-12_ads_images_videos".to_string(),
            vec![video(4)]
        )
    );
    assert_eq!(
        Container::new_from_lists(12, vec![ad(1), ad(2)], vec![image(3)], vec![video(4)]),
        container
    );
}

#[test]
fn container_from_empty_lists() {
    let container = Container::from(3, &[], &[], &[]);
    assert_eq!(
        container,
        Container::new(vec![], 3, vec![], "container-3_videos".to_string(), vec![])
    );
    assert_eq!(Container::from(3, &[], &[image(1)], &[]).title(), "container-3_images_videos");
    assert_eq!(Container::from(3, &[ad(1)], &[], &[]).title(), "container-3_ads_videos");
}

#[test]
fn container_clone_is_equal() {
    let container = Container::from(12, &[ad(1), ad(2)], &[image(3)], &[video(4), video(5)]);
    assert_eq!(container.clone(), container);
}

#[test]
fn build_container_reads_its_buckets() {
    let advertisements: AdvertisementMap = group(vec![(1, ad(10)), (2, ad(20)), (1, ad(11))]);
    let images: ImageMap = group(vec![(2, image(30)), (1, image(31))]);
    let container = build_container(1, &advertisements, &images, &[video(40)]);
    assert_eq!(
        container,
        Container::new(
            vec![ad(10), ad(11)],
            1,
            vec![image(31)],
            "container-1_ads_images_videos".to_string(),
            vec![video(40)]
        )
    );
}

#[test]
fn build_container_defaults_missing_buckets() {
    let advertisements: AdvertisementMap = group(vec![(1, ad(10))]);
    let images: ImageMap = group(vec![(2, image(30))]);
    let without_images = build_container(1, &advertisements, &images, &[video(40)]);
    assert_eq!(without_images.ads(), &vec![ad(10)]);
    assert!(without_images.images().is_empty());
    assert_eq!(without_images.title(), "container-1_ads_videos");
    let without_ads = build_container(2, &advertisements, &images, &[video(41)]);
    assert!(without_ads.ads().is_empty());
    assert_eq!(without_ads.images(), &vec![image(30)]);
    assert_eq!(without_ads.title(), "container-2_images_videos");
    let bare = build_container(3, &advertisements, &images, &[video(42)]);
    assert!(bare.ads().is_empty());
    assert!(bare.images().is_empty());
    assert_eq!(bare.title(), "container-3_videos");
    assert_eq!(bare.videos(), &vec![video(42)]);
}

#[test]
fn list_containers_follows_the_videos() {
    let advertisements: AdvertisementMap = group(vec![(1, ad(10)), (9, ad(90)), (2, ad(20))]);
    let images: ImageMap = group(vec![(2, image(30)), (8, image(80))]);
    let videos: VideoMap = group(vec![(1, video(40)), (2, video(41)), (1, video(42)), (3, video(43))]);
    let mut containers = list_containers(&advertisements, &images, &videos);
    containers.sort_by_key(|container| container.id());
    assert_eq!(
        containers,
        vec![
            Container::new(
                vec![ad(10)],
                1,
                vec![],
                "container-1_ads_videos".to_string(),
                vec![video(40), video(42)]
            ),
            Container::new(
                vec![ad(20)],
                2,
                vec![image(30)],
                "container-2_ads_images_videos".to_string(),
                vec![video(41)]
            ),
            Container::new(vec![], 3, vec![], "container-3_videos".to_string(), vec![video(43)]),
        ]
    );
}

#[test]
fn list_containers_without_videos_is_empty() {
    let advertisements: AdvertisementMap = group(vec![(1, ad(10))]);
    let images: ImageMap = group(vec![(1, image(30))]);
    let videos: VideoMap = group(vec![]);
    assert_eq!(list_containers(&advertisements, &images, &videos), vec![]);
}

#[test]
fn list_containers_gives_each_container_once() {
    let pairs: Vec<(u32, Video)> = (0..200u32).map(|i| (i % 31, video(i))).collect();
    let videos: VideoMap = group(pairs);
    let advertisements: AdvertisementMap = group(vec![]);
    let images: ImageMap = group(vec![]);
    let containers = list_containers(&advertisements, &images, &videos);
    assert_eq!(containers.len(), 31);
    let mut ids: Vec<u32> = containers.iter().map(|container| container.id()).collect();
    ids.sort();
    assert_eq!(ids, (0..31u32).collect::<Vec<u32>>());
    assert_eq!(flatten_with_keys(videos).len(), 200);
}

#[test]
fn assembly_is_complete() {
    let container = get_container(
        7,
        vec![AdvertisementDto::new("7".to_string(), "1".to_string(), "A".to_string(), "a".to_string())],
        vec![ImageDto::new("7".to_string(), "2".to_string(), "I".to_string(), "i".to_string())],
        vec![
            (
                VideoDto::new(
                    "7".to_string(),
                    "d".to_string(),
                    "e".to_string(),
                    "3".to_string(),
                    "p".to_string(),
                    "t".to_string(),
                    VideoType::Episode,
                ),
                vec![AssetReferenceDto::new("1".to_string(), AssetType::Ad, "3".to_string())],
            ),
            (
                VideoDto::new(
                    "7".to_string(),
                    "d".to_string(),
                    "e".to_string(),
                    "4".to_string(),
                    "p".to_string(),
                    "t".to_string(),
                    VideoType::Movie,
                ),
                vec![
                    AssetReferenceDto::new("2".to_string(), AssetType::Image, "4".to_string()),
                    AssetReferenceDto::new("1".to_string(), AssetType::Ad, "4".to_string()),
                ],
            ),
        ],
    )
    .unwrap();
    assert_eq!(container.id(), 7);
    assert_eq!(container.title(), "container-7_ads_images_videos");
    assert_eq!(container.ads().len(), 1);
    assert_eq!(container.images().len(), 1);
    assert_eq!(container.videos().len(), 2);
    assert_eq!(container.videos()[0].assets(), &vec![AssetReference::new(1, AssetType::Ad)]);
    assert_eq!(
        container.videos()[1].assets(),
        &vec![AssetReference::new(2, AssetType::Image), AssetReference::new(1, AssetType::Ad)]
    );
}

#[test]
fn assembly_of_empty_lists_succeeds() {
    assert_eq!(
        get_container(0, vec![], vec![], vec![]),
        Ok(Container::new(vec![], 0, vec![], "container-0_videos".to_string(), vec![]))
    );
}

#[test]
fn assembly_is_all_or_nothing() {
    let good_ad = || AdvertisementDto::new("7".to_string(), "1".to_string(), "A".to_string(), "a".to_string());
    let bad_ad = || AdvertisementDto::new("7".to_string(), "x".to_string(), "A".to_string(), "a".to_string());
    let bad_image = || ImageDto::new("7".to_string(), "y".to_string(), "I".to_string(), "i".to_string());
    let bad_video = || {
        (
            VideoDto::new(
                "7".to_string(),
                "d".to_string(),
                "e".to_string(),
                "3".to_string(),
                "p".to_string(),
                "t".to_string(),
                VideoType::Episode,
            ),
            vec![AssetReferenceDto::new("z".to_string(), AssetType::Ad, "3".to_string())],
        )
    };
    assert_eq!(get_container(7, vec![good_ad(), bad_ad()], vec![], vec![]), Err(Error::malformed()));
    assert_eq!(get_container(7, vec![good_ad()], vec![bad_image()], vec![]), Err(Error::malformed()));
    assert_eq!(get_container(7, vec![good_ad()], vec![], vec![bad_video()]), Err(Error::malformed()));
}

#[test]
fn end_to_end_scenario() {
    let advertisements = vec![AdvertisementDto::new(
        "5".to_string(),
        "9".to_string(),
        "A".to_string(),
        "http://x".to_string(),
    )];
    let images = vec![];
    let videos = vec![(
        VideoDto::new(
            "5".to_string(),
            "d".to_string(),
            "".to_string(),
            "100".to_string(),
            "p".to_string(),
            "t".to_string(),
            VideoType::Clip,
        ),
        vec![],
    )];
    let container = get_container(5, advertisements, images, videos);
    assert_eq!(
        container,
        Ok(Container::new(
            vec![Advertisement::new(9, "A".to_string(), "http://x".to_string())],
            5,
            vec![],
            "container-5_ads_videos".to_string(),
            vec![Video::new(
                vec![],
                "d".to_string(),
                "".to_string(),
                100,
                "p".to_string(),
                "t".to_string(),
                VideoType::Clip
            )]
        ))
    );
}
