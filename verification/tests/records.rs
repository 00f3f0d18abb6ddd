use rocket_container::repository::advertisement::{
    list_advertisements as list_advertisements_request,
    list_advertisements_by_container as list_advertisements_by_container_request,
    AdvertisementDto, AdvertisementsDto,
};
use rocket_container::repository::image::{
    list_images as list_images_request,
    list_images_by_container as list_images_by_container_request, ImageDto, ImagesDto,
};
use rocket_container::repository::video::{
    get_video as get_video_request, list_asset_references as list_asset_references_request,
    list_asset_references_by_type, list_videos as list_videos_request,
    list_videos_by_container as list_videos_by_container_request,
    list_videos_by_container_and_type, list_videos_by_type, AssetReferenceDto, VideoAssetsDto,
    VideoDto, VideosDto,
};
use rocket_container::service::advertisement::{
    list_advertisements, list_advertisements_by_container, Advertisement,
};
use rocket_container::service::image::{list_images, list_images_by_container, Image};
use rocket_container::service::video::{
    asset_references_request, get_video, list_asset_references, list_videos,
    list_videos_by_container, map_video_dto_to_tuple, map_video_dto_to_video, AssetReference,
    Video, VideoBuilder,
};
use rocket_container::types::{AssetType, Error, VideoType};

const ADS: &str = "http://ads.rocket-stream.bottlerocketservices.com/advertisements";
const IMAGES: &str = "http://images.rocket-stream.bottlerocketservices.com/images";
const VIDEOS: &str = "http://videos.rocket-stream.bottlerocketservices.com/videos";

fn advertisement_dto(container_id: &str, id: &str) -> AdvertisementDto {
    AdvertisementDto::new(
        container_id.to_string(),
        id.to_string(),
        format!("Advertisement {}", id),
        format!("https://advertisement.com/{}", id),
    )
}

fn advertisement(id: u32) -> Advertisement {
    Advertisement::new(
        id,
        format!("Advertisement {}", id),
        format!("https://advertisement.com/{}", id),
    )
}

fn image_dto(container_id: &str, id: &str) -> ImageDto {
    ImageDto::new(
        container_id.to_string(),
        id.to_string(),
        format!("Image {}", id),
        format!("https://image.com/{}", id),
    )
}

fn image(id: u32) -> Image {
    Image::new(id, format!("Image {}", id), format!("https://image.com/{}", id))
}

fn video_dto(container_id: &str, id: &str) -> VideoDto {
    VideoDto::new(
        container_id.to_string(),
        "A series of videos".to_string(),
        "2021-12-31".to_string(),
        id.to_string(),
        format!("/path/to/{}.mp4", id),
        format!("Video {}", id),
        VideoType::Episode,
    )
}

fn video(id: u32, assets: Vec<AssetReference>) -> Video {
    Video::new(
        assets,
        "A series of videos".to_string(),
        "2021-12-31".to_string(),
        id,
        format!("/path/to/{}.mp4", id),
        format!("Video {}", id),
        VideoType::Episode,
    )
}

fn asset_dto(asset_id: &str, asset_type: AssetType, video_id: &str) -> AssetReferenceDto {
    AssetReferenceDto::new(asset_id.to_string(), asset_type, video_id.to_string())
}

#[test]
fn advertisement_requests() {
    let all = list_advertisements_request();
    assert_eq!(all.endpoint, ADS);
    assert!(all.query.is_empty());
    let one = list_advertisements_by_container_request(31);
    assert_eq!(one.endpoint, ADS);
    assert_eq!(one.query, vec![("containerId".to_string(), "31".to_string())]);
}

#[test]
fn image_requests() {
    let all = list_images_request();
    assert_eq!(all.endpoint, IMAGES);
    assert!(all.query.is_empty());
    let one = list_images_by_container_request(0);
    assert_eq!(one.endpoint, IMAGES);
    assert_eq!(one.query, vec![("containerId".to_string(), "0".to_string())]);
}

#[test]
fn video_requests() {
    let one = get_video_request(1301);
    assert_eq!(one.endpoint, format!("{}/1301", VIDEOS));
    assert!(one.query.is_empty());
    let all = list_videos_request();
    assert_eq!(all.endpoint, VIDEOS);
    assert!(all.query.is_empty());
    let by_container = list_videos_by_container_request(7);
    assert_eq!(by_container.endpoint, VIDEOS);
    assert_eq!(by_container.query, vec![("containerId".to_string(), "7".to_string())]);
    let by_type = list_videos_by_type(VideoType::Movie);
    assert_eq!(by_type.endpoint, VIDEOS);
    assert_eq!(by_type.query, vec![("type".to_string(), "MOVIE".to_string())]);
    let by_both = list_videos_by_container_and_type(7, VideoType::Clip);
    assert_eq!(by_both.endpoint, VIDEOS);
    assert_eq!(
        by_both.query,
        vec![
            ("containerId".to_string(), "7".to_string()),
            ("type".to_string(), "CLIP".to_string())
        ]
    );
}

#[test]
fn asset_reference_requests() {
    let all = list_asset_references_request(1301);
    assert_eq!(all.endpoint, format!("{}/1301/asset-references", VIDEOS));
    assert!(all.query.is_empty());
    let ads = list_asset_references_by_type(1301, AssetType::Ad);
    assert_eq!(ads.endpoint, format!("{}/1301/asset-references", VIDEOS));
    assert_eq!(ads.query, vec![("assetType".to_string(), "AD".to_string())]);
    let images = list_asset_references_by_type(0, AssetType::Image);
    assert_eq!(images.endpoint, format!("{}/0/asset-references", VIDEOS));
    assert_eq!(images.query, vec![("assetType".to_string(), "IMAGE".to_string())]);
}

#[test]
fn asset_references_request_of_a_video() {
    let request = asset_references_request(&video_dto("0", "1301")).unwrap();
    assert_eq!(request.endpoint, format!("{}/1301/asset-references", VIDEOS));
    assert!(request.query.is_empty());
    assert_eq!(asset_references_request(&video_dto("0", "x")), Err(Error::malformed()));
}

#[test]
fn dto_getters_return_the_fields() {
    let advertisement = advertisement_dto("0", "1");
    assert_eq!(advertisement.container_id(), "0");
    assert_eq!(advertisement.id(), "1");
    assert_eq!(advertisement.name(), "Advertisement 1");
    assert_eq!(advertisement.url(), "https://advertisement.com/1");
    let image = image_dto("2", "3");
    assert_eq!(image.container_id(), "2");
    assert_eq!(image.id(), "3");
    assert_eq!(image.name(), "Image 3");
    assert_eq!(image.url(), "https://image.com/3");
    let video = video_dto("4", "5");
    assert_eq!(video.container_id(), "4");
    assert_eq!(video.description(), "A series of videos");
    assert_eq!(video.expiration_date(), "2021-12-31");
    assert_eq!(video.id(), "5");
    assert_eq!(video.playback_url(), "/path/to/5.mp4");
    assert_eq!(video.title(), "Video 5");
    assert_eq!(video.video_type(), VideoType::Episode);
    let asset = asset_dto("120", AssetType::Image, "1404");
    assert_eq!(asset.asset_id(), "120");
    assert_eq!(asset.asset_type(), AssetType::Image);
    assert_eq!(asset.video_id(), "1404");
}

#[test]
fn wrapped_lists_hold_their_items() {
    let advertisements = AdvertisementsDto { advertisements: vec![advertisement_dto("0", "1")] };
    assert_eq!(advertisements.advertisements.len(), 1);
    let images = ImagesDto { images: vec![image_dto("0", "1"), image_dto("0", "2")] };
    assert_eq!(images.images.len(), 2);
    let videos = VideosDto { videos: vec![] };
    assert!(videos.videos.is_empty());
    let assets = VideoAssetsDto { video_assets: vec![asset_dto("1", AssetType::Ad, "2")] };
    assert_eq!(assets.video_assets[0].asset_id(), "1");
}

#[test]
fn domain_getters_return_the_fields() {
    let advertisement = advertisement(9);
    assert_eq!(advertisement.id(), 9);
    assert_eq!(advertisement.name(), "Advertisement 9");
    assert_eq!(advertisement.url(), "https://advertisement.com/9");
    let image = image(8);
    assert_eq!(image.id(), 8);
    assert_eq!(image.name(), "Image 8");
    assert_eq!(image.url(), "https://image.com/8");
    let reference = AssetReference::new(120, AssetType::Ad);
    assert_eq!(reference.asset_id(), 120);
    assert_eq!(reference.asset_type(), AssetType::Ad);
    let video = video(7, vec![reference]);
    assert_eq!(video.assets(), &vec![reference]);
    assert_eq!(video.description(), "A series of videos");
    assert_eq!(video.expiration_date(), "2021-12-31");
    assert_eq!(video.id(), 7);
    assert_eq!(video.playback_url(), "/path/to/7.mp4");
    assert_eq!(video.title(), "Video 7");
    assert_eq!(video.video_type(), VideoType::Episode);
}

#[test]
fn clones_are_equal() {
    assert_eq!(advertisement(1).clone(), advertisement(1));
    assert_eq!(image(2).clone(), image(2));
    let video = video(3, vec![AssetReference::new(4, AssetType::Image)]);
    assert_eq!(video.clone(), video);
}

#[test]
fn advertisement_from_dto() {
    assert_eq!(Advertisement::from(advertisement_dto("0", "1")), Ok(advertisement(1)));
    assert_eq!(Advertisement::from(advertisement_dto("not a number", "1")), Ok(advertisement(1)));
}

#[test]
fn advertisement_from_dto_with_malformed_id() {
    let dto = AdvertisementDto::new("0".to_string(), "one".to_string(), "n".to_string(), "u".to_string());
    assert_eq!(Advertisement::from(dto), Err(Error::permanent("Malformed identifier")));
}

#[test]
fn image_from_dto() {
    assert_eq!(Image::from(image_dto("0", "1")), Ok(image(1)));
    let dto = ImageDto::new("0".to_string(), "".to_string(), "n".to_string(), "u".to_string());
    assert_eq!(Image::from(dto), Err(Error::malformed()));
}

#[test]
fn asset_reference_from_dto() {
    assert_eq!(
        AssetReference::from(asset_dto("120", AssetType::Image, "1404")),
        Ok(AssetReference::new(120, AssetType::Image))
    );
    assert_eq!(
        AssetReference::from(asset_dto("120", AssetType::Ad, "not read")),
        Ok(AssetReference::new(120, AssetType::Ad))
    );
    assert_eq!(
        AssetReference::from(asset_dto("12.0", AssetType::Ad, "1404")),
        Err(Error::malformed())
    );
}

#[test]
fn video_builder_from_dto() {
    let builder = VideoBuilder::from(video_dto("0", "1301")).unwrap();
    assert!(builder.is_complete());
    assert_eq!(builder.build_clone(), video(1301, vec![]));
    assert_eq!(builder.build(), video(1301, vec![]));
    assert_eq!(VideoBuilder::from(video_dto("0", "13 01")), Err(Error::malformed()));
}

#[test]
fn video_builder_sets_each_value() {
    let reference = AssetReference::new(1, AssetType::Ad);
    let other = AssetReference::new(2, AssetType::Image);
    let builder = Video::builder(5)
        .description("d".to_string())
        .expiration_date("e".to_string())
        .playback_url("p".to_string())
        .title("t".to_string())
        .video_type(VideoType::Clip)
        .asset(reference)
        .asset(other);
    let expected = Video::new(
        vec![reference, other],
        "d".to_string(),
        "e".to_string(),
        5,
        "p".to_string(),
        "t".to_string(),
        VideoType::Clip,
    );
    assert_eq!(builder.build_clone(), expected);
    assert_eq!(builder.assets(vec![other]).build().assets(), &vec![other]);
}

#[test]
fn video_builder_knows_when_it_is_incomplete() {
    assert!(!VideoBuilder::new(1).is_complete());
    assert_eq!(VideoBuilder::new(1).try_build(), None);
    let builder = Video::builder(1)
        .description("d".to_string())
        .expiration_date("e".to_string())
        .playback_url("p".to_string())
        .title("t".to_string());
    assert!(!builder.is_complete());
    assert_eq!(builder.try_build(), None);
    let complete = Video::builder(1)
        .description("d".to_string())
        .expiration_date("e".to_string())
        .playback_url("p".to_string())
        .title("t".to_string())
        .video_type(VideoType::Movie);
    assert!(complete.is_complete());
    assert_eq!(
        complete.try_build(),
        Some(Video::new(
            vec![],
            "d".to_string(),
            "e".to_string(),
            1,
            "p".to_string(),
            "t".to_string(),
            VideoType::Movie
        ))
    );
}

#[test]
fn video_to_builder_round_trips() {
    let video = video(3, vec![AssetReference::new(4, AssetType::Image)]);
    assert_eq!(video.to_builder().build(), video);
    assert_eq!(
        video.to_builder().title("Other".to_string()).build().title(),
        "Other"
    );
}

#[test]
fn advertisements_of_one_container_keep_their_order() {
    let listed = list_advertisements_by_container(vec![
        advertisement_dto("5", "3"),
        advertisement_dto("5", "1"),
        advertisement_dto("5", "2"),
    ]);
    assert_eq!(listed, Ok(vec![advertisement(3), advertisement(1), advertisement(2)]));
    assert_eq!(list_advertisements_by_container(vec![]), Ok(vec![]));
}

#[test]
fn advertisements_with_a_malformed_id_fail() {
    let listed = list_advertisements_by_container(vec![
        advertisement_dto("5", "3"),
        advertisement_dto("5", "x"),
    ]);
    assert_eq!(listed, Err(Error::malformed()));
}

#[test]
fn advertisements_are_grouped_by_container() {
    let map = list_advertisements(vec![
        advertisement_dto("5", "3"),
        advertisement_dto("6", "1"),
        advertisement_dto("5", "2"),
    ])
    .unwrap();
    assert_eq!(map.len(), 2);
    assert_eq!(map.get(&5), Some(&vec![advertisement(3), advertisement(2)]));
    assert_eq!(map.get(&6), Some(&vec![advertisement(1)]));
}

#[test]
fn grouped_advertisements_need_well_formed_identifiers() {
    assert_eq!(
        list_advertisements(vec![advertisement_dto("five", "3")]),
        Err(Error::malformed())
    );
    assert_eq!(
        list_advertisements(vec![advertisement_dto("5", "3"), advertisement_dto("5", "three")]),
        Err(Error::malformed())
    );
}

#[test]
fn images_are_listed_and_grouped() {
    assert_eq!(
        list_images_by_container(vec![image_dto("1", "2"), image_dto("1", "1")]),
        Ok(vec![image(2), image(1)])
    );
    let map = list_images(vec![image_dto("1", "2"), image_dto("0", "7"), image_dto("1", "1")]).unwrap();
    assert_eq!(map.len(), 2);
    assert_eq!(map.get(&1), Some(&vec![image(2), image(1)]));
    assert_eq!(map.get(&0), Some(&vec![image(7)]));
    assert_eq!(list_images(vec![image_dto("1", "-2")]), Err(Error::malformed()));
    assert_eq!(list_images(vec![image_dto("", "2")]), Err(Error::malformed()));
    assert_eq!(list_images_by_container(vec![image_dto("1", "2 ")]), Err(Error::malformed()));
}

#[test]
fn asset_references_are_listed_in_order() {
    let listed = list_asset_references(vec![
        asset_dto("120", AssetType::Image, "1404"),
        asset_dto("7", AssetType::Ad, "1404"),
    ]);
    assert_eq!(
        listed,
        Ok(vec![AssetReference::new(120, AssetType::Image), AssetReference::new(7, AssetType::Ad)])
    );
    assert_eq!(list_asset_references(vec![]), Ok(vec![]));
    assert_eq!(
        list_asset_references(vec![
            asset_dto("120", AssetType::Image, "1404"),
            asset_dto("", AssetType::Ad, "1404")
        ]),
        Err(Error::malformed())
    );
}

#[test]
fn video_dto_maps_to_video_and_tuple() {
    let assets = vec![AssetReference::new(120, AssetType::Image)];
    assert_eq!(
        map_video_dto_to_video(video_dto("2", "1301"), assets.clone()),
        Ok(video(1301, assets.clone()))
    );
    assert_eq!(
        map_video_dto_to_tuple(video_dto("2", "1301"), assets.clone()),
        Ok((2, video(1301, assets.clone())))
    );
    assert_eq!(
        map_video_dto_to_video(video_dto("two", "1301"), assets.clone()),
        Ok(video(1301, assets.clone()))
    );
    assert_eq!(
        map_video_dto_to_tuple(video_dto("two", "1301"), assets.clone()),
        Err(Error::malformed())
    );
    assert_eq!(map_video_dto_to_video(video_dto("2", "?"), assets.clone()), Err(Error::malformed()));
    assert_eq!(map_video_dto_to_tuple(video_dto("2", "?"), assets), Err(Error::malformed()));
}

#[test]
fn video_is_built_from_what_was_fetched() {
    let fetched = get_video(
        video_dto("2", "1301"),
        vec![asset_dto("120", AssetType::Image, "1301"), asset_dto("9", AssetType::Ad, "1301")],
    );
    assert_eq!(
        fetched,
        Ok(video(
            1301,
            vec![AssetReference::new(120, AssetType::Image), AssetReference::new(9, AssetType::Ad)]
        ))
    );
    assert_eq!(
        get_video(video_dto("2", "1301"), vec![asset_dto("a", AssetType::Image, "1301")]),
        Err(Error::malformed())
    );
    assert_eq!(get_video(video_dto("2", "b"), vec![]), Err(Error::malformed()));
}

#[test]
fn videos_are_listed_and_grouped() {
    let fetched = || {
        vec![
            (video_dto("2", "10"), vec![asset_dto("1", AssetType::Ad, "10")]),
            (video_dto("3", "11"), vec![]),
            (video_dto("2", "12"), vec![asset_dto("2", AssetType::Image, "12")]),
        ]
    };
    assert_eq!(
        list_videos_by_container(fetched()),
        Ok(vec![
            video(10, vec![AssetReference::new(1, AssetType::Ad)]),
            video(11, vec![]),
            video(12, vec![AssetReference::new(2, AssetType::Image)]),
        ])
    );
    let map = list_videos(fetched()).unwrap();
    assert_eq!(map.len(), 2);
    assert_eq!(
        map.get(&2),
        Some(&vec![
            video(10, vec![AssetReference::new(1, AssetType::Ad)]),
            video(12, vec![AssetReference::new(2, AssetType::Image)]),
        ])
    );
    assert_eq!(map.get(&3), Some(&vec![video(11, vec![])]));
}

#[test]
fn videos_with_a_malformed_identifier_fail() {
    assert_eq!(
        list_videos(vec![(video_dto("x", "10"), vec![])]),
        Err(Error::malformed())
    );
    assert_eq!(
        list_videos(vec![(video_dto("2", "10"), vec![asset_dto("x", AssetType::Ad, "10")])]),
        Err(Error::malformed())
    );
    assert_eq!(
        list_videos_by_container(vec![(video_dto("2", "10"), vec![]), (video_dto("2", ""), vec![])]),
        Err(Error::malformed())
    );
    assert_eq!(
        list_videos_by_container(vec![(video_dto("x", "10"), vec![])]),
        Ok(vec![video(10, vec![])])
    );
}
