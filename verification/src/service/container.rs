//! Containers: the aggregates of the advertisements, images and videos that
//! belong together.

use vstd::prelude::*;
use vstd::std_specs::iter::IteratorSpec;

use crate::identifier::{decimal, push_identifier};
use crate::repository::advertisement::{advertisement_of, AdvertisementDto};
use crate::repository::image::{image_of, ImageDto};
use crate::service::advertisement::{
    list_advertisements_by_container,
    Advertisement,
    AdvertisementMap,
    AdvertisementView,
};
use crate::service::image::{list_images_by_container, Image, ImageMap, ImageView};
use crate::service::list_views;
use crate::service::video::{
    fetched_video_of,
    list_videos_by_container,
    FetchedVideo,
    Video,
    VideoMap,
    VideoView,
};
use crate::types::{views, Error};

verus! {

/* ***************************************** Container ****************************************** */

/// Container asset: an aggregation of advertisements, images and videos.
#[derive(Debug, PartialEq, Eq)]
pub struct Container {
    ads: Vec<Advertisement>,
    id: u32,
    images: Vec<Image>,
    title: String,
    videos: Vec<Video>,
}

/// Mathematical value of a [`Container`].
pub struct ContainerView {
    pub ads: Seq<AdvertisementView>,
    pub id: u32,
    pub images: Seq<ImageView>,
    pub title: Seq<char>,
    pub videos: Seq<VideoView>,
}

impl View for Container {
    type V = ContainerView;

    closed spec fn view(&self) -> ContainerView {
        ContainerView {
            ads: views(self.ads@),
            id: self.id,
            images: views(self.images@),
            title: self.title@,
            videos: views(self.videos@),
        }
    }
}

/// The title of a container: `container-`, its identifier, `_ads` if it has
/// advertisements, `_images` if it has images, and `_videos`.
pub open spec fn title_of(container_id: u32, has_ads: bool, has_images: bool) -> Seq<char> {
    "container-"@ + decimal(container_id as nat) + (if has_ads {
        "_ads"@
    } else {
        Seq::empty()
    }) + (if has_images {
        "_images"@
    } else {
        Seq::empty()
    }) + "_videos"@
}

/// The container that holds the given advertisements, images and videos
/// under the given identifier.
pub open spec fn assembled(
    container_id: u32,
    ads: Seq<AdvertisementView>,
    images: Seq<ImageView>,
    videos: Seq<VideoView>,
) -> ContainerView {
    ContainerView {
        ads,
        id: container_id,
        images,
        title: title_of(container_id, ads.len() > 0, images.len() > 0),
        videos,
    }
}

/// A copy of a list of values.
fn copy_list<T: Clone>(items: &[T]) -> (copy: Vec<T>)
    ensures
        copy.len() == items.len(),
        forall|i: int| 0 <= i < items.len() ==> cloned(#[trigger] items[i], copy[i]),
{
    let mut copy: Vec<T> = Vec::with_capacity(items.len());
    let mut i: usize = 0;
    while i < items.len()
        invariant
            i <= items.len(),
            copy.len() == i,
            forall|k: int| 0 <= k < i ==> cloned(#[trigger] items[k], copy[k]),
        decreases items.len() - i,
    {
        copy.push(items[i].clone());
        i += 1;
    }
    copy
}

impl Clone for Container {
    fn clone(&self) -> (copy: Self)
        ensures
            copy@ == self@,
    {
        let ads = copy_list(self.ads.as_slice());
        let images = copy_list(self.images.as_slice());
        let videos = copy_list(self.videos.as_slice());
        assert(views(ads@) =~= views(self.ads@));
        assert(views(images@) =~= views(self.images@));
        assert(views(videos@) =~= views(self.videos@));
        Container { ads, id: self.id, images, title: self.title.clone(), videos }
    }
}

impl Container {
    /// Construct a new Container.
    pub fn new(
        ads: Vec<Advertisement>,
        id: u32,
        images: Vec<Image>,
        title: String,
        videos: Vec<Video>,
    ) -> (container: Self)
        ensures
            container@ == (ContainerView {
                ads: views(ads@),
                id,
                images: views(images@),
                title: title@,
                videos: views(videos@),
            }),
    {
        Container { ads, id, images, title, videos }
    }

    /// Create a container from a list of advertisements, images, and videos.
    ///
    /// The title of the container follows from its identifier and from
    /// whether it has advertisements and images.
    pub fn from(
        container_id: u32,
        advertisements: &[Advertisement],
        images: &[Image],
        videos: &[Video],
    ) -> (container: Self)
        ensures
            container@ == assembled(
                container_id,
                views(advertisements@),
                views(images@),
                views(videos@),
            ),
    {
        let title = Container::title_for(container_id, advertisements.len() > 0, images.len() > 0);
        let ads = copy_list(advertisements);
        let images_copy = copy_list(images);
        let videos_copy = copy_list(videos);
        assert(views(ads@) =~= views(advertisements@));
        assert(views(images_copy@) =~= views(images@));
        assert(views(videos_copy@) =~= views(videos@));
        Container::new(ads, container_id, images_copy, title, videos_copy)
    }

    /// Create a container that takes over a list of advertisements, images,
    /// and videos.
    ///
    /// As [`Container::from`], without copying the lists.
    pub fn new_from_lists(
        container_id: u32,
        advertisements: Vec<Advertisement>,
        images: Vec<Image>,
        videos: Vec<Video>,
    ) -> (container: Self)
        ensures
            container@ == assembled(
                container_id,
                views(advertisements@),
                views(images@),
                views(videos@),
            ),
    {
        let title = Container::title_for(container_id, advertisements.len() > 0, images.len() > 0);
        Container::new(advertisements, container_id, images, title, videos)
    }

    /// The title of a container.
    pub fn title_for(container_id: u32, has_ads: bool, has_images: bool) -> (title: String)
        ensures
            title@ == title_of(container_id, has_ads, has_images),
    {
        let mut title = String::from_str("container-");
        push_identifier(&mut title, container_id);
        if has_ads {
            title.append("_ads");
        }
        if has_images {
            title.append("_images");
        }
        title.append("_videos");
        assert(title@ =~= title_of(container_id, has_ads, has_images));
        title
    }

    /// Get advertisements.
    pub fn ads(&self) -> (ads: &Vec<Advertisement>)
        ensures
            views(ads@) == self@.ads,
    {
        &self.ads
    }

    /// Get container ID.
    pub fn id(&self) -> (id: u32)
        ensures
            id == self@.id,
    {
        self.id
    }

    /// Get images.
    pub fn images(&self) -> (images: &Vec<Image>)
        ensures
            views(images@) == self@.images,
    {
        &self.images
    }

    /// Get title.
    pub fn title(&self) -> (title: &String)
        ensures
            title@ == self@.title,
    {
        &self.title
    }

    /// Get videos.
    pub fn videos(&self) -> (videos: &Vec<Video>)
        ensures
            views(videos@) == self@.videos,
    {
        &self.videos
    }
}

/* ***************************************** Assembly ******************************************* */

/// The list that a map holds under a key, or the empty list where it holds
/// none.
pub open spec fn bucket<V>(map: Map<u32, Seq<V>>, key: u32) -> Seq<V> {
    if map.contains_key(key) {
        map[key]
    } else {
        Seq::empty()
    }
}

/// The container with the given identifier in a catalog: the advertisements,
/// the images and the videos that the three maps hold under the identifier,
/// and none where a map holds no list under it.
pub open spec fn container_of(
    container_id: u32,
    advertisements: Map<u32, Seq<AdvertisementView>>,
    images: Map<u32, Seq<ImageView>>,
    videos: Map<u32, Seq<VideoView>>,
) -> ContainerView {
    assembled(
        container_id,
        bucket(advertisements, container_id),
        bucket(images, container_id),
        bucket(videos, container_id),
    )
}

/// Build a container from data maps.
///
/// Gets the advertisements of the container from `advertisements` and its
/// images from `images`, each empty where the map holds none for the
/// container, and combines them with a list of videos to make a container.
pub fn build_container(
    container_id: u32,
    advertisements: &AdvertisementMap,
    images: &ImageMap,
    videos: &[Video],
) -> (container: Container)
    ensures
        container@ == assembled(
            container_id,
            bucket(list_views(advertisements@), container_id),
            bucket(list_views(images@), container_id),
            views(videos@),
        ),
{
    let advertisements_default: Vec<Advertisement> = Vec::new();
    let images_default: Vec<Image> = Vec::new();
    let advertisements: &Vec<Advertisement> = match advertisements.get(&container_id) {
        Some(advertisements) => advertisements,
        None => &advertisements_default,
    };
    let images: &Vec<Image> = match images.get(&container_id) {
        Some(images) => images,
        None => &images_default,
    };
    assert(views(advertisements_default@) =~= Seq::empty());
    assert(views(images_default@) =~= Seq::empty());
    Container::from(container_id, advertisements.as_slice(), images.as_slice(), videos)
}

/// Build every container of a catalog.
///
/// There is one container for each identifier under which `videos` holds a
/// list, and no other: a container without videos does not exist. Each holds
/// the advertisements and images that the maps hold under its identifier. The
/// order of the containers is the order in which the map of videos hands out
/// its entries, which is not fixed.
pub fn list_containers(
    advertisements: &AdvertisementMap,
    images: &ImageMap,
    videos: &VideoMap,
) -> (containers: Vec<Container>)
    ensures
        containers.len() == videos@.dom().len(),
        forall|i: int|
            0 <= i < containers.len() ==> videos@.contains_key((#[trigger] containers[i])@.id)
                && containers[i]@ == container_of(
                containers[i]@.id,
                list_views(advertisements@),
                list_views(images@),
                list_views(videos@),
            ),
        forall|i: int, j: int|
            0 <= i < j < containers.len() ==> (#[trigger] containers[i])@.id != (
            #[trigger] containers[j])@.id,
        forall|container_id: u32| #[trigger]
            videos@.contains_key(container_id) ==> exists|i: int|
                0 <= i < containers.len() && (#[trigger] containers[i])@.id == container_id,
{
    let ghost entries = videos.iter().remaining();
    let mut containers: Vec<Container> = Vec::with_capacity(videos.len());
    for entry in iter: videos.iter()
        invariant
            iter.seq() == entries,
            entries == videos.iter().remaining(),
            containers.len() == iter.index(),
            forall|i: int|
                0 <= i < containers.len() ==> (#[trigger] containers[i])@.id == *entries[i].0
                    && containers[i]@ == container_of(
                    containers[i]@.id,
                    list_views(advertisements@),
                    list_views(images@),
                    list_views(videos@),
                ),
    {
        let ghost at = iter.index() as int;
        assert(entries[at] == entry);
        let (container_id, list) = entry;
        assert(videos@.contains_key(*entries[at].0) && videos@[*entries[at].0] == *entries[at].1);
        let container = build_container(*container_id, advertisements, images, list.as_slice());
        containers.push(container);
    }
    proof {
        assert(entries.len() == videos@.dom().len());
        assert forall|i: int| 0 <= i < containers.len() implies videos@.contains_key(
            (#[trigger] containers[i])@.id,
        ) by {
            assert(videos@.contains_key(*entries[i].0));
        }
        assert forall|i: int, j: int| 0 <= i < j < containers.len() implies (
        #[trigger] containers[i])@.id != (#[trigger] containers[j])@.id by {
            if *entries[i].0 == *entries[j].0 {
                assert(videos@[*entries[i].0] == *entries[i].1);
                assert(videos@[*entries[j].0] == *entries[j].1);
                assert(entries[i] == entries[j]);
            }
        }
        assert forall|container_id: u32| #[trigger]
            videos@.contains_key(container_id) implies exists|i: int|
            0 <= i < containers.len() && (#[trigger] containers[i])@.id == container_id by {
            assert(entries.contains((&container_id, &videos@[container_id])));
            let i = choose|i: int|
                0 <= i < entries.len() && entries[i] == (&container_id, &videos@[container_id]);
            assert(containers[i]@.id == container_id);
        }
    }
    containers
}

/// The container that the replies of the three services for one container
/// stand for. There is none where an identifier of an advertisement, an
/// image, a video or an asset is malformed.
pub open spec fn fetched_container_of(
    container_id: u32,
    advertisements: Seq<AdvertisementDto>,
    images: Seq<ImageDto>,
    videos: Seq<FetchedVideo>,
) -> Option<ContainerView> {
    if (forall|i: int|
        0 <= i < advertisements.len() ==> advertisement_of(#[trigger] advertisements[i]@) is Some)
        && (forall|i: int| 0 <= i < images.len() ==> image_of(#[trigger] images[i]@) is Some)
        && (forall|i: int| 0 <= i < videos.len() ==> fetched_video_of(#[trigger] videos[i]) is Some) {
        Some(
            assembled(
                container_id,
                Seq::new(advertisements.len(), |i: int| advertisement_of(advertisements[i]@).unwrap()),
                Seq::new(images.len(), |i: int| image_of(images[i]@).unwrap()),
                Seq::new(videos.len(), |i: int| fetched_video_of(videos[i]).unwrap()),
            ),
        )
    } else {
        None
    }
}

/// Assemble one container from what the three services sent for it: its
/// advertisements, its images, and its videos, each with the asset
/// references sent for it.
///
/// A list that is empty stays empty in the container. Fails with a permanent
/// error where an identifier is malformed: a container is assembled whole or
/// not at all.
pub fn get_container(
    container_id: u32,
    advertisements: Vec<AdvertisementDto>,
    images: Vec<ImageDto>,
    videos: Vec<FetchedVideo>,
) -> (container: Result<Container, Error>)
    ensures
        match container {
            Ok(container) => fetched_container_of(container_id, advertisements@, images@, videos@)
                == Some(container@),
            Err(error) => fetched_container_of(container_id, advertisements@, images@, videos@)
                is None && error@ == Error::malformed_identifier(),
        },
{
    let advertisement_list = match list_advertisements_by_container(advertisements) {
        Ok(list) => list,
        Err(error) => {
            return Err(error);
        },
    };
    let image_list = match list_images_by_container(images) {
        Ok(list) => list,
        Err(error) => {
            return Err(error);
        },
    };
    let video_list = match list_videos_by_container(videos) {
        Ok(list) => list,
        Err(error) => {
            return Err(error);
        },
    };
    proof {
        assert(views(advertisement_list@) =~= Seq::new(
            advertisements.len() as nat,
            |i: int| advertisement_of(advertisements[i]@).unwrap(),
        ));
        assert(views(image_list@) =~= Seq::new(
            images.len() as nat,
            |i: int| image_of(images[i]@).unwrap(),
        ));
        assert(views(video_list@) =~= Seq::new(
            videos.len() as nat,
            |i: int| fetched_video_of(videos[i]).unwrap(),
        ));
    }
    Ok(
        Container::new_from_lists(container_id, advertisement_list, image_list, video_list),
    )
}

/* ******************************************** Laws ******************************************** */

/// A container id that appears in the catalog of videos but not among the
/// advertisements or not among the images still has its container, with no
/// advertisements or no images.
pub proof fn lemma_missing_bucket_defaults(
    container_id: u32,
    advertisements: Map<u32, Seq<AdvertisementView>>,
    images: Map<u32, Seq<ImageView>>,
    videos: Map<u32, Seq<VideoView>>,
)
    requires
        videos.contains_key(container_id),
    ensures
        container_of(container_id, advertisements, images, videos).id == container_id,
        container_of(container_id, advertisements, images, videos).videos == videos[container_id],
        !advertisements.contains_key(container_id) ==> container_of(
            container_id,
            advertisements,
            images,
            videos,
        ).ads == Seq::<AdvertisementView>::empty(),
        !images.contains_key(container_id) ==> container_of(
            container_id,
            advertisements,
            images,
            videos,
        ).images == Seq::<ImageView>::empty(),
{
}

/// Where the services sent, with well-formed identifiers, at least one
/// advertisement, one image and one video for a container, and at least one
/// asset reference for each video, the assembled container has
/// advertisements, images and videos, and each of its videos has assets.
pub proof fn lemma_assembly_complete(
    container_id: u32,
    advertisements: Seq<AdvertisementDto>,
    images: Seq<ImageDto>,
    videos: Seq<FetchedVideo>,
)
    requires
        fetched_container_of(container_id, advertisements, images, videos) is Some,
        advertisements.len() >= 1,
        images.len() >= 1,
        videos.len() >= 1,
        forall|i: int| 0 <= i < videos.len() ==> (#[trigger] videos[i]).1.len() >= 1,
    ensures
        ({
            let container = fetched_container_of(
                container_id,
                advertisements,
                images,
                videos,
            ).unwrap();
            &&& container.id == container_id
            &&& container.ads.len() >= 1
            &&& container.images.len() >= 1
            &&& container.videos.len() >= 1
            &&& forall|i: int|
                0 <= i < container.videos.len() ==> (#[trigger] container.videos[i]).assets.len()
                    >= 1
        }),
{
    let container = fetched_container_of(container_id, advertisements, images, videos).unwrap();
    assert forall|i: int| 0 <= i < container.videos.len() implies (
    #[trigger] container.videos[i]).assets.len() >= 1 by {
        assert(videos[i].1.len() >= 1);
        assert(fetched_video_of(videos[i]) is Some);
    }
}

} // verus!
