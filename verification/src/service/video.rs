//! Videos of the domain, and the references from a video to its assets.

use std::collections::HashMap;
use vstd::prelude::*;

use crate::identifier::{identifier_value, parse_identifier};
use crate::repository::client::{Request, RequestView};
use crate::repository::video::{
    asset_reference_of,
    asset_references_endpoint,
    video_builder_of,
    AssetReferenceDto,
    VideoDto,
    VideoDtoView,
};
use crate::service::{group, grouped, lemma_grouped_views, list_views, pair_views};
use crate::types::{option_view, views, AssetType, Error, VideoType};

verus! {

/* *************************************** AssetReference *************************************** */

/// A reference from a video to an advertisement or an image.
///
/// The reference names the asset by its identifier and its type. It does not
/// own the asset.
#[derive(Clone, Copy, Debug, PartialEq, Eq)]
pub struct AssetReference {
    /// Unique identifier for referenced asset.
    asset_id: u32,
    /// Type of asset.
    asset_type: AssetType,
}

/// Mathematical value of an [`AssetReference`].
pub struct AssetReferenceView {
    pub asset_id: u32,
    pub asset_type: AssetType,
}

impl View for AssetReference {
    type V = AssetReferenceView;

    closed spec fn view(&self) -> AssetReferenceView {
        AssetReferenceView { asset_id: self.asset_id, asset_type: self.asset_type }
    }
}

impl AssetReference {
    /// Construct a new AssetReference.
    pub fn new(asset_id: u32, asset_type: AssetType) -> (reference: Self)
        ensures
            reference@ == (AssetReferenceView { asset_id, asset_type }),
    {
        AssetReference { asset_id, asset_type }
    }

    /// Get the identifier of the referenced asset.
    pub fn asset_id(&self) -> (asset_id: u32)
        ensures
            asset_id == self@.asset_id,
    {
        self.asset_id
    }

    /// Get the type of the referenced asset.
    pub fn asset_type(&self) -> (asset_type: AssetType)
        ensures
            asset_type == self@.asset_type,
    {
        self.asset_type
    }
}

/* ******************************************* Video ******************************************** */

/// Video asset of a container.
///
/// The domain holds a video with its identifier as a number, without the
/// identifier of its container, and with the references to its assets.
#[derive(Debug, PartialEq, Eq)]
pub struct Video {
    /// Video assets.
    assets: Vec<AssetReference>,
    /// Brief description of the video.
    description: String,
    /// Expiration date for video in ISO-8601 format.
    expiration_date: String,
    /// Unique video identifier.
    id: u32,
    /// URL for video playback.
    playback_url: String,
    /// Video title.
    title: String,
    /// Type of video.
    video_type: VideoType,
}

/// Mathematical value of a [`Video`].
pub struct VideoView {
    pub assets: Seq<AssetReferenceView>,
    pub description: Seq<char>,
    pub expiration_date: Seq<char>,
    pub id: u32,
    pub playback_url: Seq<char>,
    pub title: Seq<char>,
    pub video_type: VideoType,
}

impl View for Video {
    type V = VideoView;

    closed spec fn view(&self) -> VideoView {
        VideoView {
            assets: views(self.assets@),
            description: self.description@,
            expiration_date: self.expiration_date@,
            id: self.id,
            playback_url: self.playback_url@,
            title: self.title@,
            video_type: self.video_type,
        }
    }
}

impl Clone for Video {
    fn clone(&self) -> (copy: Self)
        ensures
            copy@ == self@,
    {
        Video {
            assets: self.assets.clone(),
            description: self.description.clone(),
            expiration_date: self.expiration_date.clone(),
            id: self.id,
            playback_url: self.playback_url.clone(),
            title: self.title.clone(),
            video_type: self.video_type,
        }
    }
}

impl Video {
    /// Construct a new Video.
    pub fn new(
        assets: Vec<AssetReference>,
        description: String,
        expiration_date: String,
        id: u32,
        playback_url: String,
        title: String,
        video_type: VideoType,
    ) -> (video: Self)
        ensures
            video@ == (VideoView {
                assets: views(assets@),
                description: description@,
                expiration_date: expiration_date@,
                id,
                playback_url: playback_url@,
                title: title@,
                video_type,
            }),
    {
        Video { assets, description, expiration_date, id, playback_url, title, video_type }
    }

    /// Construct a new [`VideoBuilder`].
    ///
    /// Alias for [`VideoBuilder::new`].
    pub fn builder(id: u32) -> (builder: VideoBuilder)
        ensures
            builder@ == VideoBuilderView::empty(id),
    {
        VideoBuilder::new(id)
    }

    /// Get a [`VideoBuilder`] with values initialized from this [`Video`].
    pub fn to_builder(&self) -> (builder: VideoBuilder)
        ensures
            builder@ == VideoBuilderView::of(self@),
    {
        VideoBuilder::new(self.id).assets(self.assets.clone()).description(
            self.description.clone(),
        ).expiration_date(self.expiration_date.clone()).playback_url(
            self.playback_url.clone(),
        ).title(self.title.clone()).video_type(self.video_type)
    }

    /// Get the references to the assets of the video.
    pub fn assets(&self) -> (assets: &Vec<AssetReference>)
        ensures
            views(assets@) == self@.assets,
    {
        &self.assets
    }

    /// Get description.
    pub fn description(&self) -> (description: &str)
        ensures
            description@ == self@.description,
    {
        self.description.as_str()
    }

    /// Get expiration date.
    pub fn expiration_date(&self) -> (expiration_date: &str)
        ensures
            expiration_date@ == self@.expiration_date,
    {
        self.expiration_date.as_str()
    }

    /// Get video ID.
    pub fn id(&self) -> (id: u32)
        ensures
            id == self@.id,
    {
        self.id
    }

    /// Get playback URL.
    pub fn playback_url(&self) -> (playback_url: &str)
        ensures
            playback_url@ == self@.playback_url,
    {
        self.playback_url.as_str()
    }

    /// Get title.
    pub fn title(&self) -> (title: &str)
        ensures
            title@ == self@.title,
    {
        self.title.as_str()
    }

    /// Get type of video.
    pub fn video_type(&self) -> (video_type: VideoType)
        ensures
            video_type == self@.video_type,
    {
        self.video_type
    }
}

/* **************************************** VideoBuilder **************************************** */

/// Builder for [`Video`].
///
/// The identifier is required. The references to assets start empty, and the
/// other values start unset: all of them must be set before a video is built.
#[derive(Debug, PartialEq, Eq)]
pub struct VideoBuilder {
    /// See [`Video::assets`]. Initialized to an empty list.
    assets: Vec<AssetReference>,
    /// See [`Video::description`]. Initialized to `None`.
    description: Option<String>,
    /// See [`Video::expiration_date`]. Initialized to `None`.
    expiration_date: Option<String>,
    /// See [`Video::id`]. Required value.
    id: u32,
    /// See [`Video::playback_url`]. Initialized to `None`.
    playback_url: Option<String>,
    /// See [`Video::title`]. Initialized to `None`.
    title: Option<String>,
    /// See [`Video::video_type`]. Initialized to `None`.
    video_type: Option<VideoType>,
}

/// Mathematical value of a [`VideoBuilder`].
pub struct VideoBuilderView {
    pub assets: Seq<AssetReferenceView>,
    pub description: Option<Seq<char>>,
    pub expiration_date: Option<Seq<char>>,
    pub id: u32,
    pub playback_url: Option<Seq<char>>,
    pub title: Option<Seq<char>>,
    pub video_type: Option<VideoType>,
}

impl VideoBuilderView {
    /// The builder of a video with the given identifier and nothing else set.
    pub open spec fn empty(id: u32) -> VideoBuilderView {
        VideoBuilderView {
            assets: Seq::empty(),
            description: None,
            expiration_date: None,
            id,
            playback_url: None,
            title: None,
            video_type: None,
        }
    }

    /// The builder that holds every value of a video.
    pub open spec fn of(video: VideoView) -> VideoBuilderView {
        VideoBuilderView {
            assets: video.assets,
            description: Some(video.description),
            expiration_date: Some(video.expiration_date),
            id: video.id,
            playback_url: Some(video.playback_url),
            title: Some(video.title),
            video_type: Some(video.video_type),
        }
    }

    /// Whether every value that a video needs is set.
    pub open spec fn is_complete(self) -> bool {
        &&& self.description is Some
        &&& self.expiration_date is Some
        &&& self.playback_url is Some
        &&& self.title is Some
        &&& self.video_type is Some
    }

    /// The video that a complete builder holds.
    pub open spec fn video(self) -> VideoView
        recommends
            self.is_complete(),
    {
        VideoView {
            assets: self.assets,
            description: self.description->0,
            expiration_date: self.expiration_date->0,
            id: self.id,
            playback_url: self.playback_url->0,
            title: self.title->0,
            video_type: self.video_type->0,
        }
    }
}

impl View for VideoBuilder {
    type V = VideoBuilderView;

    closed spec fn view(&self) -> VideoBuilderView {
        VideoBuilderView {
            assets: views(self.assets@),
            description: option_view(self.description),
            expiration_date: option_view(self.expiration_date),
            id: self.id,
            playback_url: option_view(self.playback_url),
            title: option_view(self.title),
            video_type: self.video_type,
        }
    }
}

/// A copy of an optional string.
fn copy_text(text: &Option<String>) -> (copy: Option<String>)
    ensures
        option_view(copy) == option_view(*text),
{
    match text {
        Some(text) => Some(text.clone()),
        None => None,
    }
}

impl VideoBuilder {
    /// Construct a new VideoBuilder.
    pub fn new(id: u32) -> (builder: Self)
        ensures
            builder@ == VideoBuilderView::empty(id),
    {
        let builder = VideoBuilder {
            assets: Vec::new(),
            description: None,
            expiration_date: None,
            id,
            playback_url: None,
            title: None,
            video_type: None,
        };
        assert(builder@.assets =~= Seq::empty());
        builder
    }

    /// Whether every value that a video needs is set, so that a video can be
    /// built.
    pub fn is_complete(&self) -> (complete: bool)
        ensures
            complete == self@.is_complete(),
    {
        self.description.is_some() && self.expiration_date.is_some()
            && self.playback_url.is_some() && self.title.is_some() && self.video_type.is_some()
    }

    /// Build a [`Video`].
    ///
    /// Builds a [`Video`], transferring ownership of the builder's internal
    /// state to the returned [`Video`]. Every value must be set.
    pub fn build(self) -> (video: Video)
        requires
            self@.is_complete(),
        ensures
            video@ == self@.video(),
    {
        Video {
            assets: self.assets,
            description: self.description.unwrap(),
            expiration_date: self.expiration_date.unwrap(),
            id: self.id,
            playback_url: self.playback_url.unwrap(),
            title: self.title.unwrap(),
            video_type: self.video_type.unwrap(),
        }
    }

    /// Build a [`Video`].
    ///
    /// Builds a [`Video`], cloning the builder's internal state. Every value
    /// must be set.
    pub fn build_clone(&self) -> (video: Video)
        requires
            self@.is_complete(),
        ensures
            video@ == self@.video(),
    {
        Video {
            assets: self.assets.clone(),
            description: copy_text(&self.description).unwrap(),
            expiration_date: copy_text(&self.expiration_date).unwrap(),
            id: self.id,
            playback_url: copy_text(&self.playback_url).unwrap(),
            title: copy_text(&self.title).unwrap(),
            video_type: self.video_type.unwrap(),
        }
    }

    /// Build a [`Video`] where every value is set.
    ///
    /// Returns the video, or `None` where a value is missing.
    pub fn try_build(self) -> (video: Option<Video>)
        ensures
            match video {
                Some(video) => self@.is_complete() && video@ == self@.video(),
                None => !self@.is_complete(),
            },
    {
        if self.is_complete() {
            Some(self.build())
        } else {
            None
        }
    }

    /// Push an asset into the assets of the builder.
    ///
    /// Singular form of [`VideoBuilder::assets`].
    pub fn asset(self, asset: AssetReference) -> (builder: Self)
        ensures
            builder@ == (VideoBuilderView { assets: self@.assets.push(asset@), ..self@ }),
    {
        let mut builder = self;
        builder.assets.push(asset);
        assert(builder@.assets =~= self@.assets.push(asset@));
        builder
    }

    /// Set the assets of the builder.
    pub fn assets(self, assets: Vec<AssetReference>) -> (builder: Self)
        ensures
            builder@ == (VideoBuilderView { assets: views(assets@), ..self@ }),
    {
        let mut builder = self;
        builder.assets = assets;
        builder
    }

    /// Set the description of the builder.
    pub fn description(self, description: String) -> (builder: Self)
        ensures
            builder@ == (VideoBuilderView { description: Some(description@), ..self@ }),
    {
        let mut builder = self;
        builder.description = Some(description);
        builder
    }

    /// Set the expiration date of the builder.
    pub fn expiration_date(self, expiration_date: String) -> (builder: Self)
        ensures
            builder@ == (VideoBuilderView { expiration_date: Some(expiration_date@), ..self@ }),
    {
        let mut builder = self;
        builder.expiration_date = Some(expiration_date);
        builder
    }

    /// Set the playback URL of the builder.
    pub fn playback_url(self, playback_url: String) -> (builder: Self)
        ensures
            builder@ == (VideoBuilderView { playback_url: Some(playback_url@), ..self@ }),
    {
        let mut builder = self;
        builder.playback_url = Some(playback_url);
        builder
    }

    /// Set the title of the builder.
    pub fn title(self, title: String) -> (builder: Self)
        ensures
            builder@ == (VideoBuilderView { title: Some(title@), ..self@ }),
    {
        let mut builder = self;
        builder.title = Some(title);
        builder
    }

    /// Set the type of video of the builder.
    pub fn video_type(self, video_type: VideoType) -> (builder: Self)
        ensures
            builder@ == (VideoBuilderView { video_type: Some(video_type), ..self@ }),
    {
        let mut builder = self;
        builder.video_type = Some(video_type);
        builder
    }
}

/// Videos by the identifier of their container.
pub type VideoMap = HashMap<u32, Vec<Video>>;

/* ****************************************** Mapping ******************************************* */

/// A video as the video service sent it, with the asset references that the
/// service sent for it.
pub type FetchedVideo = (VideoDto, Vec<AssetReferenceDto>);

/// The asset references of the domain that a list of asset references as
/// received stands for. There is none where an identifier is malformed.
pub open spec fn asset_references_of(dtos: Seq<AssetReferenceDto>) -> Option<
    Seq<AssetReferenceView>,
> {
    if forall|i: int| 0 <= i < dtos.len() ==> asset_reference_of(#[trigger] dtos[i]@) is Some {
        Some(Seq::new(dtos.len(), |i: int| asset_reference_of(dtos[i]@).unwrap()))
    } else {
        None
    }
}

/// The video that a video as received stands for, with the given asset
/// references. There is none where the identifier of the video is malformed.
pub open spec fn video_of(dto: VideoDtoView, assets: Seq<AssetReferenceView>) -> Option<VideoView> {
    match video_builder_of(dto) {
        Some(builder) => Some((VideoBuilderView { assets, ..builder }).video()),
        None => None,
    }
}

/// The identifier of its container and the video that a video as received
/// stands for, with the given asset references. There is none where one of
/// its two identifiers is malformed.
pub open spec fn keyed_video_of(dto: VideoDtoView, assets: Seq<AssetReferenceView>) -> Option<
    (u32, VideoView),
> {
    match (identifier_value(dto.container_id), video_of(dto, assets)) {
        (Some(container_id), Some(video)) => Some((container_id, video)),
        _ => None,
    }
}

/// The video that a video as received and its asset references as received
/// stand for. There is none where an identifier of the video or of an asset
/// is malformed.
pub open spec fn fetched_video_of(fetched: FetchedVideo) -> Option<VideoView> {
    match asset_references_of(fetched.1@) {
        Some(assets) => video_of(fetched.0@, assets),
        None => None,
    }
}

/// The identifier of its container and the video that a video as received
/// and its asset references as received stand for. There is none where an
/// identifier is malformed.
pub open spec fn keyed_fetched_video_of(fetched: FetchedVideo) -> Option<(u32, VideoView)> {
    match asset_references_of(fetched.1@) {
        Some(assets) => keyed_video_of(fetched.0@, assets),
        None => None,
    }
}

/// The videos that a list of videos as received stands for, each with the
/// identifier of its container.
pub open spec fn keyed_videos(fetched: Seq<FetchedVideo>) -> Seq<(u32, VideoView)> {
    Seq::new(fetched.len(), |i: int| keyed_fetched_video_of(fetched[i]).unwrap())
}

/// The request that lists the asset references of a video as received.
///
/// Fails with a permanent error where the identifier of the video is
/// malformed.
pub fn asset_references_request(video_dto: &VideoDto) -> (request: Result<Request, Error>)
    ensures
        match request {
            Ok(request) => {
                &&& identifier_value(video_dto@.id) is Some
                &&& request@ == (RequestView {
                    endpoint: asset_references_endpoint(identifier_value(video_dto@.id).unwrap()),
                    query: Seq::empty(),
                })
            },
            Err(error) => identifier_value(video_dto@.id) is None && error@
                == Error::malformed_identifier(),
        },
{
    match parse_identifier(video_dto.id()) {
        Some(video_id) => Ok(crate::repository::video::list_asset_references(video_id)),
        None => Err(Error::malformed()),
    }
}

/// Turn the asset references that the video service sent for a video into
/// asset references of the domain, in their order.
///
/// Fails with a permanent error where an identifier is malformed.
pub fn list_asset_references(dtos: Vec<AssetReferenceDto>) -> (listed: Result<
    Vec<AssetReference>,
    Error,
>)
    ensures
        match listed {
            Ok(list) => asset_references_of(dtos@) == Some(views(list@)),
            Err(error) => asset_references_of(dtos@) is None && error@
                == Error::malformed_identifier(),
        },
{
    let ghost all = dtos@;
    let mut list: Vec<AssetReference> = Vec::with_capacity(dtos.len());
    for dto in iter: dtos
        invariant
            iter.seq() == all,
            list.len() == iter.index(),
            forall|i: int|
                0 <= i < iter.index() ==> asset_reference_of(#[trigger] all[i]@) == Some(
                    list[i]@,
                ),
    {
        assert(all[iter.index() as int] == dto);
        match AssetReference::from(dto) {
            Ok(reference) => list.push(reference),
            Err(error) => {
                return Err(error);
            },
        }
    }
    assert(views(list@) =~= asset_references_of(all).unwrap());
    Ok(list)
}

/// Turn a video as received into a video of the domain that holds the given
/// asset references.
///
/// Fails with a permanent error where the identifier of the video is
/// malformed.
pub fn map_video_dto_to_video(video_dto: VideoDto, assets: Vec<AssetReference>) -> (mapped: Result<
    Video,
    Error,
>)
    ensures
        match mapped {
            Ok(video) => video_of(video_dto@, views(assets@)) == Some(video@),
            Err(error) => video_of(video_dto@, views(assets@)) is None && error@
                == Error::malformed_identifier(),
        },
{
    match VideoBuilder::from(video_dto) {
        Ok(builder) => Ok(builder.assets(assets).build()),
        Err(error) => Err(error),
    }
}

/// Turn a video as received into the identifier of its container and a
/// video of the domain that holds the given asset references.
///
/// Fails with a permanent error where an identifier of the video is
/// malformed.
pub fn map_video_dto_to_tuple(video_dto: VideoDto, assets: Vec<AssetReference>) -> (mapped: Result<
    (u32, Video),
    Error,
>)
    ensures
        match mapped {
            Ok(keyed) => keyed_video_of(video_dto@, views(assets@)) == Some((keyed.0, keyed.1@)),
            Err(error) => keyed_video_of(video_dto@, views(assets@)) is None && error@
                == Error::malformed_identifier(),
        },
{
    let container_id = match parse_identifier(video_dto.container_id()) {
        Some(container_id) => container_id,
        None => {
            return Err(Error::malformed());
        },
    };
    match map_video_dto_to_video(video_dto, assets) {
        Ok(video) => Ok((container_id, video)),
        Err(error) => Err(error),
    }
}

/// Turn a video as received, and the asset references as received for it,
/// into a video of the domain.
///
/// Fails with a permanent error where an identifier is malformed.
pub fn get_video(video_dto: VideoDto, assets: Vec<AssetReferenceDto>) -> (video: Result<
    Video,
    Error,
>)
    ensures
        match video {
            Ok(video) => fetched_video_of((video_dto, assets)) == Some(video@),
            Err(error) => fetched_video_of((video_dto, assets)) is None && error@
                == Error::malformed_identifier(),
        },
{
    match list_asset_references(assets) {
        Ok(assets) => map_video_dto_to_video(video_dto, assets),
        Err(error) => Err(error),
    }
}

/// Turn the videos that the service sent, each with the asset references
/// sent for it, into videos of the domain, with the identifier of the
/// container of each.
///
/// Fails with a permanent error where an identifier is malformed.
pub fn keyed_list(fetched: Vec<FetchedVideo>) -> (listed: Result<Vec<(u32, Video)>, Error>)
    ensures
        match listed {
            Ok(list) => {
                &&& forall|i: int|
                    0 <= i < fetched.len() ==> keyed_fetched_video_of(
                        #[trigger] fetched[i],
                    ) is Some
                &&& pair_views(list@) == keyed_videos(fetched@)
            },
            Err(error) => {
                &&& exists|i: int|
                    0 <= i < fetched.len() && keyed_fetched_video_of(#[trigger] fetched[i]) is None
                &&& error@ == Error::malformed_identifier()
            },
        },
{
    let ghost all = fetched@;
    let mut list: Vec<(u32, Video)> = Vec::with_capacity(fetched.len());
    for pair in iter: fetched
        invariant
            iter.seq() == all,
            list.len() == iter.index(),
            forall|i: int|
                0 <= i < iter.index() ==> keyed_fetched_video_of(#[trigger] all[i]) is Some,
            pair_views(list@) == keyed_videos(all.take(iter.index() as int)),
    {
        let ghost at = iter.index() as int;
        let ghost before = list@;
        assert(all[at] == pair);
        let (video_dto, asset_dtos) = pair;
        let assets = match list_asset_references(asset_dtos) {
            Ok(assets) => assets,
            Err(error) => {
                return Err(error);
            },
        };
        let keyed = match map_video_dto_to_tuple(video_dto, assets) {
            Ok(keyed) => keyed,
            Err(error) => {
                return Err(error);
            },
        };
        list.push(keyed);
        proof {
            let now = keyed_videos(all.take(at + 1));
            assert(at < all.len());
            assert(now.len() == at + 1);
            assert(keyed_fetched_video_of(all[at]) == Some((keyed.0, keyed.1@)));
            assert forall|i: int| 0 <= i < now.len() implies pair_views(list@)[i] == now[i] by {
                if i < at {
                    assert(list@[i] == before[i]);
                    assert(pair_views(before)[i] == keyed_videos(all.take(at))[i]);
                } else {
                    assert(list@[i] == keyed);
                }
            }
            assert(pair_views(list@) =~= now);
        }
    }
    assert(all.take(all.len() as int) == all);
    Ok(list)
}

/// Turn the videos that the service sent, each with the asset references
/// sent for it, into videos of the domain, grouped by container.
///
/// Fails with a permanent error where an identifier is malformed.
pub fn list_videos(fetched: Vec<FetchedVideo>) -> (listed: Result<VideoMap, Error>)
    ensures
        match listed {
            Ok(map) => {
                &&& forall|i: int|
                    0 <= i < fetched.len() ==> keyed_fetched_video_of(
                        #[trigger] fetched[i],
                    ) is Some
                &&& list_views(map@) == grouped(keyed_videos(fetched@))
            },
            Err(error) => {
                &&& exists|i: int|
                    0 <= i < fetched.len() && keyed_fetched_video_of(#[trigger] fetched[i]) is None
                &&& error@ == Error::malformed_identifier()
            },
        },
{
    match keyed_list(fetched) {
        Ok(list) => {
            let map = group(list);
            proof {
                lemma_grouped_views(list@, map@);
            }
            Ok(map)
        },
        Err(error) => Err(error),
    }
}

/// Turn the videos that the service sent for one container, each with the
/// asset references sent for it, into videos of the domain, in their order.
///
/// Fails with a permanent error where an identifier of a video or of an
/// asset is malformed.
pub fn list_videos_by_container(fetched: Vec<FetchedVideo>) -> (listed: Result<Vec<Video>, Error>)
    ensures
        match listed {
            Ok(list) => {
                &&& list.len() == fetched.len()
                &&& forall|i: int|
                    0 <= i < fetched.len() ==> fetched_video_of(#[trigger] fetched[i]) == Some(
                        list[i]@,
                    )
            },
            Err(error) => {
                &&& exists|i: int|
                    0 <= i < fetched.len() && fetched_video_of(#[trigger] fetched[i]) is None
                &&& error@ == Error::malformed_identifier()
            },
        },
{
    let ghost all = fetched@;
    let mut list: Vec<Video> = Vec::with_capacity(fetched.len());
    for pair in iter: fetched
        invariant
            iter.seq() == all,
            list.len() == iter.index(),
            forall|i: int|
                0 <= i < iter.index() ==> fetched_video_of(#[trigger] all[i]) == Some(list[i]@),
    {
        assert(all[iter.index() as int] == pair);
        let (video_dto, asset_dtos) = pair;
        match get_video(video_dto, asset_dtos) {
            Ok(video) => list.push(video),
            Err(error) => {
                return Err(error);
            },
        }
    }
    Ok(list)
}

} // verus!
