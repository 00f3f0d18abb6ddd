//! Requests to the video service and the records that it sends.

use vstd::prelude::*;

use crate::identifier::{
    decimal,
    identifier_to_string,
    identifier_value,
    parse_identifier,
    push_identifier,
};
use crate::repository::client::{Request, RequestView};
use crate::service::video::{
    AssetReference,
    AssetReferenceView,
    Video,
    VideoBuilder,
    VideoBuilderView,
};
use crate::types::{AssetType, Error, VideoType};

verus! {

/// Asset reference endpoint suffix.
pub const ASSET_REFERENCES: &'static str = "asset-references";

/// Asset type query parameter.
pub const ASSET_TYPE: &'static str = "assetType";

/// Container ID query parameter.
pub const CONTAINER_ID: &'static str = "containerId";

/// Endpoint of the video service.
pub const VIDEO_ENDPOINT: &'static str =
    "http://videos.rocket-stream.bottlerocketservices.com/videos";

/// Video type query parameter.
pub const VIDEO_TYPE: &'static str = "type";

/* ************************************* AssetReferenceDto ************************************** */

/// A reference to an asset of a video, as the video service sends it.
#[derive(Debug, PartialEq, Eq)]
pub struct AssetReferenceDto {
    /// Unique identifier for referenced asset.
    asset_id: String,
    /// Type of asset.
    asset_type: AssetType,
    /// Unique identifier for referenced video.
    video_id: String,
}

/// Mathematical value of an [`AssetReferenceDto`].
pub struct AssetReferenceDtoView {
    pub asset_id: Seq<char>,
    pub asset_type: AssetType,
    pub video_id: Seq<char>,
}

impl View for AssetReferenceDto {
    type V = AssetReferenceDtoView;

    closed spec fn view(&self) -> AssetReferenceDtoView {
        AssetReferenceDtoView {
            asset_id: self.asset_id@,
            asset_type: self.asset_type,
            video_id: self.video_id@,
        }
    }
}

impl AssetReferenceDto {
    /// Construct a new AssetReference.
    pub fn new(asset_id: String, asset_type: AssetType, video_id: String) -> (dto: Self)
        ensures
            dto@ == (AssetReferenceDtoView {
                asset_id: asset_id@,
                asset_type,
                video_id: video_id@,
            }),
    {
        AssetReferenceDto { asset_id, asset_type, video_id }
    }

    /// Get the identifier of the referenced asset.
    pub fn asset_id(&self) -> (asset_id: &str)
        ensures
            asset_id@ == self@.asset_id,
    {
        self.asset_id.as_str()
    }

    /// Get the type of the referenced asset.
    pub fn asset_type(&self) -> (asset_type: AssetType)
        ensures
            asset_type == self@.asset_type,
    {
        self.asset_type
    }

    /// Get the identifier of the video that refers to the asset.
    pub fn video_id(&self) -> (video_id: &str)
        ensures
            video_id@ == self@.video_id,
    {
        self.video_id.as_str()
    }
}

/// The asset reference of the domain that an asset reference as received
/// stands for: the identifier of the asset read as a number, and its type.
/// There is none where the identifier is malformed.
pub open spec fn asset_reference_of(dto: AssetReferenceDtoView) -> Option<AssetReferenceView> {
    match identifier_value(dto.asset_id) {
        Some(asset_id) => Some(AssetReferenceView { asset_id, asset_type: dto.asset_type }),
        None => None,
    }
}

impl AssetReference {
    /// Get an [`AssetReference`] from an [`AssetReferenceDto`].
    ///
    /// Fails with a permanent error where the identifier of the asset is
    /// malformed.
    pub fn from(asset_reference_dto: AssetReferenceDto) -> (converted: Result<
        AssetReference,
        Error,
    >)
        ensures
            match converted {
                Ok(reference) => asset_reference_of(asset_reference_dto@) == Some(reference@),
                Err(error) => asset_reference_of(asset_reference_dto@) is None && error@
                    == Error::malformed_identifier(),
            },
    {
        match parse_identifier(asset_reference_dto.asset_id.as_str()) {
            Some(asset_id) => Ok(AssetReference::new(asset_id, asset_reference_dto.asset_type)),
            None => Err(Error::malformed()),
        }
    }
}

/* ***************************************** VideoDto ******************************************* */

/// Video data returned from the video service.
#[derive(Debug, PartialEq, Eq)]
pub struct VideoDto {
    /// Parent container e.g. show/series identifier.
    container_id: String,
    /// Brief description of the video.
    description: String,
    /// Expiration date for video in ISO-8601 format.
    expiration_date: String,
    /// Unique video identifier.
    id: String,
    /// URL for video playback.
    playback_url: String,
    /// Video title.
    title: String,
    /// Type of video.
    video_type: VideoType,
}

/// Mathematical value of a [`VideoDto`].
pub struct VideoDtoView {
    pub container_id: Seq<char>,
    pub description: Seq<char>,
    pub expiration_date: Seq<char>,
    pub id: Seq<char>,
    pub playback_url: Seq<char>,
    pub title: Seq<char>,
    pub video_type: VideoType,
}

impl View for VideoDto {
    type V = VideoDtoView;

    closed spec fn view(&self) -> VideoDtoView {
        VideoDtoView {
            container_id: self.container_id@,
            description: self.description@,
            expiration_date: self.expiration_date@,
            id: self.id@,
            playback_url: self.playback_url@,
            title: self.title@,
            video_type: self.video_type,
        }
    }
}

impl VideoDto {
    /// Construct a new Video.
    pub fn new(
        container_id: String,
        description: String,
        expiration_date: String,
        id: String,
        playback_url: String,
        title: String,
        video_type: VideoType,
    ) -> (dto: Self)
        ensures
            dto@ == (VideoDtoView {
                container_id: container_id@,
                description: description@,
                expiration_date: expiration_date@,
                id: id@,
                playback_url: playback_url@,
                title: title@,
                video_type,
            }),
    {
        VideoDto { container_id, description, expiration_date, id, playback_url, title, video_type }
    }

    /// Get container ID.
    pub fn container_id(&self) -> (container_id: &str)
        ensures
            container_id@ == self@.container_id,
    {
        self.container_id.as_str()
    }

    /// Get description.
    pub fn description(&self) -> (description: &str)
        ensures
            description@ == self@.description,
    {
        self.description.as_str()
    }

    /// Get expiration date.
    pub fn expiration_date(&self) -> (expiration_date: &str)
        ensures
            expiration_date@ == self@.expiration_date,
    {
        self.expiration_date.as_str()
    }

    /// Get Video ID.
    pub fn id(&self) -> (id: &str)
        ensures
            id@ == self@.id,
    {
        self.id.as_str()
    }

    /// Get playback URL.
    pub fn playback_url(&self) -> (playback_url: &str)
        ensures
            playback_url@ == self@.playback_url,
    {
        self.playback_url.as_str()
    }

    /// Get title.
    pub fn title(&self) -> (title: &str)
        ensures
            title@ == self@.title,
    {
        self.title.as_str()
    }

    /// Get type of video.
    pub fn video_type(&self) -> (video_type: VideoType)
        ensures
            video_type == self@.video_type,
    {
        self.video_type
    }
}

/// The builder that a video as received stands for: its identifier read as a
/// number and every value of the video but its assets. There is none where
/// the identifier is malformed.
pub open spec fn video_builder_of(dto: VideoDtoView) -> Option<VideoBuilderView> {
    match identifier_value(dto.id) {
        Some(id) => Some(
            VideoBuilderView {
                assets: Seq::empty(),
                description: Some(dto.description),
                expiration_date: Some(dto.expiration_date),
                id,
                playback_url: Some(dto.playback_url),
                title: Some(dto.title),
                video_type: Some(dto.video_type),
            },
        ),
        None => None,
    }
}

impl VideoBuilder {
    /// Get a [`VideoBuilder`] from a [`VideoDto`].
    ///
    /// Fails with a permanent error where the identifier of the video is
    /// malformed.
    pub fn from(video_dto: VideoDto) -> (converted: Result<VideoBuilder, Error>)
        ensures
            match converted {
                Ok(builder) => video_builder_of(video_dto@) == Some(builder@),
                Err(error) => video_builder_of(video_dto@) is None && error@
                    == Error::malformed_identifier(),
            },
    {
        match parse_identifier(video_dto.id.as_str()) {
            Some(id) => Ok(
                Video::builder(id).description(video_dto.description).expiration_date(
                    video_dto.expiration_date,
                ).playback_url(video_dto.playback_url).title(video_dto.title).video_type(
                    video_dto.video_type,
                ),
            ),
            None => Err(Error::malformed()),
        }
    }
}

/* *************************************** Wrapped lists **************************************** */

/// Wrapped asset references returned from the video service.
#[derive(Debug, PartialEq, Eq)]
pub struct VideoAssetsDto {
    /// List of video asset references.
    pub video_assets: Vec<AssetReferenceDto>,
}

/// Wrapped video data returned from the video service.
#[derive(Debug, PartialEq, Eq)]
pub struct VideosDto {
    /// List of videos.
    pub videos: Vec<VideoDto>,
}

/* ***************************************** Requests ******************************************* */

/// The endpoint of one video.
pub open spec fn video_endpoint(video_id: u32) -> Seq<char> {
    VIDEO_ENDPOINT@ + "/"@ + decimal(video_id as nat)
}

/// The endpoint of the asset references of one video.
pub open spec fn asset_references_endpoint(video_id: u32) -> Seq<char> {
    video_endpoint(video_id) + "/"@ + ASSET_REFERENCES@
}

/// The endpoint of one video, as text.
fn video_endpoint_text(video_id: u32) -> (endpoint: String)
    ensures
        endpoint@ == video_endpoint(video_id),
{
    let mut endpoint = String::from_str(VIDEO_ENDPOINT);
    endpoint.append("/");
    push_identifier(&mut endpoint, video_id);
    endpoint
}

/// The endpoint of the asset references of one video, as text.
fn asset_references_endpoint_text(video_id: u32) -> (endpoint: String)
    ensures
        endpoint@ == asset_references_endpoint(video_id),
{
    let mut endpoint = video_endpoint_text(video_id);
    endpoint.append("/");
    endpoint.append(ASSET_REFERENCES);
    endpoint
}

/// The request that gets a video by ID.
pub fn get_video(video_id: u32) -> (request: Request)
    ensures
        request@ == (RequestView { endpoint: video_endpoint(video_id), query: Seq::empty() }),
{
    Request::new(video_endpoint_text(video_id))
}

/// The request that lists all asset references of a video.
pub fn list_asset_references(video_id: u32) -> (request: Request)
    ensures
        request@ == (RequestView {
            endpoint: asset_references_endpoint(video_id),
            query: Seq::empty(),
        }),
{
    Request::new(asset_references_endpoint_text(video_id))
}

/// The request that lists the asset references of a video that have a given
/// type.
pub fn list_asset_references_by_type(video_id: u32, asset_type: AssetType) -> (request: Request)
    ensures
        request@ == (RequestView {
            endpoint: asset_references_endpoint(video_id),
            query: seq![(ASSET_TYPE@, asset_type.wire_name())],
        }),
{
    let request = Request::new(asset_references_endpoint_text(video_id)).parameter(
        ASSET_TYPE,
        asset_type.to_string(),
    );
    assert(request@.query =~= seq![(ASSET_TYPE@, asset_type.wire_name())]);
    request
}

/// The request that lists all videos.
pub fn list_videos() -> (request: Request)
    ensures
        request@ == (RequestView { endpoint: VIDEO_ENDPOINT@, query: Seq::empty() }),
{
    Request::new(String::from_str(VIDEO_ENDPOINT))
}

/// The request that lists the videos of a container.
pub fn list_videos_by_container(container_id: u32) -> (request: Request)
    ensures
        request@ == (RequestView {
            endpoint: VIDEO_ENDPOINT@,
            query: seq![(CONTAINER_ID@, decimal(container_id as nat))],
        }),
{
    let request = Request::new(String::from_str(VIDEO_ENDPOINT)).parameter(
        CONTAINER_ID,
        identifier_to_string(container_id),
    );
    assert(request@.query =~= seq![(CONTAINER_ID@, decimal(container_id as nat))]);
    request
}

/// The request that lists the videos of a given type.
pub fn list_videos_by_type(video_type: VideoType) -> (request: Request)
    ensures
        request@ == (RequestView {
            endpoint: VIDEO_ENDPOINT@,
            query: seq![(VIDEO_TYPE@, video_type.wire_name())],
        }),
{
    let request = Request::new(String::from_str(VIDEO_ENDPOINT)).parameter(
        VIDEO_TYPE,
        video_type.to_string(),
    );
    assert(request@.query =~= seq![(VIDEO_TYPE@, video_type.wire_name())]);
    request
}

/// The request that lists the videos of a container that have a given type.
pub fn list_videos_by_container_and_type(container_id: u32, video_type: VideoType) -> (request:
    Request)
    ensures
        request@ == (RequestView {
            endpoint: VIDEO_ENDPOINT@,
            query: seq![
                (CONTAINER_ID@, decimal(container_id as nat)),
                (VIDEO_TYPE@, video_type.wire_name()),
            ],
        }),
{
    let request = Request::new(String::from_str(VIDEO_ENDPOINT)).parameter(
        CONTAINER_ID,
        identifier_to_string(container_id),
    ).parameter(VIDEO_TYPE, video_type.to_string());
    assert(request@.query =~= seq![
        (CONTAINER_ID@, decimal(container_id as nat)),
        (VIDEO_TYPE@, video_type.wire_name()),
    ]);
    request
}

} // verus!
