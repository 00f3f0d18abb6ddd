//! Requests to the image service and the records that it sends.
//!
//! The image service returns its list wrapped in an object. The only
//! data transformation at this layer is that an image as received
//! becomes an image of the domain.

use vstd::prelude::*;

use crate::identifier::{decimal, identifier_to_string, identifier_value, parse_identifier};
use crate::repository::client::{Request, RequestView};
use crate::service::image::{Image, ImageView};
use crate::types::Error;

verus! {

/// Endpoint of the image service.
pub const IMAGE_ENDPOINT: &'static str =
    "http://images.rocket-stream.bottlerocketservices.com/images";

/// Container ID query parameter.
pub const CONTAINER_ID: &'static str = "containerId";

/* ************************************** ImageDto ************************************** */

/// Image data returned from the image service.
#[derive(Debug, PartialEq, Eq)]
pub struct ImageDto {
    /// Parent container e.g. show/series identifier.
    container_id: String,
    /// Unique image identifier.
    id: String,
    /// Name of image.
    name: String,
    /// Image URL.
    url: String,
}

/// Mathematical value of an [`ImageDto`].
pub struct ImageDtoView {
    pub container_id: Seq<char>,
    pub id: Seq<char>,
    pub name: Seq<char>,
    pub url: Seq<char>,
}

impl View for ImageDto {
    type V = ImageDtoView;

    closed spec fn view(&self) -> ImageDtoView {
        ImageDtoView {
            container_id: self.container_id@,
            id: self.id@,
            name: self.name@,
            url: self.url@,
        }
    }
}

impl ImageDto {
    /// Construct an image as the service sends it.
    pub fn new(container_id: String, id: String, name: String, url: String) -> (dto: Self)
        ensures
            dto@ == (ImageDtoView {
                container_id: container_id@,
                id: id@,
                name: name@,
                url: url@,
            }),
    {
        ImageDto { container_id, id, name, url }
    }

    /// Get container ID.
    pub fn container_id(&self) -> (container_id: &str)
        ensures
            container_id@ == self@.container_id,
    {
        self.container_id.as_str()
    }

    /// Get image ID.
    pub fn id(&self) -> (id: &str)
        ensures
            id@ == self@.id,
    {
        self.id.as_str()
    }

    /// Get name.
    pub fn name(&self) -> (name: &str)
        ensures
            name@ == self@.name,
    {
        self.name.as_str()
    }

    /// Get URL.
    pub fn url(&self) -> (url: &str)
        ensures
            url@ == self@.url,
    {
        self.url.as_str()
    }
}

/// The image of the domain that an image as received stands
/// for: its identifier read as a number, its name and its url. There is none
/// where the identifier is malformed.
pub open spec fn image_of(dto: ImageDtoView) -> Option<ImageView> {
    match identifier_value(dto.id) {
        Some(id) => Some(ImageView { id, name: dto.name, url: dto.url }),
        None => None,
    }
}

impl Image {
    /// Get an [`Image`] from an [`ImageDto`].
    ///
    /// Fails with a permanent error where the identifier is malformed.
    pub fn from(image_dto: ImageDto) -> (converted: Result<Image, Error>)
        ensures
            match converted {
                Ok(image) => image_of(image_dto@) == Some(image@),
                Err(error) => image_of(image_dto@) is None && error@
                    == Error::malformed_identifier(),
            },
    {
        match parse_identifier(image_dto.id.as_str()) {
            Some(id) => Ok(Image::new(id, image_dto.name, image_dto.url)),
            None => Err(Error::malformed()),
        }
    }
}

/* ************************************* ImagesDto ************************************** */

/// Wrapped image data returned from the image service.
#[derive(Debug, PartialEq, Eq)]
pub struct ImagesDto {
    /// List of images.
    pub images: Vec<ImageDto>,
}

/* ***************************************** Requests ******************************************* */

/// The request that lists all images.
pub fn list_images() -> (request: Request)
    ensures
        request@ == (RequestView { endpoint: IMAGE_ENDPOINT@, query: Seq::empty() }),
{
    Request::new(String::from_str(IMAGE_ENDPOINT))
}

/// The request that lists the images of a container.
pub fn list_images_by_container(container_id: u32) -> (request: Request)
    ensures
        request@ == (RequestView {
            endpoint: IMAGE_ENDPOINT@,
            query: seq![(CONTAINER_ID@, decimal(container_id as nat))],
        }),
{
    let request = Request::new(String::from_str(IMAGE_ENDPOINT)).parameter(
        CONTAINER_ID,
        identifier_to_string(container_id),
    );
    assert(request@.query =~= seq![(CONTAINER_ID@, decimal(container_id as nat))]);
    request
}

} // verus!
