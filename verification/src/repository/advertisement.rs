//! Requests to the advertisement service and the records that it sends.
//!
//! The advertisement service returns its list wrapped in an object. The only
//! data transformation at this layer is that an advertisement as received
//! becomes an advertisement of the domain.

use vstd::prelude::*;

use crate::identifier::{decimal, identifier_to_string, identifier_value, parse_identifier};
use crate::repository::client::{Request, RequestView};
use crate::service::advertisement::{Advertisement, AdvertisementView};
use crate::types::Error;

verus! {

/// Endpoint of the advertisement service.
pub const ADVERTISEMENT_ENDPOINT: &'static str =
    "http://ads.rocket-stream.bottlerocketservices.com/advertisements";

/// Container ID query parameter.
pub const CONTAINER_ID: &'static str = "containerId";

/* ************************************** AdvertisementDto ************************************** */

/// Advertisement data returned from the advertisement service.
#[derive(Debug, PartialEq, Eq)]
pub struct AdvertisementDto {
    /// Parent container e.g. show/series identifier.
    container_id: String,
    /// Unique advertisement identifier.
    id: String,
    /// Name of advertisement.
    name: String,
    /// Advertisement playback url.
    url: String,
}

/// Mathematical value of an [`AdvertisementDto`].
pub struct AdvertisementDtoView {
    pub container_id: Seq<char>,
    pub id: Seq<char>,
    pub name: Seq<char>,
    pub url: Seq<char>,
}

impl View for AdvertisementDto {
    type V = AdvertisementDtoView;

    closed spec fn view(&self) -> AdvertisementDtoView {
        AdvertisementDtoView {
            container_id: self.container_id@,
            id: self.id@,
            name: self.name@,
            url: self.url@,
        }
    }
}

impl AdvertisementDto {
    /// Construct an advertisement as the service sends it.
    pub fn new(container_id: String, id: String, name: String, url: String) -> (dto: Self)
        ensures
            dto@ == (AdvertisementDtoView {
                container_id: container_id@,
                id: id@,
                name: name@,
                url: url@,
            }),
    {
        AdvertisementDto { container_id, id, name, url }
    }

    /// Get container ID.
    pub fn container_id(&self) -> (container_id: &str)
        ensures
            container_id@ == self@.container_id,
    {
        self.container_id.as_str()
    }

    /// Get advertisement ID.
    pub fn id(&self) -> (id: &str)
        ensures
            id@ == self@.id,
    {
        self.id.as_str()
    }

    /// Get name.
    pub fn name(&self) -> (name: &str)
        ensures
            name@ == self@.name,
    {
        self.name.as_str()
    }

    /// Get playback url.
    pub fn url(&self) -> (url: &str)
        ensures
            url@ == self@.url,
    {
        self.url.as_str()
    }
}

/// The advertisement of the domain that an advertisement as received stands
/// for: its identifier read as a number, its name and its url. There is none
/// where the identifier is malformed.
pub open spec fn advertisement_of(dto: AdvertisementDtoView) -> Option<AdvertisementView> {
    match identifier_value(dto.id) {
        Some(id) => Some(AdvertisementView { id, name: dto.name, url: dto.url }),
        None => None,
    }
}

impl Advertisement {
    /// Get an [`Advertisement`] from an [`AdvertisementDto`].
    ///
    /// Fails with a permanent error where the identifier is malformed.
    pub fn from(advertisement_dto: AdvertisementDto) -> (converted: Result<Advertisement, Error>)
        ensures
            match converted {
                Ok(advertisement) => advertisement_of(advertisement_dto@) == Some(advertisement@),
                Err(error) => advertisement_of(advertisement_dto@) is None && error@
                    == Error::malformed_identifier(),
            },
    {
        match parse_identifier(advertisement_dto.id.as_str()) {
            Some(id) => Ok(Advertisement::new(id, advertisement_dto.name, advertisement_dto.url)),
            None => Err(Error::malformed()),
        }
    }
}

/* ************************************* AdvertisementsDto ************************************** */

/// Wrapped advertisement data returned from the advertisement service.
#[derive(Debug, PartialEq, Eq)]
pub struct AdvertisementsDto {
    /// List of advertisements.
    pub advertisements: Vec<AdvertisementDto>,
}

/* ***************************************** Requests ******************************************* */

/// The request that lists all advertisements.
pub fn list_advertisements() -> (request: Request)
    ensures
        request@ == (RequestView { endpoint: ADVERTISEMENT_ENDPOINT@, query: Seq::empty() }),
{
    Request::new(String::from_str(ADVERTISEMENT_ENDPOINT))
}

/// The request that lists the advertisements of a container.
pub fn list_advertisements_by_container(container_id: u32) -> (request: Request)
    ensures
        request@ == (RequestView {
            endpoint: ADVERTISEMENT_ENDPOINT@,
            query: seq![(CONTAINER_ID@, decimal(container_id as nat))],
        }),
{
    let request = Request::new(String::from_str(ADVERTISEMENT_ENDPOINT)).parameter(
        CONTAINER_ID,
        identifier_to_string(container_id),
    );
    assert(request@.query =~= seq![(CONTAINER_ID@, decimal(container_id as nat))]);
    request
}

} // verus!
