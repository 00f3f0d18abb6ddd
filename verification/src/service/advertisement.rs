//! Advertisements of the domain.

use std::collections::HashMap;
use vstd::prelude::*;

use crate::identifier::{identifier_value, parse_identifier};
use crate::repository::advertisement::{advertisement_of, AdvertisementDto, AdvertisementDtoView};
use crate::service::{group, grouped, lemma_grouped_views, list_views, pair_views};
use crate::types::Error;

verus! {

/// Advertisement asset of a container.
///
/// The domain holds an advertisement with its identifier as a number and
/// without the identifier of its container, which is the key under which it
/// is grouped.
#[derive(Debug, PartialEq, Eq)]
pub struct Advertisement {
    /// Unique advertisement identifier.
    id: u32,
    /// Name of advertisement.
    name: String,
    /// Advertisement playback url.
    url: String,
}

/// Mathematical value of an [`Advertisement`].
pub struct AdvertisementView {
    pub id: u32,
    pub name: Seq<char>,
    pub url: Seq<char>,
}

impl View for Advertisement {
    type V = AdvertisementView;

    closed spec fn view(&self) -> AdvertisementView {
        AdvertisementView { id: self.id, name: self.name@, url: self.url@ }
    }
}

impl Clone for Advertisement {
    fn clone(&self) -> (copy: Self)
        ensures
            copy@ == self@,
    {
        Advertisement { id: self.id, name: self.name.clone(), url: self.url.clone() }
    }
}

impl Advertisement {
    /// Construct a new Advertisement.
    pub fn new(id: u32, name: String, url: String) -> (advertisement: Self)
        ensures
            advertisement@ == (AdvertisementView { id, name: name@, url: url@ }),
    {
        Advertisement { id, name, url }
    }

    /// Get advertisement ID.
    pub fn id(&self) -> (id: u32)
        ensures
            id == self@.id,
    {
        self.id
    }

    /// Get name.
    pub fn name(&self) -> (name: &str)
        ensures
            name@ == self@.name,
    {
        self.name.as_str()
    }

    /// Get playback url.
    pub fn url(&self) -> (url: &str)
        ensures
            url@ == self@.url,
    {
        self.url.as_str()
    }
}

/// Advertisements by the identifier of their container.
pub type AdvertisementMap = HashMap<u32, Vec<Advertisement>>;

/// The identifier of its container and the advertisement of the domain that
/// an advertisement as received stands for. There is none where one of its
/// two identifiers is malformed.
pub open spec fn keyed_advertisement_of(dto: AdvertisementDtoView) -> Option<
    (u32, AdvertisementView),
> {
    match (identifier_value(dto.container_id), advertisement_of(dto)) {
        (Some(container_id), Some(advertisement)) => Some((container_id, advertisement)),
        _ => None,
    }
}

/// The advertisements of the domain that a list of advertisements as
/// received stands for, each with the identifier of its container.
pub open spec fn keyed_advertisements(dtos: Seq<AdvertisementDto>) -> Seq<
    (u32, AdvertisementView),
> {
    Seq::new(dtos.len(), |i: int| keyed_advertisement_of(dtos[i]@).unwrap())
}

/// Turn the advertisements that the service sent into advertisements of the
/// domain, with the identifier of the container of each.
///
/// Fails with a permanent error where an identifier is malformed.
pub fn keyed_list(dtos: Vec<AdvertisementDto>) -> (listed: Result<
    Vec<(u32, Advertisement)>,
    Error,
>)
    ensures
        match listed {
            Ok(list) => {
                &&& forall|i: int|
                    0 <= i < dtos.len() ==> keyed_advertisement_of(#[trigger] dtos[i]@) is Some
                &&& pair_views(list@) == keyed_advertisements(dtos@)
            },
            Err(error) => {
                &&& exists|i: int|
                    0 <= i < dtos.len() && keyed_advertisement_of(#[trigger] dtos[i]@) is None
                &&& error@ == Error::malformed_identifier()
            },
        },
{
    let ghost all = dtos@;
    let mut list: Vec<(u32, Advertisement)> = Vec::with_capacity(dtos.len());
    for dto in iter: dtos
        invariant
            iter.seq() == all,
            list.len() == iter.index(),
            forall|i: int|
                0 <= i < iter.index() ==> keyed_advertisement_of(#[trigger] all[i]@) is Some,
            pair_views(list@) == keyed_advertisements(all.take(iter.index() as int)),
    {
        let ghost at = iter.index() as int;
        let ghost before = list@;
        assert(all[at] == dto);
        let container_id = match parse_identifier(dto.container_id()) {
            Some(container_id) => container_id,
            None => {
                return Err(Error::malformed());
            },
        };
        let advertisement = match Advertisement::from(dto) {
            Ok(advertisement) => advertisement,
            Err(error) => {
                return Err(error);
            },
        };
        list.push((container_id, advertisement));
        proof {
            let now = keyed_advertisements(all.take(at + 1));
            assert(at < all.len());
            assert(now.len() == at + 1);
            assert(keyed_advertisement_of(all[at]@) == Some((container_id, advertisement@)));
            assert forall|i: int| 0 <= i < now.len() implies pair_views(list@)[i] == now[i] by {
                if i < at {
                    assert(list@[i] == before[i]);
                    assert(pair_views(before)[i] == keyed_advertisements(all.take(at))[i]);
                } else {
                    assert(list@[i] == (container_id, advertisement));
                }
            }
            assert(pair_views(list@) =~= now);
        }
    }
    assert(all.take(all.len() as int) == all);
    Ok(list)
}

/// Turn all advertisements that the service sent into advertisements of the
/// domain, grouped by container.
///
/// Fails with a permanent error where an identifier is malformed.
pub fn list_advertisements(dtos: Vec<AdvertisementDto>) -> (listed: Result<AdvertisementMap, Error>)
    ensures
        match listed {
            Ok(map) => {
                &&& forall|i: int|
                    0 <= i < dtos.len() ==> keyed_advertisement_of(#[trigger] dtos[i]@) is Some
                &&& list_views(map@) == grouped(keyed_advertisements(dtos@))
            },
            Err(error) => {
                &&& exists|i: int|
                    0 <= i < dtos.len() && keyed_advertisement_of(#[trigger] dtos[i]@) is None
                &&& error@ == Error::malformed_identifier()
            },
        },
{
    match keyed_list(dtos) {
        Ok(list) => {
            let map = group(list);
            proof {
                lemma_grouped_views(list@, map@);
            }
            Ok(map)
        },
        Err(error) => Err(error),
    }
}

/// Turn the advertisements that the service sent for one container into
/// advertisements of the domain, in their order.
///
/// Fails with a permanent error where an identifier of an advertisement is
/// malformed.
pub fn list_advertisements_by_container(dtos: Vec<AdvertisementDto>) -> (listed: Result<
    Vec<Advertisement>,
    Error,
>)
    ensures
        match listed {
            Ok(list) => {
                &&& list.len() == dtos.len()
                &&& forall|i: int|
                    0 <= i < dtos.len() ==> advertisement_of(#[trigger] dtos[i]@) == Some(list[i]@)
            },
            Err(error) => {
                &&& exists|i: int|
                    0 <= i < dtos.len() && advertisement_of(#[trigger] dtos[i]@) is None
                &&& error@ == Error::malformed_identifier()
            },
        },
{
    let ghost all = dtos@;
    let mut list: Vec<Advertisement> = Vec::with_capacity(dtos.len());
    for dto in iter: dtos
        invariant
            iter.seq() == all,
            list.len() == iter.index(),
            forall|i: int|
                0 <= i < iter.index() ==> advertisement_of(#[trigger] all[i]@) == Some(list[i]@),
    {
        assert(all[iter.index() as int] == dto);
        match Advertisement::from(dto) {
            Ok(advertisement) => list.push(advertisement),
            Err(error) => {
                return Err(error);
            },
        }
    }
    Ok(list)
}

} // verus!
