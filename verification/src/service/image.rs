//! Images of the domain.

use std::collections::HashMap;
use vstd::prelude::*;

use crate::identifier::{identifier_value, parse_identifier};
use crate::repository::image::{image_of, ImageDto, ImageDtoView};
use crate::service::{group, grouped, lemma_grouped_views, list_views, pair_views};
use crate::types::Error;

verus! {

/// Image asset of a container.
///
/// The domain holds an image with its identifier as a number and
/// without the identifier of its container, which is the key under which it
/// is grouped.
#[derive(Debug, PartialEq, Eq)]
pub struct Image {
    /// Unique image identifier.
    id: u32,
    /// Name of image.
    name: String,
    /// Image URL.
    url: String,
}

/// Mathematical value of an [`Image`].
pub struct ImageView {
    pub id: u32,
    pub name: Seq<char>,
    pub url: Seq<char>,
}

impl View for Image {
    type V = ImageView;

    closed spec fn view(&self) -> ImageView {
        ImageView { id: self.id, name: self.name@, url: self.url@ }
    }
}

impl Clone for Image {
    fn clone(&self) -> (copy: Self)
        ensures
            copy@ == self@,
    {
        Image { id: self.id, name: self.name.clone(), url: self.url.clone() }
    }
}

impl Image {
    /// Construct a new Image.
    pub fn new(id: u32, name: String, url: String) -> (image: Self)
        ensures
            image@ == (ImageView { id, name: name@, url: url@ }),
    {
        Image { id, name, url }
    }

    /// Get image ID.
    pub fn id(&self) -> (id: u32)
        ensures
            id == self@.id,
    {
        self.id
    }

    /// Get name.
    pub fn name(&self) -> (name: &str)
        ensures
            name@ == self@.name,
    {
        self.name.as_str()
    }

    /// Get URL.
    pub fn url(&self) -> (url: &str)
        ensures
            url@ == self@.url,
    {
        self.url.as_str()
    }
}

/// Images by the identifier of their container.
pub type ImageMap = HashMap<u32, Vec<Image>>;

/// The identifier of its container and the image of the domain that
/// an image as received stands for. There is none where one of its
/// two identifiers is malformed.
pub open spec fn keyed_image_of(dto: ImageDtoView) -> Option<
    (u32, ImageView),
> {
    match (identifier_value(dto.container_id), image_of(dto)) {
        (Some(container_id), Some(image)) => Some((container_id, image)),
        _ => None,
    }
}

/// The images of the domain that a list of images as
/// received stands for, each with the identifier of its container.
pub open spec fn keyed_images(dtos: Seq<ImageDto>) -> Seq<
    (u32, ImageView),
> {
    Seq::new(dtos.len(), |i: int| keyed_image_of(dtos[i]@).unwrap())
}

/// Turn the images that the service sent into images of the
/// domain, with the identifier of the container of each.
///
/// Fails with a permanent error where an identifier is malformed.
pub fn keyed_list(dtos: Vec<ImageDto>) -> (listed: Result<
    Vec<(u32, Image)>,
    Error,
>)
    ensures
        match listed {
            Ok(list) => {
                &&& forall|i: int|
                    0 <= i < dtos.len() ==> keyed_image_of(#[trigger] dtos[i]@) is Some
                &&& pair_views(list@) == keyed_images(dtos@)
            },
            Err(error) => {
                &&& exists|i: int|
                    0 <= i < dtos.len() && keyed_image_of(#[trigger] dtos[i]@) is None
                &&& error@ == Error::malformed_identifier()
            },
        },
{
    let ghost all = dtos@;
    let mut list: Vec<(u32, Image)> = Vec::with_capacity(dtos.len());
    for dto in iter: dtos
        invariant
            iter.seq() == all,
            list.len() == iter.index(),
            forall|i: int|
                0 <= i < iter.index() ==> keyed_image_of(#[trigger] all[i]@) is Some,
            pair_views(list@) == keyed_images(all.take(iter.index() as int)),
    {
        let ghost at = iter.index() as int;
        let ghost before = list@;
        assert(all[at] == dto);
        let container_id = match parse_identifier(dto.container_id()) {
            Some(container_id) => container_id,
            None => {
                return Err(Error::malformed());
            },
        };
        let image = match Image::from(dto) {
            Ok(image) => image,
            Err(error) => {
                return Err(error);
            },
        };
        list.push((container_id, image));
        proof {
            let now = keyed_images(all.take(at + 1));
            assert(at < all.len());
            assert(now.len() == at + 1);
            assert(keyed_image_of(all[at]@) == Some((container_id, image@)));
            assert forall|i: int| 0 <= i < now.len() implies pair_views(list@)[i] == now[i] by {
                if i < at {
                    assert(list@[i] == before[i]);
                    assert(pair_views(before)[i] == keyed_images(all.take(at))[i]);
                } else {
                    assert(list@[i] == (container_id, image));
                }
            }
            assert(pair_views(list@) =~= now);
        }
    }
    assert(all.take(all.len() as int) == all);
    Ok(list)
}

/// Turn all images that the service sent into images of the
/// domain, grouped by container.
///
/// Fails with a permanent error where an identifier is malformed.
pub fn list_images(dtos: Vec<ImageDto>) -> (listed: Result<ImageMap, Error>)
    ensures
        match listed {
            Ok(map) => {
                &&& forall|i: int|
                    0 <= i < dtos.len() ==> keyed_image_of(#[trigger] dtos[i]@) is Some
                &&& list_views(map@) == grouped(keyed_images(dtos@))
            },
            Err(error) => {
                &&& exists|i: int|
                    0 <= i < dtos.len() && keyed_image_of(#[trigger] dtos[i]@) is None
                &&& error@ == Error::malformed_identifier()
            },
        },
{
    match keyed_list(dtos) {
        Ok(list) => {
            let map = group(list);
            proof {
                lemma_grouped_views(list@, map@);
            }
            Ok(map)
        },
        Err(error) => Err(error),
    }
}

/// Turn the images that the service sent for one container into
/// images of the domain, in their order.
///
/// Fails with a permanent error where an identifier of an image is
/// malformed.
pub fn list_images_by_container(dtos: Vec<ImageDto>) -> (listed: Result<
    Vec<Image>,
    Error,
>)
    ensures
        match listed {
            Ok(list) => {
                &&& list.len() == dtos.len()
                &&& forall|i: int|
                    0 <= i < dtos.len() ==> image_of(#[trigger] dtos[i]@) == Some(list[i]@)
            },
            Err(error) => {
                &&& exists|i: int|
                    0 <= i < dtos.len() && image_of(#[trigger] dtos[i]@) is None
                &&& error@ == Error::malformed_identifier()
            },
        },
{
    let ghost all = dtos@;
    let mut list: Vec<Image> = Vec::with_capacity(dtos.len());
    for dto in iter: dtos
        invariant
            iter.seq() == all,
            list.len() == iter.index(),
            forall|i: int|
                0 <= i < iter.index() ==> image_of(#[trigger] all[i]@) == Some(list[i]@),
    {
        assert(all[iter.index() as int] == dto);
        match Image::from(dto) {
            Ok(image) => list.push(image),
            Err(error) => {
                return Err(error);
            },
        }
    }
    Ok(list)
}

} // verus!
