use vstd::prelude::*;
use serde_json::Value;

use crate::error::ListingError;
use crate::json::{
    array_items, json_array, json_as_array, json_as_str, json_clone, json_get, json_string, json_unsigned,
    object_entries, path_keys, path_set, set_chain, set_field, sets_applied, string_text, unsigned_number,
};
use crate::listing::EldoradoListing;
use crate::template::texts;

verus! {

/// Listings whose bucket starts below this item count are not published.
pub const MIN_PUBLISHED_POTIONS: u64 = 200;

/// The file names of the three sizes of an uploaded offer image.
#[derive(Debug)]
pub struct UploadedImageInfo {
    pub small: String,
    pub large: String,
    pub original: String,
}

/// Whether a listing is published at all: its bucket starts at two hundred items or
/// more.
pub fn qualifies_for_publication(listing: &EldoradoListing) -> (r: bool)
    ensures
        r == (listing.min_potions >= MIN_PUBLISHED_POTIONS),
{
    listing.min_potions >= MIN_PUBLISHED_POTIONS
}

/// The outcome of an offer submission from its HTTP status: a status from 200 to 299
/// succeeds, any other fails and carries the response body.
pub fn offer_outcome(status: u16, body: String) -> (r: Result<(), ListingError>)
    ensures
        200 <= status < 300 ==> r == Ok::<(), ListingError>(()),
        !(200 <= status < 300) ==> r == Err::<(), ListingError>(ListingError::HttpFailure { status, body }),
{
    if 200 <= status && status < 300 {
        Ok(())
    } else {
        Err(ListingError::HttpFailure { status, body })
    }
}

/// The last component of a path, as `std::path::Path::file_name` reads it.
pub uninterp spec fn path_file_name(p: Seq<char>) -> Option<Seq<char>>;

/// Relies on `Path::file_name` and `OsStr::to_str`: the final component of the path,
/// if it has one.
#[verifier::external_body]
fn file_name_of(p: &str) -> (r: Option<String>)
    ensures
        r.is_some() == path_file_name(p@).is_some(),
        r.is_some() ==> r.unwrap()@ == path_file_name(p@).unwrap(),
{
    std::path::Path::new(p).file_name().and_then(|n| n.to_str()).map(|n| n.to_string())
}

/// The file name that one item of an upload response contributes, if any: items that
/// are no string, or whose path has no final component, contribute none.
pub open spec fn item_file_name(item: Value) -> Option<Seq<char>> {
    match string_text(item) {
        Some(t) => path_file_name(t),
        None => None,
    }
}

/// The file names of the items, in order, skipping those that give none.
pub open spec fn image_names(items: Seq<Value>) -> Seq<Seq<char>>
    decreases items.len(),
{
    if items.len() == 0 {
        Seq::empty()
    } else {
        let rest = image_names(items.drop_last());
        match item_file_name(items.last()) {
            Some(n) => rest.push(n),
            None => rest,
        }
    }
}

pub open spec fn local_paths_key() -> Seq<char> {
    "localPaths"@
}

/// The items of the `localPaths` array of an upload response, if it has one.
pub open spec fn local_paths(response: Value) -> Option<Seq<Value>> {
    match object_entries(response) {
        Some(m) => if m.contains_key(local_paths_key()) {
            array_items(m[local_paths_key()])
        } else {
            None
        },
        None => None,
    }
}

/// Reads the image references out of an upload response: the file names of the first
/// three usable entries of `localPaths` are the small, large and original image, in
/// that order. A response without such an array, or with fewer than three usable
/// entries, is malformed.
pub fn extract_image_refs(response: &Value) -> (r: Result<UploadedImageInfo, ListingError>)
    ensures
        r.is_ok() == (local_paths(*response).is_some() && image_names(local_paths(*response).unwrap()).len() >= 3),
        r.is_err() ==> r == Err::<UploadedImageInfo, ListingError>(ListingError::MalformedResponse),
        r.is_ok() ==> ({
            let names = image_names(local_paths(*response).unwrap());
            &&& r.unwrap().small@ == names[0]
            &&& r.unwrap().large@ == names[1]
            &&& r.unwrap().original@ == names[2]
        }),
{
    let key = "localPaths";
    let entry = json_get(response, key);
    let items = match entry {
        Some(e) => json_as_array(e),
        None => None,
    };
    let items = match items {
        Some(a) => a,
        None => {
            return Err(ListingError::MalformedResponse);
        }
    };
    let ghost all = items@;
    let mut names: Vec<String> = Vec::new();
    let mut i: usize = 0;
    while i < items.len()
        invariant
            i <= all.len(),
            all == items@,
            texts(names@) == image_names(all.subrange(0, i as int)),
        decreases all.len() - i,
    {
        let ghost before = all.subrange(0, i as int);
        let ghost after = all.subrange(0, i as int + 1);
        assert(after.drop_last() =~= before);
        match json_as_str(&items[i]) {
            Some(text) => {
                match file_name_of(text) {
                    Some(name) => {
                        names.push(name);
                        assert(texts(names@) =~= image_names(after));
                    },
                    None => {
                        assert(texts(names@) =~= image_names(after));
                    },
                }
            },
            None => {
                assert(texts(names@) =~= image_names(after));
            },
        }
        i += 1;
    }
    assert(all.subrange(0, all.len() as int) =~= all);
    assert(key@ == local_paths_key());
    if names.len() < 3 {
        return Err(ListingError::MalformedResponse);
    }
    assert(texts(names@)[0] == names@[0]@);
    assert(texts(names@)[1] == names@[1]@);
    assert(texts(names@)[2] == names@[2]@);
    Ok(UploadedImageInfo {
        small: names[0].clone(),
        large: names[1].clone(),
        original: names[2].clone(),
    })
}

/// The text of a JSON value is `t`.
pub open spec fn holds_text(v: Value, t: Seq<char>) -> bool {
    string_text(v) == Some(t)
}

/// The JSON value is an array of strings with the texts `ts`, in order.
pub open spec fn holds_texts(v: Value, ts: Seq<Seq<char>>) -> bool {
    &&& array_items(v).is_some()
    &&& array_items(v).unwrap().len() == ts.len()
    &&& forall|i: int| 0 <= i < ts.len() ==> string_text(#[trigger] array_items(v).unwrap()[i]) == Some(ts[i])
}

/// The paths of an offer payload that a listing fills, in the order they are set.
pub open spec fn offer_paths() -> Seq<Seq<Seq<char>>> {
    seq![
        seq!["details"@, "offerTitle"@],
        seq!["details"@, "description"@],
        seq!["details"@, "guaranteedDeliveryTime"@],
        seq!["details"@, "pricing"@, "quantity"@],
        seq!["details"@, "pricing"@, "pricePerUnit"@, "amount"@],
        seq!["details"@, "mainOfferImage"@, "smallImage"@],
        seq!["details"@, "mainOfferImage"@, "largeImage"@],
        seq!["details"@, "mainOfferImage"@, "originalSizeImage"@],
        seq!["accountSecretDetails"@],
    ]
}

/// What the value set at each of `offer_paths` holds: the title, the description, the
/// delivery label, the number of accounts, the scaled price, the three image names and
/// the accounts' sold messages.
pub open spec fn offer_fits(
    listing: EldoradoListing,
    delivery: Seq<char>,
    price: u64,
    images: UploadedImageInfo,
) -> Seq<spec_fn(Value) -> bool> {
    seq![
        |v: Value| holds_text(v, listing.title@),
        |v: Value| holds_text(v, listing.description@),
        |v: Value| holds_text(v, delivery),
        |v: Value| unsigned_number(v) == Some(listing.accounts@.len() as u64),
        |v: Value| unsigned_number(v) == Some(price),
        |v: Value| holds_text(v, images.small@),
        |v: Value| holds_text(v, images.large@),
        |v: Value| holds_text(v, images.original@),
        |v: Value| holds_texts(v, texts(listing.accounts@)),
    ]
}

fn secrets_array(accounts: &Vec<String>) -> (r: Value)
    ensures
        holds_texts(r, texts(accounts@)),
{
    let mut items: Vec<Value> = Vec::new();
    let mut i: usize = 0;
    while i < accounts.len()
        invariant
            i <= accounts@.len(),
            items@.len() == i,
            forall|j: int| 0 <= j < i ==> string_text(#[trigger] items@[j]) == Some(accounts@[j]@),
        decreases accounts@.len() - i,
    {
        items.push(json_string(accounts[i].clone()));
        i += 1;
    }
    json_array(items)
}

/// The offer payload of a listing: a copy of the template on which the title,
/// description, delivery label, quantity, scaled price, image names and sold messages
/// are set at `offer_paths`, in that order.
pub fn build_offer_payload(
    template: &Value,
    listing: &EldoradoListing,
    delivery: &str,
    price: u64,
    images: &UploadedImageInfo,
) -> (r: Value)
    ensures
        sets_applied(*template, r, offer_paths(), offer_fits(*listing, delivery@, price, *images)),
{
    let ghost paths = offer_paths();
    let ghost fits = offer_fits(*listing, delivery@, price, *images);
    let mut payload = json_clone(template);
    let ghost mut states: Seq<Value> = seq![payload];
    let ghost mut values: Seq<Value> = Seq::empty();
    let value = json_string(listing.title.clone());
    let ghost set_value = value;
    let path = vec!["details", "offerTitle"];
    assert(path_keys(path@) =~= seq!["details"@, "offerTitle"@]);
    set_field(&mut payload, path, value);
    proof {
        states = states.push(payload);
        values = values.push(set_value);
    }
    assert(forall|i: int| 0 <= i < 1 ==> #[trigger] fits[i](values[i])
        && path_set(Some(states[i]), states[i + 1], paths[i], values[i]));
    let value = json_string(listing.description.clone());
    let ghost set_value = value;
    let path = vec!["details", "description"];
    assert(path_keys(path@) =~= seq!["details"@, "description"@]);
    set_field(&mut payload, path, value);
    proof {
        states = states.push(payload);
        values = values.push(set_value);
    }
    assert(forall|i: int| 0 <= i < 2 ==> #[trigger] fits[i](values[i])
        && path_set(Some(states[i]), states[i + 1], paths[i], values[i]));
    let value = json_string(String::from_str(delivery));
    let ghost set_value = value;
    let path = vec!["details", "guaranteedDeliveryTime"];
    assert(path_keys(path@) =~= seq!["details"@, "guaranteedDeliveryTime"@]);
    set_field(&mut payload, path, value);
    proof {
        states = states.push(payload);
        values = values.push(set_value);
    }
    assert(forall|i: int| 0 <= i < 3 ==> #[trigger] fits[i](values[i])
        && path_set(Some(states[i]), states[i + 1], paths[i], values[i]));
    let value = json_unsigned(listing.accounts.len() as u64);
    let ghost set_value = value;
    let path = vec!["details", "pricing", "quantity"];
    assert(path_keys(path@) =~= seq!["details"@, "pricing"@, "quantity"@]);
    set_field(&mut payload, path, value);
    proof {
        states = states.push(payload);
        values = values.push(set_value);
    }
    assert(forall|i: int| 0 <= i < 4 ==> #[trigger] fits[i](values[i])
        && path_set(Some(states[i]), states[i + 1], paths[i], values[i]));
    let value = json_unsigned(price);
    let ghost set_value = value;
    let path = vec!["details", "pricing", "pricePerUnit", "amount"];
    assert(path_keys(path@) =~= seq!["details"@, "pricing"@, "pricePerUnit"@, "amount"@]);
    set_field(&mut payload, path, value);
    proof {
        states = states.push(payload);
        values = values.push(set_value);
    }
    assert(forall|i: int| 0 <= i < 5 ==> #[trigger] fits[i](values[i])
        && path_set(Some(states[i]), states[i + 1], paths[i], values[i]));
    let value = json_string(images.small.clone());
    let ghost set_value = value;
    let path = vec!["details", "mainOfferImage", "smallImage"];
    assert(path_keys(path@) =~= seq!["details"@, "mainOfferImage"@, "smallImage"@]);
    set_field(&mut payload, path, value);
    proof {
        states = states.push(payload);
        values = values.push(set_value);
    }
    assert(forall|i: int| 0 <= i < 6 ==> #[trigger] fits[i](values[i])
        && path_set(Some(states[i]), states[i + 1], paths[i], values[i]));
    let value = json_string(images.large.clone());
    let ghost set_value = value;
    let path = vec!["details", "mainOfferImage", "largeImage"];
    assert(path_keys(path@) =~= seq!["details"@, "mainOfferImage"@, "largeImage"@]);
    set_field(&mut payload, path, value);
    proof {
        states = states.push(payload);
        values = values.push(set_value);
    }
    assert(forall|i: int| 0 <= i < 7 ==> #[trigger] fits[i](values[i])
        && path_set(Some(states[i]), states[i + 1], paths[i], values[i]));
    let value = json_string(images.original.clone());
    let ghost set_value = value;
    let path = vec!["details", "mainOfferImage", "originalSizeImage"];
    assert(path_keys(path@) =~= seq!["details"@, "mainOfferImage"@, "originalSizeImage"@]);
    set_field(&mut payload, path, value);
    proof {
        states = states.push(payload);
        values = values.push(set_value);
    }
    assert(forall|i: int| 0 <= i < 8 ==> #[trigger] fits[i](values[i])
        && path_set(Some(states[i]), states[i + 1], paths[i], values[i]));
    let value = secrets_array(&listing.accounts);
    let ghost set_value = value;
    let path = vec!["accountSecretDetails"];
    assert(path_keys(path@) =~= seq!["accountSecretDetails"@]);
    set_field(&mut payload, path, value);
    proof {
        states = states.push(payload);
        values = values.push(set_value);
    }
    assert(forall|i: int| 0 <= i < 9 ==> #[trigger] fits[i](values[i])
        && path_set(Some(states[i]), states[i + 1], paths[i], values[i]));
    assert(set_chain(*template, payload, states, values, paths, fits));
    payload
}

} // verus!
