//! The device catalog and the device selector.
//!
//! A class directory is handed over as a `ClassListing`: its entries in the
//! order in which the directory yielded them, each with the text of its two
//! attribute files where they could be read. Entries whose attributes are
//! missing or do not hold a number are not devices and are skipped.

use vstd::prelude::*;
use vstd::string::StrSliceExecFns;
use crate::device::{Device, DeviceModel};
use crate::text::{attribute_value, parse_attribute};

verus! {

/// One entry of a class directory.
pub struct Entry {
    pub id: String,
    /// The text of `max_brightness`, if it could be read.
    pub max_brightness: Option<String>,
    /// The text of `brightness`, if it could be read.
    pub brightness: Option<String>,
}

/// The entries of one class directory; empty where it could not be read.
pub struct ClassListing {
    pub class: String,
    pub entries: Vec<Entry>,
}

#[derive(Clone, Copy, Debug, PartialEq, Eq, Structural)]
pub enum SelectError {
    /// No device bears the requested name.
    DeviceNotFound,
    /// No class holds any device.
    NoSuitableDevice,
}

pub open spec fn read_value(text: Option<String>) -> Option<u32> {
    match text {
        Some(t) => attribute_value(t@),
        None => None,
    }
}

/// The device an entry describes, if both its attributes hold numbers.
pub open spec fn entry_device(class: Seq<char>, e: Entry) -> Option<DeviceModel> {
    match (read_value(e.max_brightness), read_value(e.brightness)) {
        (Some(max_brightness), Some(brightness)) => Some(
            DeviceModel { id: e.id@, class, brightness, max_brightness },
        ),
        _ => None,
    }
}

pub open spec fn model_of(d: Option<Device>) -> Option<DeviceModel> {
    match d {
        Some(d) => Some(d@),
        None => None,
    }
}

pub open spec fn models(v: Seq<Device>) -> Seq<DeviceModel> {
    v.map_values(|d: Device| d@)
}

/// The devices among a class's entries, in the entries' order.
pub open spec fn devices_in(class: Seq<char>, entries: Seq<Entry>) -> Seq<DeviceModel>
    decreases entries.len(),
{
    if entries.len() == 0 {
        Seq::empty()
    } else {
        let before = devices_in(class, entries.drop_last());
        match entry_device(class, entries.last()) {
            Some(d) => before.push(d),
            None => before,
        }
    }
}

/// Every device of every class, class by class in the order given.
pub open spec fn catalog_of(listings: Seq<ClassListing>) -> Seq<DeviceModel>
    decreases listings.len(),
{
    if listings.len() == 0 {
        Seq::empty()
    } else {
        catalog_of(listings.drop_last()) + devices_in(
            listings.last().class@,
            listings.last().entries@,
        )
    }
}

fn read_attribute(text: &Option<String>) -> (r: Option<u32>)
    ensures
        r == read_value(*text),
{
    match text {
        Some(t) => parse_attribute(t.as_str()),
        None => None,
    }
}

/// The device an entry of `class` describes, or none where an attribute is
/// missing or malformed.
pub fn map_device(class: &String, entry: &Entry) -> (r: Option<Device>)
    ensures
        model_of(r) == entry_device(class@, *entry),
{
    let max_brightness = match read_attribute(&entry.max_brightness) {
        Some(v) => v,
        None => return None,
    };
    let brightness = match read_attribute(&entry.brightness) {
        Some(v) => v,
        None => return None,
    };
    Some(Device::new(entry.id.clone(), class.clone(), brightness, max_brightness))
}

/// All devices of all the listed classes, class by class.
pub fn list_devices(listings: &Vec<ClassListing>) -> (r: Vec<Device>)
    ensures
        models(r@) == catalog_of(listings@),
{
    let mut found: Vec<Device> = Vec::new();
    let mut i: usize = 0;
    while i < listings.len()
        invariant
            i <= listings@.len(),
            models(found@) == catalog_of(listings@.subrange(0, i as int)),
        decreases listings@.len() - i,
    {
        let listing = &listings[i];
        let ghost base = models(found@);
        let mut j: usize = 0;
        while j < listing.entries.len()
            invariant
                i < listings@.len(),
                *listing == listings@[i as int],
                j <= listing.entries@.len(),
                models(found@) == base + devices_in(
                    listing.class@,
                    listing.entries@.subrange(0, j as int),
                ),
            decreases listing.entries@.len() - j,
        {
            let ghost before = found@;
            assert(listing.entries@.subrange(0, j + 1).drop_last() =~= listing.entries@.subrange(0, j as int));
            match map_device(&listing.class, &listing.entries[j]) {
                Some(d) => {
                    found.push(d);
                    assert(models(found@) =~= models(before).push(d@));
                },
                None => {},
            }
            j = j + 1;
        }
        assert(listing.entries@.subrange(0, j as int) =~= listing.entries@);
        assert(listings@.subrange(0, i + 1).drop_last() =~= listings@.subrange(0, i as int));
        i = i + 1;
    }
    assert(listings@.subrange(0, i as int) =~= listings@);
    found
}

/// The first device in `s` named `id`.
pub open spec fn first_named(s: Seq<DeviceModel>, id: Seq<char>) -> Option<DeviceModel>
    decreases s.len(),
{
    if s.len() == 0 {
        None
    } else if s[0].id == id {
        Some(s[0])
    } else {
        first_named(s.drop_first(), id)
    }
}

/// The device chosen from a catalog: the first one bearing the requested
/// name, or, with no name given, the first one of all.
pub open spec fn selection(catalog: Seq<DeviceModel>, filter: Option<Seq<char>>) -> Result<
    DeviceModel,
    SelectError,
> {
    match filter {
        Some(id) => match first_named(catalog, id) {
            Some(d) => Ok(d),
            None => Err(SelectError::DeviceNotFound),
        },
        None => if catalog.len() > 0 {
            Ok(catalog[0])
        } else {
            Err(SelectError::NoSuitableDevice)
        },
    }
}

pub open spec fn filter_text(filter: Option<&str>) -> Option<Seq<char>> {
    match filter {
        Some(f) => Some(f@),
        None => None,
    }
}

pub open spec fn selected_model(r: Result<Device, SelectError>) -> Result<DeviceModel, SelectError> {
    match r {
        Ok(d) => Ok(d@),
        Err(e) => Err(e),
    }
}

fn same_text(a: &str, b: &str) -> (r: bool)
    ensures
        r == (a@ == b@),
{
    let n = a.unicode_len();
    if n != b.unicode_len() {
        return false;
    }
    let mut i: usize = 0;
    while i < n
        invariant
            i <= n == a@.len() == b@.len(),
            forall|k: int| 0 <= k < i ==> a@[k] == b@[k],
        decreases n - i,
    {
        if a.get_char(i) != b.get_char(i) {
            return false;
        }
        i = i + 1;
    }
    assert(a@ =~= b@);
    true
}

/// Picks one device: with a name, the first device of that name, scanning
/// the classes in the order given; without one, the first device found.
pub fn select(listings: &Vec<ClassListing>, filter: Option<&str>) -> (r: Result<Device, SelectError>)
    ensures
        selected_model(r) == selection(catalog_of(listings@), filter_text(filter)),
{
    let found = list_devices(listings);
    let ghost all = models(found@);
    match filter {
        None => {
            if found.len() > 0 {
                Ok(found[0].duplicate())
            } else {
                Err(SelectError::NoSuitableDevice)
            }
        },
        Some(id) => {
            let mut i: usize = 0;
            assert(all.subrange(0, all.len() as int) =~= all);
            while i < found.len()
                invariant
                    i <= found@.len() == all.len(),
                    all == models(found@),
                    all == catalog_of(listings@),
                    filter == Some(id),
                    first_named(all, id@) == first_named(all.subrange(i as int, all.len() as int), id@),
                decreases found@.len() - i,
            {
                let ghost rest = all.subrange(i as int, all.len() as int);
                assert(rest[0] == found@[i as int]@);
                if same_text(found[i].id.as_str(), id) {
                    assert(rest.len() > 0 && rest[0].id == id@);
                    assert(first_named(rest, id@) == Some(rest[0]));
                    return Ok(found[i].duplicate());
                }
                assert(rest.drop_first() =~= all.subrange(i + 1, all.len() as int));
                i = i + 1;
            }
            Err(SelectError::DeviceNotFound)
        },
    }
}

proof fn lemma_first_named_absent(s: Seq<DeviceModel>, id: Seq<char>)
    requires
        forall|i: int| 0 <= i < s.len() ==> (#[trigger] s[i]).id != id,
    ensures
        first_named(s, id) is None,
    decreases s.len(),
{
    if s.len() > 0 {
        assert forall|i: int| 0 <= i < s.drop_first().len() implies (#[trigger] s.drop_first()[i]).id != id by {
            assert(s.drop_first()[i] == s[i + 1]);
        }
        lemma_first_named_absent(s.drop_first(), id);
    }
}

/// Every device of a class comes from one of its entries.
proof fn lemma_devices_in_origin(class: Seq<char>, entries: Seq<Entry>)
    ensures
        forall|i: int|
            #![trigger devices_in(class, entries)[i]]
            0 <= i < devices_in(class, entries).len() ==> exists|j: int|
                0 <= j < entries.len() && entry_device(class, #[trigger] entries[j]) == Some(
                    devices_in(class, entries)[i],
                ),
    decreases entries.len(),
{
    if entries.len() > 0 {
        let before = entries.drop_last();
        lemma_devices_in_origin(class, before);
        let all = devices_in(class, entries);
        assert forall|i: int| #![trigger all[i]] 0 <= i < all.len() implies exists|j: int|
            0 <= j < entries.len() && entry_device(class, #[trigger] entries[j]) == Some(all[i]) by {
            if i < devices_in(class, before).len() {
                let j = choose|j: int|
                    0 <= j < before.len() && entry_device(class, #[trigger] before[j]) == Some(
                        devices_in(class, before)[i],
                    );
                assert(entries[j] == before[j]);
            } else {
                assert(entries[entries.len() - 1] == entries.last());
            }
        }
    }
}

/// Every device of the catalog comes from an entry of one of the listings.
proof fn lemma_catalog_origin(listings: Seq<ClassListing>)
    ensures
        forall|i: int|
            #![trigger catalog_of(listings)[i]]
            0 <= i < catalog_of(listings).len() ==> exists|k: int, j: int|
                0 <= k < listings.len() && 0 <= j < listings[k].entries@.len() && entry_device(
                    listings[k].class@,
                    #[trigger] listings[k].entries@[j],
                ) == Some(catalog_of(listings)[i]),
    decreases listings.len(),
{
    if listings.len() > 0 {
        let before = listings.drop_last();
        let k = listings.len() - 1;
        let last = listings[k];
        lemma_catalog_origin(before);
        lemma_devices_in_origin(last.class@, last.entries@);
        let all = catalog_of(listings);
        let n = catalog_of(before).len();
        assert forall|i: int| #![trigger all[i]] 0 <= i < all.len() implies exists|k: int, j: int|
            0 <= k < listings.len() && 0 <= j < listings[k].entries@.len() && entry_device(
                listings[k].class@,
                #[trigger] listings[k].entries@[j],
            ) == Some(all[i]) by {
            if i < n {
                let (k0, j0) = choose|k: int, j: int|
                    0 <= k < before.len() && 0 <= j < before[k].entries@.len() && entry_device(
                        before[k].class@,
                        #[trigger] before[k].entries@[j],
                    ) == Some(catalog_of(before)[i]);
                assert(listings[k0] == before[k0]);
                assert(all[i] == catalog_of(before)[i]);
            } else {
                assert(all[i] == devices_in(last.class@, last.entries@)[i - n]);
                let j0 = choose|j: int|
                    0 <= j < last.entries@.len() && entry_device(last.class@, #[trigger] last.entries@[j])
                        == Some(devices_in(last.class@, last.entries@)[i - n]);
                assert(listings.last() == last);
                assert(entry_device(listings[k].class@, listings[k].entries@[j0]) == Some(all[i]));
            }
        }
    }
}

/// Selection fails only as it should. Where no entry of any listed class
/// reads (through `map_device`) as a device of the requested name, that name
/// is not found; with no name given, where no entry of any listed class reads
/// as a device (the classes are empty, unreadable, or hold only malformed
/// entries), there is no suitable device.
pub proof fn law_selection_failures(listings: Seq<ClassListing>, filter: Option<Seq<char>>)
    ensures
        filter is Some && (forall|k: int, j: int|
            0 <= k < listings.len() && 0 <= j < listings[k].entries@.len() && (entry_device(
                listings[k].class@,
                #[trigger] listings[k].entries@[j],
            ) is Some) ==> entry_device(listings[k].class@, listings[k].entries@[j])->Some_0.id
                != filter->Some_0) ==> selection(catalog_of(listings), filter) == Err::<
            DeviceModel,
            SelectError,
        >(SelectError::DeviceNotFound),
        filter is None && (forall|k: int, j: int|
            0 <= k < listings.len() && 0 <= j < listings[k].entries@.len() ==> entry_device(
                listings[k].class@,
                #[trigger] listings[k].entries@[j],
            ) is None) ==> selection(catalog_of(listings), filter) == Err::<
            DeviceModel,
            SelectError,
        >(SelectError::NoSuitableDevice),
{
    let all = catalog_of(listings);
    lemma_catalog_origin(listings);
    if filter is Some && (forall|k: int, j: int|
        0 <= k < listings.len() && 0 <= j < listings[k].entries@.len() && (entry_device(
            listings[k].class@,
            #[trigger] listings[k].entries@[j],
        ) is Some) ==> entry_device(listings[k].class@, listings[k].entries@[j])->Some_0.id
            != filter->Some_0) {
        assert forall|i: int| 0 <= i < all.len() implies (#[trigger] all[i]).id != filter->Some_0 by {
            let (k, j) = choose|k: int, j: int|
                0 <= k < listings.len() && 0 <= j < listings[k].entries@.len() && entry_device(
                    listings[k].class@,
                    #[trigger] listings[k].entries@[j],
                ) == Some(all[i]);
        }
        lemma_first_named_absent(all, filter->Some_0);
    }
    if filter is None && (forall|k: int, j: int|
        0 <= k < listings.len() && 0 <= j < listings[k].entries@.len() ==> entry_device(
            listings[k].class@,
            #[trigger] listings[k].entries@[j],
        ) is None) {
        if all.len() > 0 {
            let (k, j) = choose|k: int, j: int|
                0 <= k < listings.len() && 0 <= j < listings[k].entries@.len() && entry_device(
                    listings[k].class@,
                    #[trigger] listings[k].entries@[j],
                ) == Some(all[0]);
        }
    }
}

} // verus!
