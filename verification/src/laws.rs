//! What holds of loading and lookup on every database, stated over the
//! models that the contracts of the functions use.

use crate::card::CardType;
use crate::codec::le_i32;
use crate::database::{
    image_entry, image_index_len, image_index_offset, image_loads, image_view, load, lookup,
    record_at, record_bytes, resolve, PhoneDataView, PhoneNoInfoView,
};
use crate::error::ErrorKind;
use crate::index::{
    has_prefix, lemma_probe_absent, lemma_probe_exact, lemma_probe_short_index, probe,
    strictly_ascending,
};
use crate::query::parse_decimal;
use crate::text::first_index_of;
use vstd::prelude::*;

verus! {

/// The prefix that the index slot `slot` of an image carries on disk.
pub open spec fn image_prefix(data: Seq<u8>, slot: int) -> int {
    let at = image_index_offset(data) + 9 * slot;
    le_i32(data.subrange(at, at + 4))
}

/// The index slots of the image are written with growing prefixes.
pub open spec fn image_sorted(data: Seq<u8>) -> bool {
    forall|i: int, j: int|
        0 <= i < j < image_index_len(data) ==> image_prefix(data, i) < image_prefix(data, j)
}

/// Loading keeps the order of the image: the index loaded from an image whose
/// slots are written with growing prefixes is strictly ascending.
pub proof fn lemma_loaded_index_sorted(data: Seq<u8>)
    requires
        image_loads(data),
        image_sorted(data),
    ensures
        load(data) matches Ok(db) && strictly_ascending(db.index),
{
    let db = image_view(data);
    assert forall|i: int, j: int| 0 <= i < j < db.index.len() implies db.index[i].phone_no_prefix
        < db.index[j].phone_no_prefix by {
        assert(db.index[i] == image_entry(data, image_index_offset(data) + 9 * i));
        assert(db.index[j] == image_entry(data, image_index_offset(data) + 9 * j));
        assert(image_prefix(data, i) < image_prefix(data, j));
    }
}

/// The offset of a record counts from the start of the image, header
/// included: the bytes of the record at `offset` are those of the image from
/// `offset` up to the first zero byte, or to the start of the index.
pub proof fn lemma_record_offset_is_absolute(data: Seq<u8>, offset: int)
    requires
        image_loads(data),
        8 <= offset <= image_index_offset(data),
    ensures
        record_bytes(image_view(data).records, offset) == ({
            let tail = data.subrange(offset, image_index_offset(data));
            tail.take(first_index_of(tail, 0u8))
        }),
{
    let records = image_view(data).records;
    assert(records.skip(offset - 8) == data.subrange(offset, image_index_offset(data)));
}

/// A query is refused for its length exactly when it is shorter than 7 or
/// longer than 11 bytes; no other failure is reported as one of length.
pub proof fn lemma_lookup_length(db: PhoneDataView, number: Seq<u8>)
    ensures
        lookup(db, number) == Err::<PhoneNoInfoView, ErrorKind>(ErrorKind::InvalidLength) <==> !(7
            <= number.len() <= 11),
{
}

/// A query whose prefix no slot carries is answered with `NotFound`, whatever
/// the index holds: empty, a single slot, sorted or not.
pub proof fn lemma_lookup_absent(db: PhoneDataView, number: Seq<u8>, prefix: i32)
    requires
        7 <= number.len() <= 11,
        parse_decimal(number.take(7)) == Some(prefix as int),
        !has_prefix(db.index, prefix),
    ensures
        lookup(db, number) == Err::<PhoneNoInfoView, ErrorKind>(ErrorKind::NotFound),
{
    lemma_probe_absent(db.index, prefix);
}

/// An index of fewer than two slots answers every well-formed query with
/// `NotFound`, the prefix of its own slot included.
pub proof fn lemma_lookup_short_index(db: PhoneDataView, number: Seq<u8>)
    requires
        db.index.len() <= 1,
        7 <= number.len() <= 11,
        parse_decimal(number.take(7)) is Some,
    ensures
        lookup(db, number) == Err::<PhoneNoInfoView, ErrorKind>(ErrorKind::NotFound),
{
    lemma_probe_short_index(db.index, parse_decimal(number.take(7))->0 as i32);
}

/// In a strictly ascending index of at least two slots, the query for the
/// prefix of a slot is answered from that slot: with the fields of the record
/// at its offset and the name of its carrier where both are valid.
pub proof fn lemma_lookup_round_trip(db: PhoneDataView, number: Seq<u8>, slot: int)
    requires
        strictly_ascending(db.index),
        db.index.len() >= 2,
        0 <= slot < db.index.len(),
        7 <= number.len() <= 11,
        parse_decimal(number.take(7)) == Some(db.index[slot].phone_no_prefix as int),
    ensures
        lookup(db, number) == resolve(db.records, db.index[slot]),
        match (
            record_at(db.records, db.index[slot].records_offset as int),
            CardType::of_code(db.index[slot].card_type),
        ) {
            (Some(record), Some(card)) => lookup(db, number) == Ok::<PhoneNoInfoView, ErrorKind>(
                PhoneNoInfoView {
                    province: record.province,
                    city: record.city,
                    zip_code: record.zip_code,
                    area_code: record.area_code,
                    card_type: card.description(),
                },
            ),
            _ => lookup(db, number) is Err,
        },
{
    lemma_probe_exact(db.index, slot);
}

} // verus!
