//! The database: its image on disk, the loaded form, and the lookup.

use crate::card::CardType;
use crate::codec::{byte_at, le_i32, lemma_shifted_byte};
use crate::error::ErrorKind;
use crate::index::{lemma_probe_sound, locate, probe, Index};
use crate::query::{parse_decimal, parse_number};
use crate::text::{
    decode_text, decoded_pieces, find_byte, first_index_of, lemma_split_decode, pieces_valid,
    split_bytes, split_on, text_of, BAR,
};
use vstd::prelude::*;
use vstd::slice::*;
use vstd::utf8::*;

verus! {

/// The length of the header: a four-byte version tag and the four-byte
/// position of the index.
pub const HEADER_LEN: usize = 8;

/// The length of one index slot in the image.
pub const INDEX_ITEM_LEN: usize = 9;

/// The shortest query that is looked up.
pub const MIN_QUERY_LEN: usize = 7;

/// The longest query that is looked up.
pub const MAX_QUERY_LEN: usize = 11;

/// A loaded database: the version tag, the blob of records and the index.
#[derive(Debug)]
pub struct PhoneData {
    version: String,
    records: Vec<u8>,
    index: Vec<Index>,
}

/// What a database holds, as plain mathematical values.
pub struct PhoneDataView {
    /// The four characters of the version tag.
    pub version: Seq<char>,
    /// The records, from the end of the header to the start of the index.
    pub records: Seq<u8>,
    /// The index slots in the order of the image.
    pub index: Seq<Index>,
}

/// The four fields of one record.
#[derive(Debug)]
pub struct Records {
    province: String,
    city: String,
    zip_code: String,
    area_code: String,
}

/// The four fields of one record, as plain mathematical values.
pub struct RecordsView {
    /// The province.
    pub province: Seq<char>,
    /// The city.
    pub city: Seq<char>,
    /// The postal code.
    pub zip_code: Seq<char>,
    /// The long-distance dialling code.
    pub area_code: Seq<char>,
}

/// The answer to a lookup: where a number belongs and who carries it.
#[derive(Debug)]
pub struct PhoneNoInfo {
    province: String,
    city: String,
    zip_code: String,
    area_code: String,
    card_type: String,
}

/// The answer to a lookup, as plain mathematical values.
pub struct PhoneNoInfoView {
    /// The province.
    pub province: Seq<char>,
    /// The city.
    pub city: Seq<char>,
    /// The postal code.
    pub zip_code: Seq<char>,
    /// The long-distance dialling code.
    pub area_code: Seq<char>,
    /// The name of the carrier.
    pub card_type: Seq<char>,
}

impl View for PhoneData {
    type V = PhoneDataView;

    closed spec fn view(&self) -> PhoneDataView {
        PhoneDataView { version: self.version@, records: self.records@, index: self.index@ }
    }
}

impl View for Records {
    type V = RecordsView;

    closed spec fn view(&self) -> RecordsView {
        RecordsView {
            province: self.province@,
            city: self.city@,
            zip_code: self.zip_code@,
            area_code: self.area_code@,
        }
    }
}

impl View for PhoneNoInfo {
    type V = PhoneNoInfoView;

    closed spec fn view(&self) -> PhoneNoInfoView {
        PhoneNoInfoView {
            province: self.province@,
            city: self.city@,
            zip_code: self.zip_code@,
            area_code: self.area_code@,
            card_type: self.card_type@,
        }
    }
}

/// The position in the image at which the index starts, as the header gives it.
pub open spec fn image_index_offset(data: Seq<u8>) -> int {
    le_i32(data.subrange(4, 8))
}

/// The image can be loaded: it holds a header whose tag is text and whose
/// index position lies behind the header and within the image.
pub open spec fn image_loads(data: Seq<u8>) -> bool {
    &&& data.len() >= 8
    &&& valid_utf8(data.subrange(0, 4))
    &&& 8 <= image_index_offset(data) <= data.len()
}

/// The index slot that the nine bytes at `pos` of the image stand for.
pub open spec fn image_entry(data: Seq<u8>, pos: int) -> Index {
    Index {
        phone_no_prefix: le_i32(data.subrange(pos, pos + 4)) as i32,
        records_offset: le_i32(data.subrange(pos + 4, pos + 8)) as i32,
        card_type: data[pos + 8],
    }
}

/// The number of whole index slots in the image; bytes behind the last whole
/// slot are not part of the index.
pub open spec fn image_index_len(data: Seq<u8>) -> nat {
    ((data.len() - image_index_offset(data)) / 9) as nat
}

/// The database that a loadable image stands for.
pub open spec fn image_view(data: Seq<u8>) -> PhoneDataView {
    PhoneDataView {
        version: decode_utf8(data.subrange(0, 4)),
        records: data.subrange(8, image_index_offset(data)),
        index: Seq::new(
            image_index_len(data),
            |i: int| image_entry(data, image_index_offset(data) + 9 * i),
        ),
    }
}

/// What loading an image gives: the database it stands for, or the refusal of
/// an image that cannot be loaded.
pub open spec fn load(data: Seq<u8>) -> Result<PhoneDataView, ErrorKind> {
    if image_loads(data) {
        Ok(image_view(data))
    } else {
        Err(ErrorKind::InvalidPhoneDatabase)
    }
}

/// The bytes of the record at `offset` of the image: from there up to the
/// first zero byte, or to the end of the records where none follows.
pub open spec fn record_bytes(records: Seq<u8>, offset: int) -> Seq<u8> {
    let tail = records.skip(offset - 8);
    tail.take(first_index_of(tail, 0u8))
}

/// The record at `offset` of the image, where `records` are the bytes behind
/// the eight-byte header: its bytes decoded as UTF-8 and cut at every `|`,
/// which must give four fields.
pub open spec fn record_at(records: Seq<u8>, offset: int) -> Option<RecordsView> {
    if offset < 8 || offset - 8 > records.len() {
        None
    } else {
        match text_of(record_bytes(records, offset)) {
            None => None,
            Some(text) => {
                let fields = split_on(text, '|');
                if fields.len() == 4 {
                    Some(
                        RecordsView {
                            province: fields[0],
                            city: fields[1],
                            zip_code: fields[2],
                            area_code: fields[3],
                        },
                    )
                } else {
                    None
                }
            },
        }
    }
}

/// What the slot found for a query resolves to: its record and the name of
/// its carrier, or the reason why there is none.
pub open spec fn resolve(records: Seq<u8>, entry: Index) -> Result<PhoneNoInfoView, ErrorKind> {
    match record_at(records, entry.records_offset as int) {
        None => Err(ErrorKind::InvalidPhoneDatabase),
        Some(record) => match CardType::of_code(entry.card_type) {
            None => Err(ErrorKind::InvalidOpNo),
            Some(card) => Ok(
                PhoneNoInfoView {
                    province: record.province,
                    city: record.city,
                    zip_code: record.zip_code,
                    area_code: record.area_code,
                    card_type: card.description(),
                },
            ),
        },
    }
}

/// The answer that a database gives to a query of the given bytes.
pub open spec fn lookup(db: PhoneDataView, number: Seq<u8>) -> Result<PhoneNoInfoView, ErrorKind> {
    if number.len() < 7 || number.len() > 11 {
        Err(ErrorKind::InvalidLength)
    } else {
        match parse_decimal(number.take(7)) {
            None => Err(ErrorKind::InvalidPhoneDatabase),
            Some(prefix) => match probe(db.index, prefix as i32) {
                None => Err(ErrorKind::NotFound),
                Some(slot) => resolve(db.records, db.index[slot]),
            },
        }
    }
}

impl PhoneData {
    /// Reads up to four bytes as a little-endian signed 32-bit integer: byte
    /// `i` contributes its value shifted left by `8 * i` bits.
    pub fn four_u8_to_i32(s: &[u8]) -> (ret: i32)
        requires
            s@.len() <= 4,
        ensures
            ret as int == le_i32(s@),
    {
        let mut ret: i32 = 0;
        let mut i: usize = 0;
        while i < s.len()
            invariant
                i <= s@.len() <= 4,
                i < 4 ==> 0 <= ret < 0x100_0000,
                i == 0 ==> ret == 0,
                i == 1 ==> ret as int == byte_at(s@, 0),
                i == 2 ==> ret as int == byte_at(s@, 0) + 0x100 * byte_at(s@, 1),
                i == 3 ==> ret as int == byte_at(s@, 0) + 0x100 * byte_at(s@, 1) + 0x1_0000 * byte_at(s@, 2),
                i == 4 ==> ret as int == le_i32(s@),
            decreases s@.len() - i,
        {
            let v: i32 = s[i] as i32;
            proof {
                lemma_shifted_byte(v, i);
            }
            ret = ret + (v << (8 * i));
            i = i + 1;
        }
        ret
    }

    /// Loads a database from the bytes of its image.
    ///
    /// The index is taken in the order of the image and is not sorted again.
    /// Bytes behind the last whole index slot are passed over.
    pub fn from_bytes(data: &[u8]) -> (r: Result<PhoneData, ErrorKind>)
        ensures
            match load(data@) {
                Ok(view) => r matches Ok(db) && db@ == view,
                Err(kind) => r matches Err(e) && e == kind,
            },
    {
        let len = data.len();
        if len < HEADER_LEN {
            return Err(ErrorKind::InvalidPhoneDatabase);
        }
        let version = match decode_text(slice_to_vec(slice_subrange(data, 0, 4))) {
            Some(version) => version,
            None => {
                return Err(ErrorKind::InvalidPhoneDatabase);
            },
        };
        let index_offset = Self::four_u8_to_i32(slice_subrange(data, 4, 8));
        if index_offset < 8 {
            return Err(ErrorKind::InvalidPhoneDatabase);
        }
        let index_offset = index_offset as usize;
        if index_offset > len {
            return Err(ErrorKind::InvalidPhoneDatabase);
        }
        let records = slice_to_vec(slice_subrange(data, HEADER_LEN, index_offset));
        let mut index: Vec<Index> = Vec::new();
        let mut pos: usize = index_offset;
        while len - pos >= INDEX_ITEM_LEN
            invariant
                len == data@.len(),
                index_offset as int == image_index_offset(data@),
                index_offset <= pos <= len,
                pos == index_offset + 9 * index@.len(),
                index@.len() <= image_index_len(data@),
                forall|i: int|
                    0 <= i < index@.len() ==> #[trigger] index@[i] == image_entry(
                        data@,
                        index_offset + 9 * i,
                    ),
            decreases len - pos,
        {
            let phone_no_prefix = Self::four_u8_to_i32(slice_subrange(data, pos, pos + 4));
            let records_offset = Self::four_u8_to_i32(slice_subrange(data, pos + 4, pos + 8));
            let card_type = data[pos + 8];
            assert((index@.len() + 1) * 9 <= len - index_offset);
            index.push(Index { phone_no_prefix, records_offset, card_type });
            pos = pos + INDEX_ITEM_LEN;
        }
        assert(index@ =~= image_view(data@).index);
        Ok(PhoneData { version, records, index })
    }

    /// Decodes the record that starts at `offset` of the image.
    ///
    /// An offset that lies in the header or behind the records is answered
    /// like a record that cannot be decoded.
    pub fn parse_to_record(&self, offset: usize) -> (r: Result<Records, ErrorKind>)
        ensures
            match record_at(self@.records, offset as int) {
                Some(record) => r matches Ok(found) && found@ == record,
                None => r matches Err(e) && e == ErrorKind::InvalidPhoneDatabase,
            },
    {
        let len = self.records.len();
        if offset < HEADER_LEN || offset - HEADER_LEN > len {
            return Err(ErrorKind::InvalidPhoneDatabase);
        }
        let tail = slice_subrange(self.records.as_slice(), offset - HEADER_LEN, len);
        assert(tail@ == self.records@.skip(offset - 8));
        assert(tail@.skip(0) == tail@);
        let end = find_byte(tail, 0, 0u8);
        let raw = slice_subrange(tail, 0, end);
        assert(raw@ == record_bytes(self@.records, offset as int));
        proof {
            lemma_split_decode(raw@);
        }
        let mut pieces = split_bytes(raw, BAR);
        if pieces.len() != 4 {
            return Err(ErrorKind::InvalidPhoneDatabase);
        }
        let ghost fields = split_on(raw@, BAR);
        let area_code = pieces.pop().unwrap();
        let zip_code = pieces.pop().unwrap();
        let city = pieces.pop().unwrap();
        let province = pieces.pop().unwrap();
        assert(province@ == fields[0] && city@ == fields[1] && zip_code@ == fields[2]
            && area_code@ == fields[3]);
        let province = match decode_text(province) {
            Some(text) => text,
            None => {
                return Err(ErrorKind::InvalidPhoneDatabase);
            },
        };
        let city = match decode_text(city) {
            Some(text) => text,
            None => {
                return Err(ErrorKind::InvalidPhoneDatabase);
            },
        };
        let zip_code = match decode_text(zip_code) {
            Some(text) => text,
            None => {
                return Err(ErrorKind::InvalidPhoneDatabase);
            },
        };
        let area_code = match decode_text(area_code) {
            Some(text) => text,
            None => {
                return Err(ErrorKind::InvalidPhoneDatabase);
            },
        };
        assert(pieces_valid(raw@)) by {
            assert forall|i: int| 0 <= i < fields.len() implies valid_utf8(#[trigger] fields[i]) by {
                assert(i == 0 || i == 1 || i == 2 || i == 3);
            }
        }
        assert(decoded_pieces(raw@)[0] == province@);
        assert(decoded_pieces(raw@)[1] == city@);
        assert(decoded_pieces(raw@)[2] == zip_code@);
        assert(decoded_pieces(raw@)[3] == area_code@);
        Ok(Records { province, city, zip_code, area_code })
    }

    /// Looks a phone number up by its first seven digits.
    ///
    /// `no` must be 7 to 11 bytes long and start with a decimal number of
    /// seven bytes. The index is searched by the stalling bisection of
    /// [`locate`]; the slot found gives the record and the carrier.
    pub fn find(&self, no: &str) -> (r: Result<PhoneNoInfo, ErrorKind>)
        ensures
            match lookup(self@, encode_utf8(no@)) {
                Ok(info) => r matches Ok(found) && found@ == info,
                Err(kind) => r matches Err(e) && e == kind,
            },
    {
        let number = no.as_bytes();
        let len = number.len();
        if len < MIN_QUERY_LEN || len > MAX_QUERY_LEN {
            return Err(ErrorKind::InvalidLength);
        }
        let no = match parse_number(slice_subrange(number, 0, MIN_QUERY_LEN)) {
            Some(no) => no,
            None => {
                return Err(ErrorKind::InvalidPhoneDatabase);
            },
        };
        let slot = match locate(&self.index, no) {
            Some(slot) => slot,
            None => {
                return Err(ErrorKind::NotFound);
            },
        };
        proof {
            lemma_probe_sound(self.index@, no);
        }
        let entry = self.index[slot];
        if entry.records_offset < 8 {
            return Err(ErrorKind::InvalidPhoneDatabase);
        }
        let record = match self.parse_to_record(entry.records_offset as usize) {
            Ok(record) => record,
            Err(e) => {
                return Err(e);
            },
        };
        let card_type = match CardType::from_u8(entry.card_type) {
            Ok(card_type) => card_type,
            Err(e) => {
                return Err(e);
            },
        };
        Ok(
            PhoneNoInfo {
                province: record.province,
                city: record.city,
                zip_code: record.zip_code,
                area_code: record.area_code,
                card_type: card_type.get_description(),
            },
        )
    }
}

impl PhoneData {
    /// A database of the given parts, taken as they are.
    pub fn from_parts(version: String, records: Vec<u8>, index: Vec<Index>) -> (db: PhoneData)
        ensures
            db@ == (PhoneDataView { version: version@, records: records@, index: index@ }),
    {
        PhoneData { version, records, index }
    }

    /// The version tag of the image.
    pub fn version(&self) -> (r: &String)
        ensures
            r@ == self@.version,
    {
        &self.version
    }

    /// The records, from the end of the header to the start of the index.
    pub fn records(&self) -> (r: &Vec<u8>)
        ensures
            r@ == self@.records,
    {
        &self.records
    }

    /// The index slots in the order of the image.
    pub fn index(&self) -> (r: &Vec<Index>)
        ensures
            r@ == self@.index,
    {
        &self.index
    }
}

impl Records {
    /// A record of the given fields.
    pub fn new(province: String, city: String, zip_code: String, area_code: String) -> (record:
        Records)
        ensures
            record@ == (RecordsView {
                province: province@,
                city: city@,
                zip_code: zip_code@,
                area_code: area_code@,
            }),
    {
        Records { province, city, zip_code, area_code }
    }

    /// The province.
    pub fn province(&self) -> (r: &String)
        ensures
            r@ == self@.province,
    {
        &self.province
    }

    /// The city.
    pub fn city(&self) -> (r: &String)
        ensures
            r@ == self@.city,
    {
        &self.city
    }

    /// The postal code.
    pub fn zip_code(&self) -> (r: &String)
        ensures
            r@ == self@.zip_code,
    {
        &self.zip_code
    }

    /// The long-distance dialling code.
    pub fn area_code(&self) -> (r: &String)
        ensures
            r@ == self@.area_code,
    {
        &self.area_code
    }
}

impl PhoneNoInfo {
    /// An answer of the given fields.
    pub fn new(
        province: String,
        city: String,
        zip_code: String,
        area_code: String,
        card_type: String,
    ) -> (info: PhoneNoInfo)
        ensures
            info@ == (PhoneNoInfoView {
                province: province@,
                city: city@,
                zip_code: zip_code@,
                area_code: area_code@,
                card_type: card_type@,
            }),
    {
        PhoneNoInfo { province, city, zip_code, area_code, card_type }
    }

    /// The province.
    pub fn province(&self) -> (r: &String)
        ensures
            r@ == self@.province,
    {
        &self.province
    }

    /// The city.
    pub fn city(&self) -> (r: &String)
        ensures
            r@ == self@.city,
    {
        &self.city
    }

    /// The postal code.
    pub fn zip_code(&self) -> (r: &String)
        ensures
            r@ == self@.zip_code,
    {
        &self.zip_code
    }

    /// The long-distance dialling code.
    pub fn area_code(&self) -> (r: &String)
        ensures
            r@ == self@.area_code,
    {
        &self.area_code
    }

    /// The name of the carrier.
    pub fn card_type(&self) -> (r: &String)
        ensures
            r@ == self@.card_type,
    {
        &self.card_type
    }
}

} // verus!
