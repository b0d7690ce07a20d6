//! Reading the capture date-time and its offset out of an image's metadata.
//!
//! Several tags can carry the same information. Each family of tags is tried
//! in a fixed order and the first tag that is present gives the value; values
//! of different tags are never combined. A missing date-time is an error; a
//! missing offset is replaced by a default.

use exif::Exif;
use exif::In;
use exif::Reader;
use exif::Tag;
use vstd::prelude::*;
use vstd::string::StringExecFns;

use crate::error::TimestampError;
use crate::offset::parse_offset;
use crate::offset::strip_quotes;
use crate::priority::first_found;
use crate::priority::first_some;
use crate::priority::lemma_first_some_is_earliest;
use crate::priority::lemma_first_some_none;
use crate::priority::lemma_first_some_of_texts;
use crate::priority::text_of;
use crate::timestamp::is_sort_key;
use crate::timestamp::normalized_key;
use crate::timestamp::parse_date_time;

verus! {

/// The tags that this crate reads, all of the primary image.
#[derive(Debug, Clone, Copy, PartialEq, Eq, Structural)]
pub enum MetadataTag {
    /// When the image was stored as digital data.
    DateTimeDigitized,
    /// When the picture was taken.
    DateTimeOriginal,
    /// When the file was last changed.
    DateTime,
    /// The offset that belongs to `DateTimeDigitized`.
    OffsetTimeDigitized,
    /// The offset that belongs to `DateTimeOriginal`.
    OffsetTimeOriginal,
    /// The offset that belongs to `DateTime`.
    OffsetTime,
}

/// A raw date-time and the offset that goes with it, as text.
#[derive(Debug, PartialEq, Eq)]
pub struct RawTimestamp {
    /// The local date-time, as the reader displays it.
    pub date_time: String,
    /// The offset from UTC, without surrounding quotes.
    pub offset: String,
}

/// The date-time tags, most trusted first.
pub open spec fn date_time_priority() -> Seq<MetadataTag> {
    seq![MetadataTag::DateTimeDigitized, MetadataTag::DateTimeOriginal, MetadataTag::DateTime]
}

/// The offset tags, in the order of the date-time tags they belong to.
pub open spec fn offset_priority() -> Seq<MetadataTag> {
    seq![
        MetadataTag::OffsetTimeDigitized,
        MetadataTag::OffsetTimeOriginal,
        MetadataTag::OffsetTime,
    ]
}

/// What `fields` holds under `tag`, if anything.
pub open spec fn field_text(fields: Map<MetadataTag, Seq<char>>, tag: MetadataTag) -> Option<
    Seq<char>,
> {
    if fields.contains_key(tag) {
        Some(fields[tag])
    } else {
        None
    }
}

/// What `fields` holds under each of `tags`, in their order.
pub open spec fn candidates(fields: Map<MetadataTag, Seq<char>>, tags: Seq<MetadataTag>) -> Seq<
    Option<Seq<char>>,
> {
    Seq::new(tags.len(), |i: int| field_text(fields, tags[i]))
}

/// The value of the first of `tags` that `fields` holds.
pub open spec fn first_present(
    fields: Map<MetadataTag, Seq<char>>,
    tags: Seq<MetadataTag>,
) -> Option<Seq<char>> {
    first_some(candidates(fields, tags))
}

/// The offset to use: the one found, or else the default, in either case
/// without surrounding quotes.
pub open spec fn selected_offset(time_offset: Option<Seq<char>>, default_offset: Seq<char>) -> Seq<
    char,
> {
    strip_quotes(
        match time_offset {
            Some(found) => found,
            None => default_offset,
        },
    )
}

/// The raw date-time and offset that `fields` give.
pub open spec fn raw_timestamp_of(
    fields: Map<MetadataTag, Seq<char>>,
    default_offset: Seq<char>,
) -> Result<(Seq<char>, Seq<char>), TimestampError> {
    match first_present(fields, date_time_priority()) {
        Some(date_time) => Ok(
            (date_time, selected_offset(first_present(fields, offset_priority()), default_offset)),
        ),
        None => Err(TimestampError::MissingMetadata),
    }
}

/// The sort key that `fields` give.
pub open spec fn sort_key_of_fields(
    fields: Map<MetadataTag, Seq<char>>,
    default_offset: Seq<char>,
) -> Result<Seq<char>, TimestampError> {
    match raw_timestamp_of(fields, default_offset) {
        Ok((date_time, offset)) => match normalized_key(date_time, offset) {
            Some(key) => Ok(key),
            None => Err(TimestampError::MalformedTimestamp),
        },
        Err(e) => Err(e),
    }
}

/// The sort key of the image file `image`.
pub open spec fn sort_key_of(image: Seq<u8>, default_offset: Seq<char>) -> Result<
    Seq<char>,
    TimestampError,
> {
    match container_fields(image) {
        Some(fields) => sort_key_of_fields(fields, default_offset),
        None => Err(TimestampError::UnrecognizedContainer),
    }
}

/// A tag gives the value where it is present and every tag before it in
/// the list is absent, whatever follows it.
pub proof fn lemma_first_present_is_earliest(
    fields: Map<MetadataTag, Seq<char>>,
    tags: Seq<MetadataTag>,
    i: int,
)
    requires
        0 <= i < tags.len(),
        fields.contains_key(tags[i]),
        forall|j: int| 0 <= j < i ==> !fields.contains_key(tags[j]),
    ensures
        first_present(fields, tags) == Some(fields[tags[i]]),
{
    lemma_first_some_is_earliest(candidates(fields, tags), i);
}

/// There is no value exactly where none of the tags is present.
pub proof fn lemma_first_present_none(fields: Map<MetadataTag, Seq<char>>, tags: Seq<MetadataTag>)
    ensures
        first_present(fields, tags) is None <==> forall|j: int|
            0 <= j < tags.len() ==> !fields.contains_key(tags[j]),
{
    let found = candidates(fields, tags);
    lemma_first_some_none(found);
    if first_present(fields, tags) is None {
        assert forall|j: int| 0 <= j < tags.len() implies !fields.contains_key(tags[j]) by {
            assert(found[j] is None);
        }
    }
}

/// Where a date-time tag is present and no offset tag is, the offset is the
/// default one and nothing fails on account of the missing offset.
pub proof fn lemma_offset_defaults(fields: Map<MetadataTag, Seq<char>>, default_offset: Seq<char>)
    requires
        first_present(fields, date_time_priority()) is Some,
        forall|j: int|
            0 <= j < offset_priority().len() ==> !fields.contains_key(offset_priority()[j]),
    ensures
        raw_timestamp_of(fields, default_offset) == Ok::<_, TimestampError>(
            (first_present(fields, date_time_priority())->0, strip_quotes(default_offset)),
        ),
{
    lemma_first_present_none(fields, offset_priority());
}

/// kamadak-exif's parsed metadata of one image. Nothing of its inside is
/// known here but what `primary_fields` names.
#[verifier::external_type_specification]
#[verifier::external_body]
pub struct ExExif(Exif);

/// kamadak-exif's error for data that it cannot parse. It is only told
/// apart from success.
#[verifier::external_type_specification]
#[verifier::external_body]
pub struct ExExifError(exif::Error);

/// The fields of the primary image that `exif` holds under the tags of this
/// crate, each as the text that the reader displays for it.
pub uninterp spec fn primary_fields(exif: Exif) -> Map<MetadataTag, Seq<char>>;

/// The fields that the reader finds in the image file `image`; `None` where
/// it cannot read `image`.
pub uninterp spec fn container_fields(image: Seq<u8>) -> Option<Map<MetadataTag, Seq<char>>>;

/// Reads the metadata of an image held in memory with kamadak-exif's
/// `Reader::read_from_container`.
///
/// Trusted: the reader works on the bytes alone, so what it returns is
/// `container_fields` of them, with an error exactly where that is `None`.
#[verifier::external_body]
fn read_container(image: &[u8]) -> (metadata: Result<Exif, exif::Error>)
    ensures
        match metadata {
            Ok(exif) => container_fields(image@) == Some(primary_fields(exif)),
            Err(_) => container_fields(image@) is None,
        },
{
    Reader::new().read_from_container(&mut std::io::Cursor::new(image))
}

/// Looks `tag` up among the fields of the primary image with kamadak-exif's
/// `Exif::get_field`, and turns the field into text with `Value::display_as`.
///
/// Trusted: the result is what `primary_fields` holds under `tag`: the
/// text displayed for the field, or nothing where there is no such field.
#[verifier::external_body]
fn get_exif_field(exif: &Exif, tag: MetadataTag) -> (text: Option<String>)
    ensures
        text_of(text) == field_text(primary_fields(*exif), tag),
{
    let tag = match tag {
        MetadataTag::DateTimeDigitized => Tag::DateTimeDigitized,
        MetadataTag::DateTimeOriginal => Tag::DateTimeOriginal,
        MetadataTag::DateTime => Tag::DateTime,
        MetadataTag::OffsetTimeDigitized => Tag::OffsetTimeDigitized,
        MetadataTag::OffsetTimeOriginal => Tag::OffsetTimeOriginal,
        MetadataTag::OffsetTime => Tag::OffsetTime,
    };
    exif.get_field(tag, In::PRIMARY).map(|field| field.value.display_as(tag).to_string())
}

/// The date-time tags in the order in which they are tried.
pub fn date_time_tags() -> (tags: [MetadataTag; 3])
    ensures
        tags@ == date_time_priority(),
{
    [MetadataTag::DateTimeDigitized, MetadataTag::DateTimeOriginal, MetadataTag::DateTime]
}

/// The offset tags in the order in which they are tried.
pub fn offset_tags() -> (tags: [MetadataTag; 3])
    ensures
        tags@ == offset_priority(),
{
    [MetadataTag::OffsetTimeDigitized, MetadataTag::OffsetTimeOriginal, MetadataTag::OffsetTime]
}

/// Parses the metadata of an image file held in memory.
pub fn read_metadata(image: &[u8]) -> (metadata: Result<Exif, TimestampError>)
    ensures
        match metadata {
            Ok(exif) => container_fields(image@) == Some(primary_fields(exif)),
            Err(e) => e == TimestampError::UnrecognizedContainer && container_fields(image@)
                is None,
        },
{
    match read_container(image) {
        Ok(exif) => Ok(exif),
        Err(_) => Err(TimestampError::UnrecognizedContainer),
    }
}

/// Looks each of `tags` up in `exif`.
pub fn lookup_fields(exif: &Exif, tags: &[MetadataTag]) -> (found: Vec<Option<String>>)
    ensures
        found@.len() == tags@.len(),
        forall|i: int|
            0 <= i < tags@.len() ==> text_of(#[trigger] found@[i]) == field_text(
                primary_fields(*exif),
                tags@[i],
            ),
{
    let mut found: Vec<Option<String>> = Vec::new();
    let mut i: usize = 0;
    while i < tags.len()
        invariant
            i <= tags.len(),
            found@.len() == i,
            forall|j: int|
                0 <= j < i ==> text_of(#[trigger] found@[j]) == field_text(
                    primary_fields(*exif),
                    tags@[j],
                ),
        decreases tags.len() - i,
    {
        found.push(get_exif_field(exif, tags[i]));
        i += 1;
    }
    found
}

/// Returns the displayed value of the first of `tags` that `exif` holds.
pub fn get_next_best_exif_field(exif: &Exif, tags: &[MetadataTag]) -> (field: Option<String>)
    ensures
        text_of(field) == first_present(primary_fields(*exif), tags@),
{
    let found = lookup_fields(exif, tags);
    proof {
        lemma_first_some_of_texts(found@, candidates(primary_fields(*exif), tags@));
    }
    first_found(found.as_slice())
}

/// Chooses the raw date-time and offset among what the lookups gave:
/// `date_time` must be there, and a missing `time_offset` is replaced by
/// `default_timezone_offset`.
pub fn select_timestamp(
    date_time: Option<String>,
    time_offset: Option<String>,
    default_timezone_offset: &str,
) -> (raw: Result<RawTimestamp, TimestampError>)
    ensures
        match raw {
            Ok(r) => date_time == Some(r.date_time) && r.offset@ == selected_offset(
                text_of(time_offset),
                default_timezone_offset@,
            ),
            Err(e) => e == TimestampError::MissingMetadata && date_time is None,
        },
{
    let offset = match &time_offset {
        Some(found) => String::from_str(parse_offset(found.as_str())),
        None => String::from_str(parse_offset(default_timezone_offset)),
    };
    match date_time {
        Some(date_time) => Ok(RawTimestamp { date_time, offset }),
        None => Err(TimestampError::MissingMetadata),
    }
}

/// Finds the raw date-time and offset of an image in its metadata.
pub fn extract_timestamp(exif: &Exif, default_timezone_offset: &str) -> (raw: Result<
    RawTimestamp,
    TimestampError,
>)
    ensures
        match raw {
            Ok(r) => raw_timestamp_of(primary_fields(*exif), default_timezone_offset@) == Ok::<
                _,
                TimestampError,
            >((r.date_time@, r.offset@)),
            Err(e) => raw_timestamp_of(primary_fields(*exif), default_timezone_offset@) == Err::<
                (Seq<char>, Seq<char>),
                _,
            >(e),
        },
{
    let date_time_tags = date_time_tags();
    let offset_tags = offset_tags();
    let date_time = get_next_best_exif_field(exif, date_time_tags.as_slice());
    let time_offset = get_next_best_exif_field(exif, offset_tags.as_slice());
    select_timestamp(date_time, time_offset, default_timezone_offset)
}

/// Derives the sort key of an image file held in memory.
pub fn get_date_time(image: &[u8], default_timezone_offset: &str) -> (key: Result<
    String,
    TimestampError,
>)
    ensures
        match key {
            Ok(k) => sort_key_of(image@, default_timezone_offset@) == Ok::<_, TimestampError>(k@)
                && is_sort_key(k@),
            Err(e) => sort_key_of(image@, default_timezone_offset@) == Err::<Seq<char>, _>(e),
        },
{
    let exif = match read_metadata(image) {
        Ok(exif) => exif,
        Err(e) => {
            return Err(e);
        },
    };
    match extract_timestamp(&exif, default_timezone_offset) {
        Ok(raw) => parse_date_time(raw.date_time.as_str(), raw.offset.as_str()),
        Err(e) => Err(e),
    }
}

} // verus!
