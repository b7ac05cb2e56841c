//! A compact, versioned, self-describing binary object format.
//!
//! Every encodable type states, as spec functions, the bytes it writes, the
//! value it decodes from a byte sequence and the size it reports; the
//! executable readers and writers are proved against those statements, and
//! the format's laws (round trip, size fidelity, header and map checks) are
//! proved over them in `laws`.
mod bytes;
mod compression;
mod containers;
mod error;
mod header;
mod laws;
mod map;
mod meta_key;
mod num;
mod object;
mod set;
mod tags;
mod time;
mod value;

pub use bytes::ReadWithSize;
pub use compression::{
    parse_descriptor, CompressionTypes, GzipCompressionType, NoCompression, ZStdCompressionType,
};
pub use containers::{
    items_continue, items_encode, items_parse, items_read_size, items_size, items_well_formed,
    items_writable, lemma_items_encode_front, lemma_items_parse_encode, lemma_items_parse_facts,
    lemma_items_size, lemma_items_size_mono, read_items_size, sizes_continue, write_items,
};
pub use error::{is_size_allowed, EncodingError, OtherError, MAX_PREFIXED_LEN};
pub use header::{
    put_zeros, spec_magic, zeros, FileSections, ObjectHeader, CURRENT_VERSION, HEADER_SIZE,
    MAGIC_VALUE,
};
pub use laws::{
    is_value_key, lemma_header_invalid_magic, lemma_header_round_trip,
    lemma_header_unsupported_version, lemma_round_trip, lemma_size_fidelity, lemma_tags_find,
    lemma_tags_round_trip, lemma_tags_too_many, lemma_typed_map_key_mismatch,
    lemma_typed_map_value_mismatch, lemma_value_keys_distinct, lemma_value_leading_key,
    lemma_value_unknown_key,
};
pub use map::TypedMap;
pub use meta_key::{header_name_of, MetaKey, MetadataMap};
pub use object::{
    const_size_matches, lemma_len_prefix, lemma_prefix_of_append, lemma_prefix_trans,
    lemma_rest_skip, put_bytes, read_matches, rest_at, size_matches, spec_len_prefix,
    spec_prefix_len, write_matches, ConstTypedObjectType, ReadableObjectType, TuxIOType,
    TypedObjectType, WritableObjectType,
};
pub use set::{
    add_item, from_items, items_unique, lemma_add_item_unique, lemma_from_items_unique_id,
    ValueSet,
};
pub use tags::{
    entries_within, entry_insert, entry_position, from_pairs, has_key, insert_entry, key_index, keys_unique,
    lemma_entries_within_both, lemma_find_encoded, lemma_from_pairs_unique_id, lemma_insert_unique, lemma_key_index,
    lemma_lookup_skip_first, lemma_remove_unique, lookup, read_entries, remove_entry, spec_find,
    spec_find_in, TagKeyType, Tags,
};
pub use time::{
    raw_date_of, raw_time_of, raw_zone_of, ChronoError, RawDate, RawDateTime, RawTime, RawTimeZone,
};
pub use value::{same_bytes, spec_variant_key, RawUuid, ValueType, ValueView};
