//! A typed encoder for the line protocol of InfluxDB 2.0: escaped names,
//! field values, a builder that checks a point's fields, and the renderer
//! that writes one point as one line.

mod entries;
mod escape;
mod field;
mod order;
mod point;
mod text;

pub use entries::{entries_map, has_key, key_index, keys_ascending};
pub use escape::{
    escape_spec, lemma_escape_without_delimiters, Escaped, EscapedFieldKey,
    EscapedFieldValueString, EscapedMeasurement, EscapedTagKey, EscapedTagValue,
    EscapingSpecification, FieldValueString, Measurement, TagKey,
};
pub use field::FieldValue;
pub use order::{key_lt, lemma_key_lt_irreflexive, lemma_key_lt_total, lemma_key_lt_transitive};
pub use point::{
    fields_text, lemma_line_determined_by_maps, tags_text, timestamp_text, DataPoint,
    DataPointBuilder, DataPointError,
};
pub use text::{decimal, digit_spec, digits};
