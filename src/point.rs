use vstd::prelude::*;

use crate::entries::{
    entries_map, insert_entry, keys_ascending, lemma_entries_same_map,
};
use crate::escape::{
    escape_spec, EscapedFieldKey, EscapedMeasurement, EscapedTagKey, EscapedTagValue,
    Measurement, TagKey,
};
use crate::field::FieldValue;
use crate::text::{decimal, push_char, push_decimal};

verus! {

/// The tags as they stand in a line: `,key=value` for each, in order.
pub open spec fn tags_text(s: Seq<(EscapedTagKey, EscapedTagValue)>) -> Seq<char>
    decreases s.len(),
{
    if s.len() == 0 {
        Seq::empty()
    } else {
        tags_text(s.drop_last()) + seq![','] + escape_spec::<TagKey>(s.last().0@) + seq!['=']
            + escape_spec::<TagKey>(s.last().1@)
    }
}

/// The fields as they stand in a line: a space before the first, a comma
/// before each other, then `key=value`.
pub open spec fn fields_text(s: Seq<(EscapedFieldKey, FieldValue)>) -> Seq<char>
    decreases s.len(),
{
    if s.len() == 0 {
        Seq::empty()
    } else {
        let sep = if s.len() == 1 { ' ' } else { ',' };
        fields_text(s.drop_last()) + seq![sep] + escape_spec::<TagKey>(s.last().0@) + seq!['=']
            + s.last().1.text()
    }
}

/// The timestamp as it ends a line: a space and its decimal digits, or
/// nothing.
pub open spec fn timestamp_text(t: Option<i64>) -> Seq<char> {
    match t {
        Some(v) => seq![' '] + decimal(v as int),
        None => Seq::empty(),
    }
}

/// Incrementally constructs a `DataPoint`.
///
/// Create this via `DataPoint::builder`.
#[derive(Debug)]
pub struct DataPointBuilder {
    measurement: EscapedMeasurement,
    tags: Vec<(EscapedTagKey, EscapedTagValue)>,
    fields: Vec<(EscapedFieldKey, FieldValue)>,
    timestamp: Option<i64>,
}

/// Errors that occur while building `DataPoint`s
#[derive(Debug)]
pub enum DataPointError {
    /// Returned when calling `build` on a `DataPointBuilder` that has no fields.
    AtLeastOneFieldRequired {
        /// The current state of the `DataPointBuilder`
        data_point_builder: DataPointBuilder,
    },
}

/// A single point of information to send to InfluxDB.
#[derive(Debug)]
pub struct DataPoint {
    measurement: EscapedMeasurement,
    tags: Vec<(EscapedTagKey, EscapedTagValue)>,
    fields: Vec<(EscapedFieldKey, FieldValue)>,
    timestamp: Option<i64>,
}

/// Tags with the same raw keys and values, position by position, read the
/// same.
proof fn lemma_tags_text_same(
    s: Seq<(EscapedTagKey, EscapedTagValue)>,
    t: Seq<(EscapedTagKey, EscapedTagValue)>,
)
    requires
        s.len() == t.len(),
        forall|i: int| 0 <= i < s.len() ==> #[trigger] s[i].0@ == t[i].0@ && s[i].1 == t[i].1,
    ensures
        tags_text(s) == tags_text(t),
    decreases s.len(),
{
    if s.len() > 0 {
        assert(s.last().0@ == t.last().0@ && s.last().1 == t.last().1);
        assert forall|i: int| 0 <= i < s.drop_last().len() implies #[trigger] s.drop_last()[i].0@
            == t.drop_last()[i].0@ && s.drop_last()[i].1 == t.drop_last()[i].1 by {
            assert(s.drop_last()[i] == s[i] && t.drop_last()[i] == t[i]);
        }
        lemma_tags_text_same(s.drop_last(), t.drop_last());
    }
}

/// Fields with the same raw keys and values, position by position, read the
/// same.
proof fn lemma_fields_text_same(
    s: Seq<(EscapedFieldKey, FieldValue)>,
    t: Seq<(EscapedFieldKey, FieldValue)>,
)
    requires
        s.len() == t.len(),
        forall|i: int| 0 <= i < s.len() ==> #[trigger] s[i].0@ == t[i].0@ && s[i].1 == t[i].1,
    ensures
        fields_text(s) == fields_text(t),
    decreases s.len(),
{
    if s.len() > 0 {
        assert(s.last().0@ == t.last().0@ && s.last().1 == t.last().1);
        assert forall|i: int| 0 <= i < s.drop_last().len() implies #[trigger] s.drop_last()[i].0@
            == t.drop_last()[i].0@ && s.drop_last()[i].1 == t.drop_last()[i].1 by {
            assert(s.drop_last()[i] == s[i] && t.drop_last()[i] == t[i]);
        }
        lemma_fields_text_same(s.drop_last(), t.drop_last());
    }
}

/// The line of a point depends on its measurement, the maps of its tags and
/// fields, and its timestamp alone: in whatever order tags and fields were
/// set, they are written ascending by raw key.
pub proof fn lemma_line_determined_by_maps(a: &DataPoint, b: &DataPoint)
    requires
        a.wf(),
        b.wf(),
        a.spec_measurement() == b.spec_measurement(),
        a.tag_map() == b.tag_map(),
        a.field_map() == b.field_map(),
        a.spec_timestamp() == b.spec_timestamp(),
    ensures
        a.line() == b.line(),
{
    lemma_entries_same_map(a.spec_tags(), b.spec_tags());
    lemma_entries_same_map(a.spec_fields(), b.spec_fields());
    lemma_tags_text_same(a.spec_tags(), b.spec_tags());
    lemma_fields_text_same(a.spec_fields(), b.spec_fields());
}

impl DataPointBuilder {
    /// The raw measurement name.
    pub closed spec fn spec_measurement(&self) -> Seq<char> {
        self.measurement@
    }

    /// The tags, ascending by raw key.
    pub closed spec fn spec_tags(&self) -> Seq<(EscapedTagKey, EscapedTagValue)> {
        self.tags@
    }

    /// The fields, ascending by raw key.
    pub closed spec fn spec_fields(&self) -> Seq<(EscapedFieldKey, FieldValue)> {
        self.fields@
    }

    /// The timestamp, if one was set.
    pub closed spec fn spec_timestamp(&self) -> Option<i64> {
        self.timestamp
    }

    /// The tags, as a map from raw key to value.
    pub open spec fn tag_map(&self) -> Map<Seq<char>, EscapedTagValue> {
        entries_map(self.spec_tags())
    }

    /// The fields, as a map from raw key to value.
    pub open spec fn field_map(&self) -> Map<Seq<char>, FieldValue> {
        entries_map(self.spec_fields())
    }

    /// Tags and fields are held ascending by raw key, each key once.
    pub open spec fn wf(&self) -> bool {
        keys_ascending(self.spec_tags()) && keys_ascending(self.spec_fields())
    }

    fn new(measurement: EscapedMeasurement) -> (r: Self)
        ensures
            r.wf(),
            r.spec_measurement() == measurement@,
            r.spec_tags().len() == 0,
            r.spec_fields().len() == 0,
            r.spec_timestamp() is None,
    {
        DataPointBuilder {
            measurement,
            tags: Vec::new(),
            fields: Vec::new(),
            timestamp: None,
        }
    }

    /// Sets a tag, replacing any existing tag of the same name.
    pub fn tag(self, name: EscapedTagKey, value: EscapedTagValue) -> (r: Self)
        requires
            self.wf(),
        ensures
            r.wf(),
            r.tag_map() == self.tag_map().insert(name@, value),
            r.spec_measurement() == self.spec_measurement(),
            r.spec_fields() == self.spec_fields(),
            r.spec_timestamp() == self.spec_timestamp(),
    {
        let mut this = self;
        insert_entry(&mut this.tags, name, value);
        this
    }

    /// Sets a field, replacing any existing field of the same name.
    pub fn field(self, name: EscapedFieldKey, value: FieldValue) -> (r: Self)
        requires
            self.wf(),
        ensures
            r.wf(),
            r.field_map() == self.field_map().insert(name@, value),
            r.spec_measurement() == self.spec_measurement(),
            r.spec_tags() == self.spec_tags(),
            r.spec_timestamp() == self.spec_timestamp(),
    {
        let mut this = self;
        insert_entry(&mut this.fields, name, value);
        this
    }

    /// Sets the timestamp, replacing any existing timestamp.
    ///
    /// The value is treated as the number of nanoseconds since the
    /// UNIX epoch.
    pub fn timestamp(self, value: i64) -> (r: Self)
        requires
            self.wf(),
        ensures
            r.wf(),
            r.spec_timestamp() == Some(value),
            r.spec_measurement() == self.spec_measurement(),
            r.spec_tags() == self.spec_tags(),
            r.spec_fields() == self.spec_fields(),
    {
        let mut this = self;
        this.timestamp = Some(value);
        this
    }

    /// Constructs the data point; fails when no field was set.
    pub fn build(self) -> (r: Result<DataPoint, DataPointError>)
        requires
            self.wf(),
        ensures
            r is Err <==> self.spec_fields().len() == 0,
            r matches Err(DataPointError::AtLeastOneFieldRequired { data_point_builder }) ==> (
            data_point_builder == self),
            r matches Ok(p) ==> {
                &&& p.wf()
                &&& p.spec_measurement() == self.spec_measurement()
                &&& p.spec_tags() == self.spec_tags()
                &&& p.spec_fields() == self.spec_fields()
                &&& p.spec_timestamp() == self.spec_timestamp()
            },
    {
        if self.fields.len() == 0 {
            return Err(DataPointError::AtLeastOneFieldRequired { data_point_builder: self });
        }
        let DataPointBuilder { measurement, tags, fields, timestamp } = self;
        Ok(DataPoint { measurement, tags, fields, timestamp })
    }
}

impl DataPoint {
    /// The raw measurement name.
    pub closed spec fn spec_measurement(&self) -> Seq<char> {
        self.measurement@
    }

    /// The tags, ascending by raw key.
    pub closed spec fn spec_tags(&self) -> Seq<(EscapedTagKey, EscapedTagValue)> {
        self.tags@
    }

    /// The fields, ascending by raw key.
    pub closed spec fn spec_fields(&self) -> Seq<(EscapedFieldKey, FieldValue)> {
        self.fields@
    }

    /// The timestamp, if one was set.
    pub closed spec fn spec_timestamp(&self) -> Option<i64> {
        self.timestamp
    }

    /// The tags, as a map from raw key to value.
    pub open spec fn tag_map(&self) -> Map<Seq<char>, EscapedTagValue> {
        entries_map(self.spec_tags())
    }

    /// The fields, as a map from raw key to value.
    pub open spec fn field_map(&self) -> Map<Seq<char>, FieldValue> {
        entries_map(self.spec_fields())
    }

    /// Tags and fields are held ascending by raw key, each key once, and
    /// there is at least one field.
    pub open spec fn wf(&self) -> bool {
        &&& keys_ascending(self.spec_tags())
        &&& keys_ascending(self.spec_fields())
        &&& self.spec_fields().len() > 0
    }

    /// The point in line protocol.
    pub open spec fn line(&self) -> Seq<char> {
        escape_spec::<Measurement>(self.spec_measurement()) + tags_text(self.spec_tags())
            + fields_text(self.spec_fields()) + timestamp_text(self.spec_timestamp())
    }

    /// Create a builder to incrementally construct a `DataPoint`.
    pub fn builder(measurement: EscapedMeasurement) -> (r: DataPointBuilder)
        ensures
            r.wf(),
            r.spec_measurement() == measurement@,
            r.tag_map() == Map::<Seq<char>, EscapedTagValue>::empty(),
            r.field_map() == Map::<Seq<char>, FieldValue>::empty(),
            r.spec_timestamp() is None,
    {
        let r = DataPointBuilder::new(measurement);
        proof {
            assert(r.tag_map() =~= Map::<Seq<char>, EscapedTagValue>::empty());
            assert(r.field_map() =~= Map::<Seq<char>, FieldValue>::empty());
        }
        r
    }

    /// The point in line protocol: the measurement, the tags, the fields and
    /// the timestamp, each escaped for its position, with no line ending.
    pub fn line_protocol(&self) -> (r: String)
        ensures
            r@ == self.line(),
    {
        let mut out = String::new();
        self.measurement.render_into(&mut out);
        let ghost head = out@;
        let mut i: usize = 0;
        while i < self.tags.len()
            invariant
                i <= self.tags@.len(),
                out@ == head + tags_text(self.tags@.take(i as int)),
            decreases self.tags@.len() - i,
        {
            proof {
                assert(self.tags@.take(i + 1).drop_last() =~= self.tags@.take(i as int));
            }
            let ghost before = out@;
            push_char(&mut out, ',');
            self.tags[i].0.render_into(&mut out);
            push_char(&mut out, '=');
            self.tags[i].1.render_into(&mut out);
            proof {
                assert(out@ =~= head + tags_text(self.tags@.take(i + 1)));
            }
            i += 1;
        }
        proof {
            assert(self.tags@.take(self.tags@.len() as int) =~= self.tags@);
        }
        let ghost mid = out@;
        let mut j: usize = 0;
        while j < self.fields.len()
            invariant
                j <= self.fields@.len(),
                out@ == mid + fields_text(self.fields@.take(j as int)),
            decreases self.fields@.len() - j,
        {
            proof {
                assert(self.fields@.take(j + 1).drop_last() =~= self.fields@.take(j as int));
            }
            if j == 0 {
                push_char(&mut out, ' ');
            } else {
                push_char(&mut out, ',');
            }
            self.fields[j].0.render_into(&mut out);
            push_char(&mut out, '=');
            self.fields[j].1.render_into(&mut out);
            proof {
                assert(out@ =~= mid + fields_text(self.fields@.take(j + 1)));
            }
            j += 1;
        }
        proof {
            assert(self.fields@.take(self.fields@.len() as int) =~= self.fields@);
        }
        match self.timestamp {
            Some(ts) => {
                push_char(&mut out, ' ');
                push_decimal(&mut out, ts);
            },
            None => {},
        }
        proof {
            assert(out@ =~= self.line());
        }
        out
    }
}

} // verus!
