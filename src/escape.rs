use std::cmp::Ordering;
use std::marker::PhantomData;
use vstd::prelude::*;

use crate::order::{compare_keys, key_lt};
use crate::text::push_char;

verus! {

/// Says which characters must be escaped in one position of a line.
pub trait EscapingSpecification {
    /// Whether `c` is a delimiter of this position.
    spec fn is_delimiter(c: char) -> bool;

    /// Tells whether `c` is a delimiter of this position.
    fn delimits(c: char) -> (r: bool)
        ensures
            r == Self::is_delimiter(c),
    ;
}

/// Rules to escape a measurement name: `,` and space.
#[derive(Debug, Copy, Clone)]
pub struct Measurement(());

/// Rules to escape a tag key, tag value or field key: `,`, `=` and space.
#[derive(Debug, Copy, Clone)]
pub struct TagKey(());

/// Rules to escape a field value string: `"`.
#[derive(Debug, Copy, Clone)]
pub struct FieldValueString(());

impl EscapingSpecification for Measurement {
    open spec fn is_delimiter(c: char) -> bool {
        c == ',' || c == ' '
    }

    fn delimits(c: char) -> (r: bool) {
        c == ',' || c == ' '
    }
}

impl EscapingSpecification for TagKey {
    open spec fn is_delimiter(c: char) -> bool {
        c == ',' || c == '=' || c == ' '
    }

    fn delimits(c: char) -> (r: bool) {
        c == ',' || c == '=' || c == ' '
    }
}

impl EscapingSpecification for FieldValueString {
    open spec fn is_delimiter(c: char) -> bool {
        c == '"'
    }

    fn delimits(c: char) -> (r: bool) {
        c == '"'
    }
}

/// The escaped form of `s` under the rules of `K`: each delimiter of `K` is
/// preceded by a backslash, every other character is kept as it is.
pub open spec fn escape_spec<K: EscapingSpecification>(s: Seq<char>) -> Seq<char>
    decreases s.len(),
{
    if s.len() == 0 {
        Seq::empty()
    } else {
        let front = escape_spec::<K>(s.drop_last());
        if K::is_delimiter(s.last()) {
            front + seq!['\\', s.last()]
        } else {
            front.push(s.last())
        }
    }
}

/// Escaping leaves a string that holds no delimiter of `K` as it is.
pub proof fn lemma_escape_without_delimiters<K: EscapingSpecification>(s: Seq<char>)
    requires
        forall|i: int| 0 <= i < s.len() ==> !K::is_delimiter(#[trigger] s[i]),
    ensures
        escape_spec::<K>(s) == s,
    decreases s.len(),
{
    if s.len() > 0 {
        assert(!K::is_delimiter(s[s.len() - 1]));
        lemma_escape_without_delimiters::<K>(s.drop_last());
        assert(s.drop_last().push(s.last()) =~= s);
    }
}

/// A string that is escaped according to the rules of `K` when it is
/// rendered. It holds the raw text; equality and order are those of the raw
/// text.
#[derive(Debug)]
pub struct Escaped<K>(Vec<char>, PhantomData<K>);

/// A string that will be escaped according to the rules of measurements
pub type EscapedMeasurement = Escaped<Measurement>;

/// A string that will be escaped according to the rules of tag keys
pub type EscapedTagKey = Escaped<TagKey>;

/// A string that will be escaped according to the rules of tag values
pub type EscapedTagValue = Escaped<TagKey>;

/// A string that will be escaped according to the rules of field keys
pub type EscapedFieldKey = Escaped<TagKey>;

/// A string that will be escaped according to the rules of field value strings
pub type EscapedFieldValueString = Escaped<FieldValueString>;

impl<K> View for Escaped<K> {
    type V = Seq<char>;

    /// The raw, unescaped text.
    closed spec fn view(&self) -> Seq<char> {
        self.0@
    }
}

impl<K> Escaped<K> {
    /// Wraps the raw text `s`; nothing is escaped yet.
    pub fn new(s: &str) -> (r: Self)
        ensures
            r@ == s@,
    {
        let mut raw: Vec<char> = Vec::new();
        for c in it: s.chars()
            invariant
                raw@ == it.seq().take(it.index() as int),
                it.seq() == s@,
        {
            raw.push(c);
            proof {
                assert(it.seq().take(it.index() + 1) =~= it.seq().take(it.index() as int).push(c));
            }
        }
        proof {
            assert(s@.take(s@.len() as int) =~= s@);
        }
        Escaped(raw, PhantomData)
    }

    /// The raw text, one character at a time.
    pub(crate) fn raw(&self) -> (r: &Vec<char>)
        ensures
            r@ == self@,
    {
        &self.0
    }
}

impl<K: EscapingSpecification> Escaped<K> {
    /// Appends the escaped text to `out`.
    pub(crate) fn render_into(&self, out: &mut String)
        ensures
            final(out)@ == old(out)@ + escape_spec::<K>(self@),
    {
        let ghost start = out@;
        let mut i: usize = 0;
        while i < self.0.len()
            invariant
                i <= self.0@.len(),
                out@ == start + escape_spec::<K>(self.0@.take(i as int)),
            decreases self.0@.len() - i,
        {
            let c = self.0[i];
            proof {
                assert(self.0@.take(i + 1).drop_last() =~= self.0@.take(i as int));
            }
            if K::delimits(c) {
                push_char(out, '\\');
            }
            push_char(out, c);
            i += 1;
        }
        proof {
            assert(self.0@.take(self.0@.len() as int) =~= self.0@);
        }
    }

    /// The escaped text.
    pub fn to_string(&self) -> (r: String)
        ensures
            r@ == escape_spec::<K>(self@),
    {
        let mut out = String::new();
        self.render_into(&mut out);
        out
    }
}

impl<K> Clone for Escaped<K> {
    fn clone(&self) -> Self {
        Escaped(self.0.clone(), PhantomData)
    }
}

impl<K> PartialEq for Escaped<K> {
    fn eq(&self, other: &Self) -> (r: bool) {
        match compare_keys(&self.0, &other.0) {
            Ordering::Equal => true,
            _ => false,
        }
    }
}

impl<K> vstd::std_specs::cmp::PartialEqSpecImpl for Escaped<K> {
    open spec fn obeys_eq_spec() -> bool {
        true
    }

    open spec fn eq_spec(&self, other: &Self) -> bool {
        self@ == other@
    }
}

impl<K> Eq for Escaped<K> {}

impl<K> PartialOrd for Escaped<K> {
    fn partial_cmp(&self, other: &Self) -> (r: Option<Ordering>) {
        Some(compare_keys(&self.0, &other.0))
    }
}

impl<K> vstd::std_specs::cmp::PartialOrdSpecImpl for Escaped<K> {
    open spec fn obeys_partial_cmp_spec() -> bool {
        true
    }

    open spec fn partial_cmp_spec(&self, other: &Self) -> Option<Ordering> {
        if key_lt(self@, other@) {
            Some(Ordering::Less)
        } else if self@ == other@ {
            Some(Ordering::Equal)
        } else {
            Some(Ordering::Greater)
        }
    }
}

impl<K> From<&str> for Escaped<K> {
    fn from(other: &str) -> Self {
        Escaped::new(other)
    }
}

impl<K> vstd::std_specs::convert::FromSpecImpl<&str> for Escaped<K> {
    open spec fn obeys_from_spec() -> bool {
        false
    }

    open spec fn from_spec(v: &str) -> Self {
        arbitrary()
    }
}

impl<K> From<String> for Escaped<K> {
    fn from(other: String) -> Self {
        Escaped::new(other.as_str())
    }
}

impl<K> vstd::std_specs::convert::FromSpecImpl<String> for Escaped<K> {
    open spec fn obeys_from_spec() -> bool {
        false
    }

    open spec fn from_spec(v: String) -> Self {
        arbitrary()
    }
}

} // verus!
