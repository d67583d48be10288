//! Bounding boxes: four coordinates in one text, separated by commas, in the
//! order minimum longitude, minimum latitude, maximum longitude, maximum
//! latitude.

use crate::decimal::Decimal;
use crate::digits::lemma_value_zeros;
use crate::literal::{digit_run, number_of, read_number, Literal};
use crate::number::Number;
use crate::text::chars_of;
use vstd::prelude::*;
use vstd::string::{StrSliceExecFns, StringExecFns};

verus! {

/// The largest magnitude of a longitude, in degrees.
pub const LONGITUDE_BOUND: u8 = 180;

/// The largest magnitude of a latitude, in degrees.
pub const LATITUDE_BOUND: u8 = 90;

/// The pieces of `s` between one occurrence of `sep` and the next. A text
/// without `sep` is one piece, the empty text too.
pub open spec fn split_on(s: Seq<char>, sep: char) -> Seq<Seq<char>>
    decreases s.len(),
{
    if s.len() == 0 {
        seq![Seq::<char>::empty()]
    } else {
        let before = split_on(s.drop_last(), sep);
        if s.last() == sep {
            before.push(Seq::<char>::empty())
        } else {
            before.drop_last().push(before.last().push(s.last()))
        }
    }
}

/// The number that a field stands for: what its text denotes, and zero where
/// the text is outside the grammar.
pub open spec fn field_value(field: Seq<char>) -> Number {
    match number_of(field) {
        Some(n) => n,
        None => Number::integer(0),
    }
}

/// The text that is kept for a field: the field itself, and `0` where the
/// field is outside the grammar.
pub open spec fn field_text(field: Seq<char>) -> Seq<char> {
    if number_of(field) is Some {
        field
    } else {
        "0"@
    }
}

/// Why a text is no bounding box.
#[derive(Clone, Copy, Debug, PartialEq, Eq, Structural)]
pub enum BoundingBoxError {
    /// The text does not hold four fields.
    FieldCount,
    /// A longitude is not between -180 and 180.
    LongitudeOutOfRange,
    /// A latitude is not between -90 and 90.
    LatitudeOutOfRange,
    /// A minimum is not below its maximum.
    NotOrdered,
}

/// The four coordinates of a bounding box, each as decimal text.
pub struct Coordinates {
    pub min_lng: Seq<char>,
    pub min_lat: Seq<char>,
    pub max_lng: Seq<char>,
    pub max_lat: Seq<char>,
}

/// Whether four numbers are the corners of a bounding box: longitudes
/// between -180 and 180, latitudes between -90 and 90, each minimum below
/// its maximum.
pub open spec fn corners_are_valid(
    min_lng: Number,
    min_lat: Number,
    max_lng: Number,
    max_lat: Number,
) -> bool {
    &&& min_lng.within(Number::integer(LONGITUDE_BOUND as int))
    &&& max_lng.within(Number::integer(LONGITUDE_BOUND as int))
    &&& min_lat.within(Number::integer(LATITUDE_BOUND as int))
    &&& max_lat.within(Number::integer(LATITUDE_BOUND as int))
    &&& min_lng.lt(max_lng)
    &&& min_lat.lt(max_lat)
}

/// The first rule that four numbers break as corners of a bounding box, if
/// they break one.
pub open spec fn corners_rejection(
    min_lng: Number,
    min_lat: Number,
    max_lng: Number,
    max_lat: Number,
) -> Option<BoundingBoxError> {
    if !min_lng.within(Number::integer(LONGITUDE_BOUND as int)) || !max_lng.within(
        Number::integer(LONGITUDE_BOUND as int),
    ) {
        Some(BoundingBoxError::LongitudeOutOfRange)
    } else if !min_lat.within(Number::integer(LATITUDE_BOUND as int)) || !max_lat.within(
        Number::integer(LATITUDE_BOUND as int),
    ) {
        Some(BoundingBoxError::LatitudeOutOfRange)
    } else if !(min_lng.lt(max_lng) && min_lat.lt(max_lat)) {
        Some(BoundingBoxError::NotOrdered)
    } else {
        None
    }
}

impl Coordinates {
    /// Whether every coordinate is text within the grammar, and the four
    /// numbers are the corners of a bounding box.
    pub open spec fn is_valid(self) -> bool {
        &&& number_of(self.min_lng) is Some
        &&& number_of(self.min_lat) is Some
        &&& number_of(self.max_lng) is Some
        &&& number_of(self.max_lat) is Some
        &&& corners_are_valid(
            field_value(self.min_lng),
            field_value(self.min_lat),
            field_value(self.max_lng),
            field_value(self.max_lat),
        )
    }

    /// The four coordinates in one text, separated by commas.
    pub open spec fn text(self) -> Seq<char> {
        self.min_lng + seq![','] + self.min_lat + seq![','] + self.max_lng + seq![',']
            + self.max_lat
    }
}

/// The bounding box that the text `s` holds, or the reason why it holds none.
pub open spec fn bounding_box_of(s: Seq<char>) -> Result<Coordinates, BoundingBoxError> {
    let fields = split_on(s, ',');
    if fields.len() != 4 {
        Err(BoundingBoxError::FieldCount)
    } else {
        match corners_rejection(
            field_value(fields[0]),
            field_value(fields[1]),
            field_value(fields[2]),
            field_value(fields[3]),
        ) {
            Some(e) => Err(e),
            None => Ok(
                Coordinates {
                    min_lng: field_text(fields[0]),
                    min_lat: field_text(fields[1]),
                    max_lng: field_text(fields[2]),
                    max_lat: field_text(fields[3]),
                },
            ),
        }
    }
}

/// Whether the text `s` holds a bounding box: four fields, whose numbers are
/// the corners of one.
pub open spec fn is_bounding_box(s: Seq<char>) -> bool {
    let fields = split_on(s, ',');
    &&& fields.len() == 4
    &&& corners_are_valid(
        field_value(fields[0]),
        field_value(fields[1]),
        field_value(fields[2]),
        field_value(fields[3]),
    )
}

/// The text `0` denotes zero.
pub proof fn lemma_zero_text()
    ensures
        number_of("0"@) == Some(Number::integer(0)),
{
    reveal_strlit("0");
    reveal_strlit("inf");
    reveal_strlit("infinity");
    reveal_strlit("nan");
    let s = "0"@;
    assert(s.len() == 1 && s[0] == '0');
    reveal_with_fuel(digit_run, 3);
    assert(digit_run(s, 0) == 1);
    assert(digit_run(s, 1) == 0);
    assert(s.subrange(0, 1) + s.subrange(1, 1) =~= s);
    lemma_value_zeros(s);
}

/// The places where the fields of `v` start and end.
fn field_spans(v: &Vec<char>) -> (spans: Vec<(usize, usize)>)
    ensures
        spans.len() == split_on(v@, ',').len(),
        forall|k: int|
            0 <= k < spans.len() ==> {
                &&& (#[trigger] spans[k]).0 <= spans[k].1 <= v.len()
                &&& v@.subrange(spans[k].0 as int, spans[k].1 as int) == split_on(v@, ',')[k]
            },
{
    let mut spans: Vec<(usize, usize)> = Vec::new();
    let mut start: usize = 0;
    let mut i: usize = 0;
    assert(v@.take(0) =~= Seq::<char>::empty());
    assert(v@.subrange(0, 0) =~= Seq::<char>::empty());
    while i < v.len()
        invariant
            start <= i <= v.len(),
            spans.len() + 1 == split_on(v@.take(i as int), ',').len(),
            forall|k: int|
                0 <= k < spans.len() ==> {
                    &&& (#[trigger] spans[k]).0 <= spans[k].1 <= v.len()
                    &&& v@.subrange(spans[k].0 as int, spans[k].1 as int) == split_on(
                        v@.take(i as int),
                        ',',
                    )[k]
                },
            v@.subrange(start as int, i as int) == split_on(v@.take(i as int), ',').last(),
        decreases v.len() - i,
    {
        assert(v@.take(i + 1).drop_last() =~= v@.take(i as int));
        if v[i] == ',' {
            spans.push((start, i));
            start = i + 1;
            assert(v@.subrange(start as int, start as int) =~= Seq::<char>::empty());
        } else {
            assert(v@.subrange(start as int, i + 1) =~= v@.subrange(start as int, i as int).push(
                v@[i as int],
            ));
        }
        i = i + 1;
    }
    assert(v@.take(v.len() as int) =~= v@);
    spans.push((start, i));
    spans
}

/// A bounding box: four coordinates, each kept as decimal text, that are the
/// corners of a box on the globe.
#[derive(Debug)]
pub struct BoundingBox {
    min_lng: String,
    min_lat: String,
    max_lng: String,
    max_lat: String,
}

impl View for BoundingBox {
    type V = Coordinates;

    closed spec fn view(&self) -> Coordinates {
        Coordinates {
            min_lng: self.min_lng@,
            min_lat: self.min_lat@,
            max_lng: self.max_lng@,
            max_lat: self.max_lat@,
        }
    }
}

impl Clone for BoundingBox {
    fn clone(&self) -> (r: BoundingBox)
        ensures
            r@ == self@,
    {
        proof {
            use_type_invariant(self);
        }
        BoundingBox {
            min_lng: self.min_lng.clone(),
            min_lat: self.min_lat.clone(),
            max_lng: self.max_lng.clone(),
            max_lat: self.max_lat.clone(),
        }
    }
}

/// Reads the field of `text` between `lo` and `hi`: the text that is kept
/// for it, and its number.
fn read_field(text: &str, lo: usize, hi: usize) -> (r: (String, Literal))
    requires
        lo <= hi <= text@.len(),
    ensures
        r.0@ == field_text(text@.subrange(lo as int, hi as int)),
        r.1@ == field_value(text@.subrange(lo as int, hi as int)),
        number_of(r.0@) == Some(r.1@),
{
    let field = text.substring_char(lo, hi);
    let chars = chars_of(field);
    match read_number(&chars) {
        Some(l) => (String::from_str(field), l),
        None => {
            proof {
                lemma_zero_text();
            }
            (String::from_str("0"), Literal::Finite(Decimal::zero()))
        },
    }
}

impl BoundingBox {
    #[verifier::type_invariant]
    spec fn wf(&self) -> bool {
        self@.is_valid()
    }

    /// Reads a bounding box from text of the form
    /// `min_lng,min_lat,max_lng,max_lat`. A field that is outside the
    /// grammar of numbers counts as zero.
    pub fn parse(text: &str) -> (r: Result<BoundingBox, BoundingBoxError>)
        ensures
            match r {
                Ok(b) => bounding_box_of(text@) == Ok::<Coordinates, BoundingBoxError>(b@) && b@.is_valid(),
                Err(e) => bounding_box_of(text@) == Err::<Coordinates, BoundingBoxError>(e),
            },
    {
        let v = chars_of(text);
        let spans = field_spans(&v);
        if spans.len() != 4 {
            return Err(BoundingBoxError::FieldCount);
        }
        let (min_lng_text, min_lng) = read_field(text, spans[0].0, spans[0].1);
        let (min_lat_text, min_lat) = read_field(text, spans[1].0, spans[1].1);
        let (max_lng_text, max_lng) = read_field(text, spans[2].0, spans[2].1);
        let (max_lat_text, max_lat) = read_field(text, spans[3].0, spans[3].1);
        let lng_bound = Decimal::whole(LONGITUDE_BOUND);
        let lat_bound = Decimal::whole(LATITUDE_BOUND);
        if !min_lng.within(&lng_bound) || !max_lng.within(&lng_bound) {
            return Err(BoundingBoxError::LongitudeOutOfRange);
        }
        if !min_lat.within(&lat_bound) || !max_lat.within(&lat_bound) {
            return Err(BoundingBoxError::LatitudeOutOfRange);
        }
        if !(min_lng.lt(&max_lng) && min_lat.lt(&max_lat)) {
            return Err(BoundingBoxError::NotOrdered);
        }
        Ok(
            BoundingBox {
                min_lng: min_lng_text,
                min_lat: min_lat_text,
                max_lng: max_lng_text,
                max_lat: max_lat_text,
            },
        )
    }

    /// The minimum longitude, as decimal text.
    pub fn min_lng(&self) -> (t: &str)
        ensures
            t@ == self@.min_lng,
            self@.is_valid(),
    {
        proof {
            use_type_invariant(self);
        }
        self.min_lng.as_str()
    }

    /// The minimum latitude, as decimal text.
    pub fn min_lat(&self) -> (t: &str)
        ensures
            t@ == self@.min_lat,
            self@.is_valid(),
    {
        proof {
            use_type_invariant(self);
        }
        self.min_lat.as_str()
    }

    /// The maximum longitude, as decimal text.
    pub fn max_lng(&self) -> (t: &str)
        ensures
            t@ == self@.max_lng,
            self@.is_valid(),
    {
        proof {
            use_type_invariant(self);
        }
        self.max_lng.as_str()
    }

    /// The maximum latitude, as decimal text.
    pub fn max_lat(&self) -> (t: &str)
        ensures
            t@ == self@.max_lat,
            self@.is_valid(),
    {
        proof {
            use_type_invariant(self);
        }
        self.max_lat.as_str()
    }
}

/// Tells whether `bbox` holds a bounding box: four fields separated by
/// commas, longitudes between -180 and 180, latitudes between -90 and 90,
/// and each minimum below its maximum. A field that is outside the grammar
/// of numbers counts as zero.
pub fn validate_bounding_box(bbox: &str) -> (valid: bool)
    ensures
        valid == is_bounding_box(bbox@),
{
    BoundingBox::parse(bbox).is_ok()
}

} // verus!
