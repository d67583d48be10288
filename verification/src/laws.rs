//! What holds of every bounding box text and of every command line.

use crate::args::{
    built, ground_level_of, scale_of, timeout_of, typed, ArgsView, CommandLineView, LocationView,
};
use crate::scale::lemma_default_scale_is_a_number;
use crate::bbox::{
    bounding_box_of, corners_are_valid, field_text, field_value, is_bounding_box, lemma_zero_text,
    split_on, BoundingBoxError, Coordinates, LATITUDE_BOUND, LONGITUDE_BOUND,
};
use crate::literal::{digit_run, is_non_finite_word, lemma_digit_run, number_of, sign_len};
use crate::number::Number;
use vstd::prelude::*;

verus! {

/// Whether `s` holds no comma.
pub open spec fn comma_free(s: Seq<char>) -> bool {
    forall|i: int| 0 <= i < s.len() ==> #[trigger] s[i] != ','
}

/// How many commas `s` holds.
pub open spec fn comma_count(s: Seq<char>) -> nat
    decreases s.len(),
{
    if s.len() == 0 {
        0
    } else {
        comma_count(s.drop_last()) + if s.last() == ',' {
            1nat
        } else {
            0nat
        }
    }
}

/// A text has one field more than it has commas.
pub proof fn lemma_field_count(s: Seq<char>)
    ensures
        split_on(s, ',').len() == comma_count(s) + 1,
    decreases s.len(),
{
    if s.len() > 0 {
        lemma_field_count(s.drop_last());
    }
}

/// Text without a comma, put behind `s`, lengthens the last field of `s`.
pub proof fn lemma_split_append(s: Seq<char>, t: Seq<char>)
    requires
        comma_free(t),
    ensures
        split_on(s + t, ',') == split_on(s, ',').drop_last().push(split_on(s, ',').last() + t),
    decreases t.len(),
{
    let fields = split_on(s, ',');
    lemma_field_count(s);
    if t.len() == 0 {
        assert(s + t =~= s);
        assert(fields.last() + t =~= fields.last());
        assert(fields.drop_last().push(fields.last()) =~= fields);
    } else {
        let t0 = t.drop_last();
        assert((s + t).drop_last() =~= s + t0);
        lemma_split_append(s, t0);
        let before = split_on(s + t0, ',');
        assert(before.last().push(t.last()) =~= fields.last() + t);
        assert(before.drop_last() =~= fields.drop_last());
    }
}

/// A comma put behind `s` opens a new, empty field.
pub proof fn lemma_split_comma(s: Seq<char>)
    ensures
        split_on(s + seq![','], ',') == split_on(s, ',').push(Seq::<char>::empty()),
{
    assert((s + seq![',']).drop_last() =~= s);
}

/// Four texts without a comma, joined by commas, are the four fields of the
/// text that they make.
pub proof fn lemma_split_joined(a: Seq<char>, b: Seq<char>, c: Seq<char>, d: Seq<char>)
    requires
        comma_free(a),
        comma_free(b),
        comma_free(c),
        comma_free(d),
    ensures
        split_on(a + seq![','] + b + seq![','] + c + seq![','] + d, ',') == seq![a, b, c, d],
{
    let comma = seq![','];
    let e = Seq::<char>::empty();
    lemma_split_append(e, a);
    assert(e + a =~= a);
    assert(split_on(e, ',') =~= seq![e]);
    assert(split_on(a, ',') =~= seq![a]);
    lemma_split_comma(a);
    lemma_split_append(a + comma, b);
    assert(e + b =~= b);
    assert(split_on(a + comma + b, ',') =~= seq![a, b]);
    lemma_split_comma(a + comma + b);
    lemma_split_append(a + comma + b + comma, c);
    assert(e + c =~= c);
    assert(split_on(a + comma + b + comma + c, ',') =~= seq![a, b, c]);
    lemma_split_comma(a + comma + b + comma + c);
    lemma_split_append(a + comma + b + comma + c + comma, d);
    assert(e + d =~= d);
    assert(split_on(a + comma + b + comma + c + comma + d, ',') =~= seq![a, b, c, d]);
}

/// Four texts without a comma, joined by commas, hold a bounding box
/// exactly where the numbers that they stand for are the corners of one.
pub proof fn lemma_joined_corners(a: Seq<char>, b: Seq<char>, c: Seq<char>, d: Seq<char>)
    requires
        comma_free(a),
        comma_free(b),
        comma_free(c),
        comma_free(d),
    ensures
        is_bounding_box(a + seq![','] + b + seq![','] + c + seq![','] + d) == corners_are_valid(
            field_value(a),
            field_value(b),
            field_value(c),
            field_value(d),
        ),
{
    lemma_split_joined(a, b, c, d);
}

/// Four numbers, written one after the other with commas between them, are
/// accepted where both longitudes are between -180 and 180, both latitudes
/// between -90 and 90, and each minimum is below its maximum.
pub proof fn lemma_ordered_corners_are_accepted(
    a: Seq<char>,
    b: Seq<char>,
    c: Seq<char>,
    d: Seq<char>,
)
    requires
        number_of(a) is Some,
        number_of(b) is Some,
        number_of(c) is Some,
        number_of(d) is Some,
        number_of(a)->Some_0.within(Number::integer(LONGITUDE_BOUND as int)),
        number_of(c)->Some_0.within(Number::integer(LONGITUDE_BOUND as int)),
        number_of(b)->Some_0.within(Number::integer(LATITUDE_BOUND as int)),
        number_of(d)->Some_0.within(Number::integer(LATITUDE_BOUND as int)),
        number_of(a)->Some_0.lt(number_of(c)->Some_0),
        number_of(b)->Some_0.lt(number_of(d)->Some_0),
    ensures
        is_bounding_box(a + seq![','] + b + seq![','] + c + seq![','] + d),
{
    lemma_number_is_comma_free(a);
    lemma_number_is_comma_free(b);
    lemma_number_is_comma_free(c);
    lemma_number_is_comma_free(d);
    lemma_joined_corners(a, b, c, d);
}

/// Four numbers, written one after the other with commas between them, are
/// rejected where a minimum is at least its maximum, in range or not.
pub proof fn lemma_unordered_corners_are_rejected(
    a: Seq<char>,
    b: Seq<char>,
    c: Seq<char>,
    d: Seq<char>,
)
    requires
        number_of(a) is Some,
        number_of(b) is Some,
        number_of(c) is Some,
        number_of(d) is Some,
        number_of(c)->Some_0.le(number_of(a)->Some_0) || number_of(d)->Some_0.le(
            number_of(b)->Some_0,
        ),
    ensures
        !is_bounding_box(a + seq![','] + b + seq![','] + c + seq![','] + d),
{
    lemma_number_is_comma_free(a);
    lemma_number_is_comma_free(b);
    lemma_number_is_comma_free(c);
    lemma_number_is_comma_free(d);
    lemma_joined_corners(a, b, c, d);
}

/// A text that does not hold four fields is rejected. It holds four fields
/// exactly where it holds three commas.
pub proof fn lemma_wrong_field_count_is_rejected(s: Seq<char>)
    requires
        split_on(s, ',').len() != 4,
    ensures
        !is_bounding_box(s),
        bounding_box_of(s) == Err::<Coordinates, BoundingBoxError>(BoundingBoxError::FieldCount),
        comma_count(s) != 3,
{
    lemma_field_count(s);
}

/// A text holds a bounding box exactly where reading it gives one.
pub proof fn lemma_valid_iff_read(s: Seq<char>)
    ensures
        is_bounding_box(s) <==> bounding_box_of(s) is Ok,
        bounding_box_of(s) matches Ok(c) ==> c.is_valid(),
{
    let f = split_on(s, ',');
    if f.len() == 4 {
        lemma_field_text(f[0]);
        lemma_field_text(f[1]);
        lemma_field_text(f[2]);
        lemma_field_text(f[3]);
    }
}

/// Text within the grammar of numbers holds no comma.
pub proof fn lemma_number_is_comma_free(s: Seq<char>)
    requires
        number_of(s) is Some,
    ensures
        comma_free(s),
{
    let start = sign_len(s);
    if is_non_finite_word(s.skip(start)) {
        reveal_strlit("inf");
        reveal_strlit("INF");
        reveal_strlit("infinity");
        reveal_strlit("INFINITY");
        reveal_strlit("nan");
        reveal_strlit("NAN");
        let w = s.skip(start);
        assert forall|i: int| 0 <= i < s.len() implies #[trigger] s[i] != ',' by {
            if i >= start {
                assert(s[i] == w[i - start]);
            }
        }
    } else {
        lemma_digit_run(s, start);
        let int_end = start + digit_run(s, start);
        let frac_start = if int_end < s.len() && s[int_end] == '.' {
            int_end + 1
        } else {
            int_end
        };
        lemma_digit_run(s, frac_start);
        let frac_end = frac_start + digit_run(s, frac_start);
        let ints = s.subrange(start, int_end);
        let fracs = s.subrange(frac_start, frac_end);
        assert forall|i: int| 0 <= i < s.len() implies #[trigger] s[i] != ',' by {
            if start <= i < int_end {
                assert(s[i] == ints[i - start]);
            } else if frac_start <= i < frac_end {
                assert(s[i] == fracs[i - frac_start]);
            } else if i > frac_end {
                let x = s.skip(frac_end + 1);
                let xd = x.skip(sign_len(x));
                assert(s[i] == x[i - frac_end - 1]);
                if i - frac_end - 1 >= sign_len(x) {
                    assert(x[i - frac_end - 1] == xd[i - frac_end - 1 - sign_len(x)]);
                }
            }
        }
    }
}

/// The text that is kept for a field is within the grammar, holds no comma,
/// denotes the number of the field, and is kept as it is when read again.
pub proof fn lemma_field_text(field: Seq<char>)
    ensures
        number_of(field_text(field)) is Some,
        comma_free(field_text(field)),
        field_value(field_text(field)) == field_value(field),
        field_text(field_text(field)) == field_text(field),
{
    lemma_zero_text();
    lemma_number_is_comma_free(field_text(field));
}

/// Reading the text of a bounding box that was read gives the same
/// bounding box again.
pub proof fn lemma_bounding_box_reads_back(s: Seq<char>)
    requires
        bounding_box_of(s) is Ok,
    ensures
        bounding_box_of(bounding_box_of(s)->Ok_0.text()) == bounding_box_of(s),
{
    let f = split_on(s, ',');
    let c = bounding_box_of(s)->Ok_0;
    lemma_field_text(f[0]);
    lemma_field_text(f[1]);
    lemma_field_text(f[2]);
    lemma_field_text(f[3]);
    lemma_split_joined(c.min_lng, c.min_lat, c.max_lng, c.max_lat);
}

/// A command line that names both a bounding box and a file is refused,
/// and so is one that names neither. One that names exactly one of them
/// and a path, with every value of its type, is accepted; the arguments it
/// gives name that one location.
pub proof fn lemma_location_is_exclusive(line: CommandLineView)
    ensures
        line.bbox is Some && line.file is Some ==> typed(line) is Err,
        line.bbox is None && line.file is None ==> typed(line) is Err,
        ({
            &&& (line.bbox is Some) != (line.file is Some)
            &&& line.path is Some
            &&& scale_of(line.scale) is Ok
            &&& ground_level_of(line.ground_level) is Ok
            &&& timeout_of(line.timeout) is Ok
        }) ==> typed(line) is Ok,
        typed(line) matches Ok(args) ==> {
            &&& (args.bbox is Some) != (args.file is Some)
            &&& args.bbox == line.bbox
            &&& args.file == line.file
        },
{
}

/// The arguments of a command line that is accepted hold a scale that is a
/// number, and the path and the downloader that were given.
pub proof fn lemma_typed_values(line: CommandLineView)
    requires
        typed(line) is Ok,
    ensures
        number_of(typed(line)->Ok_0.scale) is Some,
        line.path == Some(typed(line)->Ok_0.path),
        line.downloader is Some ==> line.downloader == Some(typed(line)->Ok_0.downloader),
{
    lemma_default_scale_is_a_number();
}

/// Arguments that name both a bounding box and a file give no
/// configuration, nor do arguments that name neither; a configuration holds
/// the one location that its arguments name.
pub proof fn lemma_configuration_has_one_location(args: ArgsView, region_found: bool)
    ensures
        args.bbox is Some && args.file is Some ==> built(args, region_found) is Err,
        args.bbox is None && args.file is None ==> built(args, region_found) is Err,
        built(args, region_found) matches Ok(c) ==> match c.location {
            LocationView::BoundingBox(b) => {
                &&& args.file is None
                &&& args.bbox is Some
                &&& bounding_box_of(args.bbox->Some_0) == Ok::<Coordinates, BoundingBoxError>(b)
                &&& b.is_valid()
            },
            LocationView::FilePath(f) => args.bbox is None && args.file == Some(f),
        },
{
    if args.bbox is Some {
        lemma_valid_iff_read(args.bbox->Some_0);
    }
}

/// The flags of a command line that is accepted: winter, terrain and debug
/// hold exactly where they are given, and the ground is filled exactly
/// where `fillground` is not given.
pub proof fn lemma_flags(line: CommandLineView)
    requires
        typed(line) is Ok,
    ensures
        typed(line)->Ok_0.winter == line.winter,
        typed(line)->Ok_0.terrain == line.terrain,
        typed(line)->Ok_0.debug == line.debug,
        typed(line)->Ok_0.fillground == !line.fillground,
{
}

/// No configuration is built where the path holds no region entry.
pub proof fn lemma_world_is_required(args: ArgsView)
    ensures
        built(args, false) is Err,
{
}

/// Validating again the arguments that say what a configuration holds gives
/// the same configuration.
pub proof fn lemma_configuration_builds_back(args: ArgsView, region_found: bool)
    requires
        built(args, region_found) is Ok,
    ensures
        built(built(args, region_found)->Ok_0.arguments(), region_found) == built(
            args,
            region_found,
        ),
{
    if args.bbox is Some {
        lemma_bounding_box_reads_back(args.bbox->Some_0);
    }
}

} // verus!
