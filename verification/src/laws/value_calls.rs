//! What calls on times, values, segments and descriptions give.

use crate::caps::{field_map, field_names, Caps, Field, FieldModel, FieldValue, Structure};
use crate::clock_time::{frame_at, frames_for_time, time_for_frame, time_of, ClockTime, Fraction};
use crate::format::{convert, converted, time_value, to_time, Format, FormattedValue};
use crate::segment::{Rate, Segment};
use vstd::prelude::*;

verus! {

/// Times and frames, as they are computed.
pub proof fn lemma_frames_and_times(
    time: ClockTime,
    frame: u64,
    framerate: Fraction,
    frames: u64,
    start: ClockTime,
)
    requires
        call_ensures(frames_for_time, (time, framerate), frames),
        call_ensures(time_for_frame, (frame, framerate), start),
    ensures
        frames == frame_at(time, framerate),
        start == time_of(frame, framerate),
{
}

/// Times are made of nanoseconds and milliseconds.
pub proof fn lemma_making_times(n: u64, m: u64, nanoseconds: ClockTime, milliseconds: ClockTime)
    requires
        call_ensures(ClockTime::from_nseconds, (n,), nanoseconds),
        call_ensures(ClockTime::from_mseconds, (m,), milliseconds),
    ensures
        nanoseconds.nseconds == n,
        milliseconds.nseconds == m * 1_000_000,
{
}

/// Fractions are compared as ratios, and are positive if both terms are.
pub proof fn lemma_comparing_fractions(a: Fraction, b: Fraction, same: bool, positive: bool)
    requires
        call_ensures(Fraction::same, (&a, &b), same),
        call_ensures(Fraction::is_positive, (&a,), positive),
    ensures
        same <==> a.numer * b.denom == b.numer * a.denom,
        positive <==> a.numer > 0 && a.denom > 0,
{
}

/// Values convert, and are read as times.
pub proof fn lemma_converting(
    source: FormattedValue,
    unit: Format,
    framerate: Fraction,
    value: Option<FormattedValue>,
    time: Option<Option<ClockTime>>,
)
    requires
        call_ensures(convert, (source, unit, framerate), value),
        call_ensures(to_time, (source,), time),
    ensures
        value == converted(source, unit, framerate),
        time == time_value(source),
{
}

/// The direction of a rate.
pub proof fn lemma_direction(rate: Rate, zero: bool, forward: bool, reverse: bool)
    requires
        call_ensures(Rate::is_zero, (&rate,), zero),
        call_ensures(Rate::is_forward, (&rate,), forward),
        call_ensures(Rate::is_reverse, (&rate,), reverse),
    ensures
        zero <==> rate.bits == 0 || rate.bits == 0x8000_0000_0000_0000,
        forward <==> rate.bits <= 0x7ff0_0000_0000_0000 || rate.bits == 0x8000_0000_0000_0000,
        reverse <==> 0x8000_0000_0000_0000 < rate.bits <= 0xfff0_0000_0000_0000,
{
}

/// Where a range overlaps a segment, with a stop or without one, clipping gives the later start and the
/// earlier stop, and nothing otherwise.
pub proof fn lemma_clipping(
    segment: Segment,
    from: ClockTime,
    to: ClockTime,
    start: ClockTime,
    clipped: Option<(ClockTime, ClockTime)>,
)
    requires
        call_ensures(Segment::clip, (&segment, from, to), clipped),
        segment.start == Some(start),
        segment.stop matches Some(stop) ==> start.nseconds < stop.nseconds,
        from.defined(),
        to.defined(),
        from.nseconds < to.nseconds,
    ensures
        clipped is Some <==> to.nseconds > start.nseconds && (segment.stop matches Some(stop)
            ==> from.nseconds < stop.nseconds),
        clipped matches Some((a, b)) ==> {
            &&& a.nseconds == (if from.nseconds > start.nseconds {
                from.nseconds
            } else {
                start.nseconds
            })
            &&& b.nseconds == (match segment.stop {
                Some(stop) => if to.nseconds < stop.nseconds {
                    to.nseconds
                } else {
                    stop.nseconds
                },
                None => to.nseconds,
            })
        },
{
}

/// Clipping of any range, and what a segment is.
pub proof fn lemma_segments(
    segment: Segment,
    from: ClockTime,
    to: ClockTime,
    clipped: Option<(ClockTime, ClockTime)>,
    flag: bool,
    new: Segment,
)
    requires
        call_ensures(Segment::clip, (&segment, from, to), clipped),
        call_ensures(Segment::has_segment_flag, (&segment,), flag),
        call_ensures(Segment::new, (), new),
    ensures
        clipped == segment.clipped(from, to),
        flag <==> segment.flags & 8 == 8,
        new == Segment::initial(),
{
}

/// A new structure has its name and features and no fields.
pub proof fn lemma_new_structure(name: &str, features: &str, structure: Structure)
    requires
        call_ensures(Structure::new, (name, features), structure),
    ensures
        structure@.name == name@,
        structure@.features == features@,
        structure@.names.len() == 0,
        structure@.fields == Map::<Seq<char>, FieldModel>::empty(),
{
}

/// What is set in a structure is read from it, as a value and as a text, and the other fields stay.
pub proof fn lemma_set_and_get(
    structure: &mut Structure,
    name: &str,
    value: FieldValue,
    other: &str,
    read: Option<&FieldValue>,
    text: Option<&str>,
    before: Option<&FieldValue>,
    after: Option<&FieldValue>,
)
    requires
        call_ensures(Structure::set, (structure, name, value), ()),
        call_ensures(Structure::get, (final(structure), name), read),
        call_ensures(Structure::get_text, (final(structure), name), text),
        call_ensures(Structure::get, (&*old(structure), other), before),
        call_ensures(Structure::get, (final(structure), other), after),
        other@ != name@,
    ensures
        read matches Some(found) && found@ == value@,
        text is Some <==> value@ is Text,
        text matches Some(found) ==> value@ == FieldModel::Text(found@),
        after is Some <==> before is Some,
        after is Some ==> after->0@ == before->0@,
        final(structure)@.name == old(structure)@.name,
        final(structure)@.features == old(structure)@.features,
        old(structure)@.names.contains(name@) ==> final(structure)@.names == old(structure)@.names,
        !old(structure)@.names.contains(name@) ==> final(structure)@.names == old(
            structure,
        )@.names.push(name@),
{
}

/// What is removed from a structure is not read any more, and the other fields stay.
pub proof fn lemma_remove_and_get(
    structure: &mut Structure,
    name: &str,
    other: &str,
    read: Option<&FieldValue>,
    before: Option<&FieldValue>,
    after: Option<&FieldValue>,
)
    requires
        call_ensures(Structure::remove_field, (structure, name), ()),
        call_ensures(Structure::get, (final(structure), name), read),
        call_ensures(Structure::get, (&*old(structure), other), before),
        call_ensures(Structure::get, (final(structure), other), after),
        other@ != name@,
    ensures
        read is None,
        after is Some <==> before is Some,
        after is Some ==> after->0@ == before->0@,
        final(structure)@.name == old(structure)@.name,
        final(structure)@.features == old(structure)@.features,
        final(structure)@.names == old(structure)@.names.remove_value(name@),
{
}

/// A structure tells its name, its features and its fields, and an equal one tells the same.
pub proof fn lemma_reading_a_structure(
    structure: Structure,
    name: &str,
    features: &str,
    fields: &Vec<Field>,
    copy: Structure,
    value: FieldValue,
    value_copy: FieldValue,
    text: &str,
    text_value: FieldValue,
)
    requires
        call_ensures(Structure::name, (&structure,), name),
        call_ensures(Structure::features, (&structure,), features),
        call_ensures(Structure::fields, (&structure,), fields),
        call_ensures(Structure::duplicate, (&structure,), copy),
        call_ensures(FieldValue::duplicate, (&value,), value_copy),
        call_ensures(FieldValue::text, (text,), text_value),
    ensures
        name@ == structure@.name,
        features@ == structure@.features,
        field_names(fields@) == structure@.names,
        field_map(fields@) == structure@.fields,
        copy@ == structure@,
        value_copy@ == value@,
        text_value@ == FieldModel::Text(text@),
{
}

/// A description grows by the structures that are appended, and tells what is in it.
pub proof fn lemma_descriptions(
    any: bool,
    new: Caps,
    caps: &mut Caps,
    structure: Structure,
    size: usize,
    is_any: bool,
    index: usize,
    read: &Structure,
    copy: Caps,
)
    requires
        call_ensures(Caps::new, (any,), new),
        call_ensures(Caps::append_structure, (caps, structure), ()),
        call_ensures(Caps::size, (&*old(caps),), size),
        call_ensures(Caps::is_any, (&*old(caps),), is_any),
        call_ensures(Caps::structure, (final(caps), index), read),
        call_ensures(Caps::duplicate, (&*old(caps),), copy),
    ensures
        new@.any == any,
        new@.structures.len() == 0,
        final(caps)@.any == old(caps)@.any,
        final(caps)@.structures == old(caps)@.structures.push(structure@),
        size == old(caps)@.structures.len(),
        is_any == old(caps)@.any,
        index == size ==> read@ == structure@,
        index < size ==> read@ == old(caps)@.structures[index as int],
        copy@ == old(caps)@,
{
}

/// What becomes of a structure that is lent becomes of the description, and the other structures stay.
pub proof fn lemma_lending_a_structure(caps: &mut Caps, index: usize, lent: &mut Structure, i: int)
    requires
        call_ensures(Caps::structure_mut, (caps, index), lent),
        0 <= i < old(caps)@.structures.len(),
        index < old(caps)@.structures.len(),
    ensures
        old(lent)@ == old(caps)@.structures[index as int],
        final(caps)@.any == old(caps)@.any,
        final(caps)@.structures.len() == old(caps)@.structures.len(),
        final(caps)@.structures[i] == (if i == index {
            final(lent)@
        } else {
            old(caps)@.structures[i]
        }),
{
}

} // verus!
