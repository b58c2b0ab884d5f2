//! Structures and descriptions.

use crate::caps::{
    distinct_names, field_map, field_names, with_field, without_field, CapsModel, Field,
    FieldModel, FieldValue, StructureModel,
};
use crate::clock_time::Fraction;
use vstd::prelude::*;

verus! {

/// What is set can be read, what is not stays, and a field that is new comes last.
pub proof fn lemma_setting_a_field(
    structure: StructureModel,
    name: Seq<char>,
    value: FieldModel,
    other: Seq<char>,
)
    ensures
        ({
            let after = with_field(structure, name, value);
            &&& after.fields.dom().contains(name)
            &&& after.fields[name] == value
            &&& other != name ==> {
                &&& (after.fields.dom().contains(other) <==> structure.fields.dom().contains(
                    other,
                ))
                &&& after.fields[other] == structure.fields[other]
            }
            &&& after.name == structure.name
            &&& after.features == structure.features
            &&& structure.names.contains(name) ==> after.names == structure.names
            &&& !structure.names.contains(name) ==> after.names == structure.names + seq![name]
        }),
{
    assert(structure.names.push(name) =~= structure.names + seq![name]);
}

/// What is removed is gone, what is not stays, in its order.
pub proof fn lemma_removing_a_field(
    structure: StructureModel,
    name: Seq<char>,
    other: Seq<char>,
    i: int,
)
    requires
        structure.consistent(),
    ensures
        ({
            let after = without_field(structure, name);
            &&& !after.fields.dom().contains(name)
            &&& other != name ==> {
                &&& (after.fields.dom().contains(other) <==> structure.fields.dom().contains(
                    other,
                ))
                &&& (after.fields.dom().contains(other) ==> after.fields[other]
                    == structure.fields[other])
            }
            &&& after.name == structure.name
            &&& after.features == structure.features
            &&& !structure.names.contains(name) ==> after.names == structure.names
            &&& 0 <= i < structure.names.len() && structure.names[i] == name ==> after.names
                == structure.names.take(i) + structure.names.skip(i + 1)
        }),
{
    structure.names.index_of_first_ensures(name);
    if 0 <= i < structure.names.len() && structure.names[i] == name {
        assert(structure.names.contains(name));
        assert(structure.names.index_of_first(name)->0 == i);
        assert(structure.names.remove(i) =~= structure.names.take(i) + structure.names.skip(i + 1));
    }
}

/// A field that is set in a description is set in each of its structures: in its place, or at the end.
pub proof fn lemma_setting_a_field_everywhere(
    caps: CapsModel,
    name: Seq<char>,
    value: FieldModel,
    i: int,
)
    requires
        0 <= i < caps.structures.len(),
        caps.structures[i].consistent(),
    ensures
        ({
            let set = caps.with_field(name, value);
            let moved = caps.with_last_field(name, value);
            &&& set.any == caps.any
            &&& moved.any == caps.any
            &&& set.structures.len() == caps.structures.len()
            &&& moved.structures.len() == caps.structures.len()
            &&& set.structures[i] == with_field(caps.structures[i], name, value)
            &&& moved.structures[i] == with_field(
                without_field(caps.structures[i], name),
                name,
                value,
            )
            &&& moved.structures[i].names.len() > 0
            &&& moved.structures[i].names.last() == name
            &&& moved.structures[i].fields == set.structures[i].fields
        }),
{
    let names = caps.structures[i].names;
    names.index_of_first_ensures(name);
    let rest = names.remove_value(name);
    assert(!rest.contains(name)) by {
        if rest.contains(name) {
            let k = choose|k: int| 0 <= k < rest.len() && rest[k] == name;
            if names.contains(name) {
                let at = names.index_of_first(name)->0;
                let l = if k < at {
                    k
                } else {
                    k + 1
                };
                assert(names[l] == name);
                assert(names[at] == name);
            }
        }
    }
    assert(caps.with_last_field(name, value).structures[i].fields =~= caps.with_field(
        name,
        value,
    ).structures[i].fields);
}

/// The names of fields are those of each, in order, and none is there twice.
pub proof fn lemma_names_of_fields(fields: Seq<Field>)
    ensures
        field_names(fields).len() == fields.len(),
        forall|i: int| 0 <= i < fields.len() ==> #[trigger] field_names(fields)[i] == fields[i].name@,
        distinct_names(fields) <==> field_names(fields).no_duplicates(),
{
    let names = field_names(fields);
    if names.no_duplicates() {
        assert forall|i: int, j: int| 0 <= i < j < fields.len() implies (
        #[trigger] fields[i]).name@ != (#[trigger] fields[j]).name@ by {
            assert(names[i] != names[j]);
        }
    }
    if distinct_names(fields) {
        assert forall|i: int, j: int|
            0 <= i < names.len() && 0 <= j < names.len() && i != j implies names[i] != names[j] by {
            if i < j {
                assert(fields[i].name@ != fields[j].name@);
            } else {
                assert(fields[j].name@ != fields[i].name@);
            }
        }
    }
}

/// Each field is found under its name, with its value, and nothing else is.
pub proof fn lemma_fields_are_found(fields: Seq<Field>, i: int, name: Seq<char>)
    requires
        distinct_names(fields),
    ensures
        0 <= i < fields.len() ==> {
            &&& field_map(fields).dom().contains(fields[i].name@)
            &&& field_map(fields)[fields[i].name@] == fields[i].value@
        },
        field_map(fields).dom().contains(name) <==> field_names(fields).contains(name),
    decreases fields.len(),
{
    let names = field_names(fields);
    if fields.len() > 0 {
        let init = fields.drop_last();
        let inner = field_names(init);
        assert(distinct_names(init)) by {
            assert forall|a: int, b: int| 0 <= a < b < init.len() implies (
            #[trigger] init[a]).name@ != (#[trigger] init[b]).name@ by {
                assert(fields[a].name@ != fields[b].name@);
            }
        }
        lemma_fields_are_found(init, i, name);
        assert(names =~= inner.push(fields.last().name@));
        if 0 <= i < init.len() {
            assert(init[i] == fields[i]);
            assert(fields[i].name@ != fields[fields.len() - 1].name@);
        }
        if inner.contains(name) {
            let k = choose|k: int| 0 <= k < inner.len() && inner[k] == name;
            assert(names[k] == name);
        }
        if names.contains(name) {
            let k = choose|k: int| 0 <= k < names.len() && names[k] == name;
            if k < inner.len() {
                assert(inner[k] == name);
            }
        }
        assert(names[names.len() - 1] == fields.last().name@);
    }
}

/// What values hold.
pub proof fn lemma_what_values_hold(text: String, a: Fraction, b: Fraction, number: u64)
    ensures
        FieldValue::Text(text)@ == FieldModel::Text(text@),
        FieldValue::Fraction(a)@ == FieldModel::Fraction(a),
        FieldValue::FractionRange(a, b)@ == FieldModel::FractionRange(a, b),
        FieldValue::Opaque(number)@ == FieldModel::Opaque(number),
{
}

/// A structure is consistent if it names each of its fields once, and nothing else.
pub proof fn lemma_consistent(structure: StructureModel)
    ensures
        structure.consistent() <==> structure.names.no_duplicates() && structure.names.to_set()
            =~= structure.fields.dom(),
{
    if structure.names.to_set() =~= structure.fields.dom() {
        assert forall|name: Seq<char>| #[trigger]
            structure.names.contains(name) <==> structure.fields.dom().contains(name) by {
            assert(structure.names.to_set().contains(name) <==> structure.names.contains(name));
        }
    }
}

} // verus!
