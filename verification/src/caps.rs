//! Descriptions of media: a list of structures, each with a name and named fields.

use crate::clock_time::Fraction;
use vstd::prelude::*;

verus! {

/// The value of a field.
#[derive(Debug, PartialEq, Eq)]
pub enum FieldValue {
    Text(String),
    Fraction(Fraction),
    FractionRange(Fraction, Fraction),
    /// A value of another type, by a number under which its owner keeps it.
    Opaque(u64),
}

/// What a [`FieldValue`] holds.
pub enum FieldModel {
    Text(Seq<char>),
    Fraction(Fraction),
    FractionRange(Fraction, Fraction),
    Opaque(u64),
}

impl View for FieldValue {
    type V = FieldModel;

    open spec fn view(&self) -> FieldModel {
        match self {
            FieldValue::Text(text) => FieldModel::Text(text@),
            FieldValue::Fraction(fraction) => FieldModel::Fraction(*fraction),
            FieldValue::FractionRange(min, max) => FieldModel::FractionRange(*min, *max),
            FieldValue::Opaque(number) => FieldModel::Opaque(*number),
        }
    }
}

impl FieldValue {
    /// The text `text`.
    pub fn text(text: &str) -> (r: Self)
        ensures
            r@ == FieldModel::Text(text@),
    {
        FieldValue::Text(text.to_owned())
    }

    /// An equal value.
    pub fn duplicate(&self) -> (r: Self)
        ensures
            r@ == self@,
    {
        match self {
            FieldValue::Text(text) => FieldValue::Text(text.clone()),
            FieldValue::Fraction(fraction) => FieldValue::Fraction(*fraction),
            FieldValue::FractionRange(min, max) => FieldValue::FractionRange(*min, *max),
            FieldValue::Opaque(number) => FieldValue::Opaque(*number),
        }
    }
}

/// A named value in a structure.
#[derive(Debug, PartialEq, Eq)]
pub struct Field {
    pub name: String,
    pub value: FieldValue,
}

/// No two fields have the same name.
pub open spec fn distinct_names(fields: Seq<Field>) -> bool {
    forall|i: int, j: int|
        0 <= i < j < fields.len() ==> (#[trigger] fields[i]).name@ != (#[trigger] fields[j]).name@
}

/// The fields as a map from names to values.
pub open spec fn field_map(fields: Seq<Field>) -> Map<Seq<char>, FieldModel>
    decreases fields.len(),
{
    if fields.len() == 0 {
        Map::empty()
    } else {
        field_map(fields.drop_last()).insert(fields.last().name@, fields.last().value@)
    }
}

/// The names of the fields, in order.
pub open spec fn field_names(fields: Seq<Field>) -> Seq<Seq<char>> {
    fields.map_values(|field: Field| field.name@)
}

/// A name with named fields, and the memory features that apply to it.
#[derive(Debug, PartialEq, Eq)]
pub struct Structure {
    name: String,
    features: String,
    fields: Vec<Field>,
}

/// What a [`Structure`] holds.
#[verifier::ext_equal]
pub struct StructureModel {
    pub name: Seq<char>,
    pub features: Seq<char>,
    /// The names of the fields, in order.
    pub names: Seq<Seq<char>>,
    pub fields: Map<Seq<char>, FieldModel>,
}

impl StructureModel {
    /// The names are those of the fields, each once.
    pub open spec fn consistent(self) -> bool {
        &&& self.names.no_duplicates()
        &&& forall|name: Seq<char>| #[trigger]
            self.names.contains(name) <==> self.fields.dom().contains(name)
    }
}

impl View for Structure {
    type V = StructureModel;

    closed spec fn view(&self) -> StructureModel {
        StructureModel {
            name: self.name@,
            features: self.features@,
            names: field_names(self.fields@),
            fields: field_map(self.fields@),
        }
    }
}

proof fn lemma_field_map(fields: Seq<Field>)
    ensures
        forall|key: Seq<char>| #[trigger]
            field_map(fields).dom().contains(key) <==> exists|i: int|
                0 <= i < fields.len() && (#[trigger] fields[i]).name@ == key,
        distinct_names(fields) ==> forall|i: int|
            0 <= i < fields.len() ==> field_map(fields)[(#[trigger] fields[i]).name@]
                == fields[i].value@,
    decreases fields.len(),
{
    if fields.len() > 0 {
        let init = fields.drop_last();
        lemma_field_map(init);
        assert forall|key: Seq<char>| #[trigger]
            field_map(fields).dom().contains(key) <==> exists|i: int|
                0 <= i < fields.len() && (#[trigger] fields[i]).name@ == key by {
            if field_map(fields).dom().contains(key) {
                if key == fields.last().name@ {
                    assert(fields[fields.len() - 1].name@ == key);
                } else {
                    assert(field_map(init).dom().contains(key));
                    let i = choose|i: int|
                        0 <= i < init.len() && (#[trigger] init[i]).name@ == key;
                    assert(fields[i].name@ == key);
                }
            }
            if exists|i: int| 0 <= i < fields.len() && (#[trigger] fields[i]).name@ == key {
                let i = choose|i: int| 0 <= i < fields.len() && (#[trigger] fields[i]).name@ == key;
                if i < init.len() {
                    assert(init[i].name@ == key);
                    assert(field_map(init).dom().contains(key));
                }
            }
        }
        if distinct_names(fields) {
            assert(distinct_names(init));
            assert forall|i: int| 0 <= i < fields.len() implies field_map(
                fields,
            )[(#[trigger] fields[i]).name@] == fields[i].value@ by {
                if i < init.len() {
                    assert(init[i] == fields[i]);
                    assert(fields[i].name@ != fields[fields.len() - 1].name@);
                }
            }
        }
    }
}

impl Structure {
    /// No two fields have the same name.
    pub closed spec fn wf(self) -> bool {
        distinct_names(self.fields@)
    }

    /// A structure without fields.
    pub fn new(name: &str, features: &str) -> (r: Self)
        ensures
            r.wf(),
            r@ == (StructureModel {
                name: name@,
                features: features@,
                names: Seq::empty(),
                fields: Map::empty(),
            }),
    {
        let r = Structure {
            name: name.to_owned(),
            features: features.to_owned(),
            fields: Vec::new(),
        };
        assert(r@.names =~= Seq::empty());
        r
    }

    pub fn name(&self) -> (r: &str)
        ensures
            r@ == self@.name,
    {
        self.name.as_str()
    }

    pub fn features(&self) -> (r: &str)
        ensures
            r@ == self@.features,
    {
        self.features.as_str()
    }

    /// The fields, in order: a field that is set anew keeps its place, and one that is added comes last.
    pub fn fields(&self) -> (r: &Vec<Field>)
        requires
            self.wf(),
        ensures
            distinct_names(r@),
            field_names(r@) == self@.names,
            field_map(r@) == self@.fields,
    {
        &self.fields
    }

    /// Where the field of that name stands, or the number of fields if there is none.
    fn position(&self, name: &String) -> (r: usize)
        ensures
            r <= self.fields@.len(),
            r < self.fields@.len() ==> self.fields@[r as int].name@ == name@,
            r == self.fields@.len() ==> forall|i: int|
                0 <= i < self.fields@.len() ==> (#[trigger] self.fields@[i]).name@ != name@,
    {
        let mut i: usize = 0;
        while i < self.fields.len()
            invariant
                i <= self.fields@.len(),
                forall|j: int| 0 <= j < i ==> (#[trigger] self.fields@[j]).name@ != name@,
            decreases self.fields@.len() - i,
        {
            if self.fields[i].name == *name {
                return i;
            }
            i += 1;
        }
        i
    }

    /// The value of the field of that name, if there is one.
    pub fn get(&self, name: &str) -> (r: Option<&FieldValue>)
        requires
            self.wf(),
        ensures
            match r {
                Some(value) => self@.fields.dom().contains(name@) && value@ == self@.fields[name@],
                None => !self@.fields.dom().contains(name@),
            },
    {
        let key = name.to_owned();
        let i: usize = self.position(&key);
        proof {
            lemma_field_map(self.fields@);
        }
        if i < self.fields.len() {
            Some(&self.fields[i].value)
        } else {
            None
        }
    }

    /// The text of the field of that name, if there is one and it holds text.
    pub fn get_text(&self, name: &str) -> (r: Option<&str>)
        requires
            self.wf(),
        ensures
            match r {
                Some(text) => self@.fields.dom().contains(name@) && self@.fields[name@]
                    == FieldModel::Text(text@),
                None => !(self@.fields.dom().contains(name@) && self@.fields[name@] is Text),
            },
    {
        match self.get(name) {
            Some(FieldValue::Text(text)) => Some(text.as_str()),
            _ => None,
        }
    }

    /// Gives the field of that name the value, adding the field at the end if it is missing.
    pub fn set(&mut self, name: &str, value: FieldValue)
        requires
            old(self).wf(),
        ensures
            final(self).wf(),
            final(self)@ == with_field(old(self)@, name@, value@),
    {
        let key = name.to_owned();
        let i: usize = self.position(&key);
        let ghost before = self.fields@;
        let ghost model = value@;
        if i < self.fields.len() {
            self.fields.set(i, Field { name: key, value });
        } else {
            self.fields.push(Field { name: key, value });
        }
        proof {
            let after = self.fields@;
            assert(distinct_names(after));
            if i < before.len() {
                assert(field_names(before)[i as int] == name@);
                assert(field_names(after) =~= field_names(before));
            } else {
                assert(!field_names(before).contains(name@));
                assert(field_names(after) =~= field_names(before).push(name@));
            }
            lemma_field_map(before);
            lemma_field_map(after);
            assert(field_map(after) =~= field_map(before).insert(name@, model)) by {
                assert(after[i as int].name@ == name@);
                assert forall|k: Seq<char>| field_map(after).dom().contains(k) <==> field_map(
                    before,
                ).insert(name@, model).dom().contains(k) by {
                    if field_map(after).dom().contains(k) {
                        let j = choose|j: int|
                            0 <= j < after.len() && (#[trigger] after[j]).name@ == k;
                        if j != i {
                            assert(before[j] == after[j]);
                        }
                    }
                    if field_map(before).dom().contains(k) {
                        let j = choose|j: int|
                            0 <= j < before.len() && (#[trigger] before[j]).name@ == k;
                        assert(after[j].name@ == k);
                    }
                }
                assert forall|k: Seq<char>| field_map(after).dom().contains(k) implies field_map(
                    after,
                )[k] == field_map(before).insert(name@, model)[k] by {
                    let j = choose|j: int| 0 <= j < after.len() && (#[trigger] after[j]).name@ == k;
                    if j != i {
                        assert(before[j] == after[j]);
                        assert(after[j].name@ != after[i as int].name@);
                    }
                }
            }
        }
    }

    /// Removes the field of that name, if there is one.
    pub fn remove_field(&mut self, name: &str)
        requires
            old(self).wf(),
        ensures
            final(self).wf(),
            final(self)@ == without_field(old(self)@, name@),
    {
        let key = name.to_owned();
        let i: usize = self.position(&key);
        let ghost before = self.fields@;
        if i < self.fields.len() {
            self.fields.remove(i);
        }
        proof {
            let after = self.fields@;
            assert(distinct_names(after)) by {
                assert forall|a: int, b: int| 0 <= a < b < after.len() implies (
                #[trigger] after[a]).name@ != (#[trigger] after[b]).name@ by {
                    let a1 = if a < i {
                        a
                    } else {
                        a + 1
                    };
                    let b1 = if b < i {
                        b
                    } else {
                        b + 1
                    };
                    if i < before.len() {
                        assert(after[a] == before[a1]);
                        assert(after[b] == before[b1]);
                    }
                }
            }
            let names = field_names(before);
            names.index_of_first_ensures(name@);
            if i < before.len() {
                assert(names[i as int] == name@);
                let first = names.index_of_first(name@)->0;
                assert(before[first].name@ == before[i as int].name@);
                assert(field_names(after) =~= names.remove(i as int));
            } else {
                assert(!names.contains(name@));
            }
            lemma_field_map(before);
            lemma_field_map(after);
            assert(field_map(after) =~= field_map(before).remove(name@)) by {
                assert forall|k: Seq<char>| field_map(after).dom().contains(k) implies field_map(
                    before,
                ).remove(name@).dom().contains(k) && field_map(after)[k] == field_map(before)[k] by {
                    let j = choose|j: int| 0 <= j < after.len() && (#[trigger] after[j]).name@ == k;
                    if i < before.len() {
                        let j1 = if j < i {
                            j
                        } else {
                            j + 1
                        };
                        assert(before[j1] == after[j]);
                        assert(before[j1].name@ != before[i as int].name@);
                    } else {
                        assert(before[j].name@ != name@);
                    }
                }
                assert forall|k: Seq<char>|
                    field_map(before).remove(name@).dom().contains(k) implies field_map(
                    after,
                ).dom().contains(k) by {
                    let j = choose|j: int|
                        0 <= j < before.len() && (#[trigger] before[j]).name@ == k;
                    if i < before.len() {
                        let j1 = if j < i {
                            j
                        } else {
                            j - 1
                        };
                        assert(after[j1] == before[j]);
                    } else {
                        assert(after[j].name@ == k);
                    }
                }
            }
        }
    }

    /// An equal structure.
    pub fn duplicate(&self) -> (r: Self)
        requires
            self.wf(),
        ensures
            r.wf(),
            r@ == self@,
    {
        let mut fields: Vec<Field> = Vec::new();
        let mut i: usize = 0;
        while i < self.fields.len()
            invariant
                i <= self.fields@.len(),
                fields@.len() == i,
                forall|j: int|
                    0 <= j < i ==> (#[trigger] fields@[j]).name@ == self.fields@[j].name@
                        && fields@[j].value@ == self.fields@[j].value@,
            decreases self.fields@.len() - i,
        {
            fields.push(
                Field {
                    name: self.fields[i].name.clone(),
                    value: self.fields[i].value.duplicate(),
                },
            );
            i += 1;
        }
        proof {
            lemma_field_map_same(self.fields@, fields@);
            assert(field_names(fields@) =~= field_names(self.fields@));
        }
        Structure { name: self.name.clone(), features: self.features.clone(), fields }
    }
}

proof fn lemma_field_map_same(a: Seq<Field>, b: Seq<Field>)
    requires
        a.len() == b.len(),
        forall|j: int|
            0 <= j < a.len() ==> (#[trigger] b[j]).name@ == a[j].name@ && b[j].value@ == a[j].value@,
    ensures
        field_map(a) == field_map(b),
    decreases a.len(),
{
    if a.len() > 0 {
        assert(b[a.len() - 1].name@ == a[a.len() - 1].name@);
        assert forall|j: int| 0 <= j < a.len() - 1 implies (#[trigger] b.drop_last()[j]).name@
            == a.drop_last()[j].name@ && b.drop_last()[j].value@ == a.drop_last()[j].value@ by {
            assert(b[j].name@ == a[j].name@);
        }
        lemma_field_map_same(a.drop_last(), b.drop_last());
    }
}

/// The structure with one field set: in its place, or at the end if it is new.
pub open spec fn with_field(
    structure: StructureModel,
    name: Seq<char>,
    value: FieldModel,
) -> StructureModel {
    StructureModel {
        names: if structure.names.contains(name) {
            structure.names
        } else {
            structure.names.push(name)
        },
        fields: structure.fields.insert(name, value),
        ..structure
    }
}

/// The structure without one field.
pub open spec fn without_field(structure: StructureModel, name: Seq<char>) -> StructureModel {
    StructureModel {
        names: structure.names.remove_value(name),
        fields: structure.fields.remove(name),
        ..structure
    }
}

/// A structure names its fields, each once.
pub proof fn lemma_structure_is_consistent(structure: Structure)
    requires
        structure.wf(),
    ensures
        structure@.consistent(),
{
    let fields = structure.fields@;
    lemma_field_map(fields);
    assert forall|name: Seq<char>| #[trigger]
        structure@.names.contains(name) <==> structure@.fields.dom().contains(name) by {
        if structure@.names.contains(name) {
            let i = choose|i: int| 0 <= i < fields.len() && structure@.names[i] == name;
            assert(fields[i].name@ == name);
        }
        if structure@.fields.dom().contains(name) {
            let i = choose|i: int| 0 <= i < fields.len() && (#[trigger] fields[i]).name@ == name;
            assert(structure@.names[i] == name);
        }
    }
    assert forall|i: int, j: int|
        0 <= i < fields.len() && 0 <= j < fields.len() && i
            != j implies structure@.names[i] != structure@.names[j] by {
        assert(fields[i].name@ != fields[j].name@);
    }
}

/// A description of media: any, or what one of the structures describes.
#[derive(Debug, PartialEq, Eq)]
pub struct Caps {
    any: bool,
    structures: Vec<Structure>,
}

/// What a [`Caps`] holds.
#[verifier::ext_equal]
pub struct CapsModel {
    pub any: bool,
    pub structures: Seq<StructureModel>,
}

impl CapsModel {
    /// The description with one field set in every structure.
    pub open spec fn with_field(self, name: Seq<char>, value: FieldModel) -> CapsModel {
        CapsModel {
            structures: self.structures.map_values(
                |structure: StructureModel| with_field(structure, name, value),
            ),
            ..self
        }
    }

    /// The description with one field set anew, at the end of every structure.
    pub open spec fn with_last_field(self, name: Seq<char>, value: FieldModel) -> CapsModel {
        CapsModel {
            structures: self.structures.map_values(
                |structure: StructureModel| with_field(without_field(structure, name), name, value),
            ),
            ..self
        }
    }
}

impl View for Caps {
    type V = CapsModel;

    closed spec fn view(&self) -> CapsModel {
        CapsModel {
            any: self.any,
            structures: self.structures@.map_values(|structure: Structure| structure@),
        }
    }
}

impl Caps {
    /// Every structure is well formed.
    pub closed spec fn wf(self) -> bool {
        forall|i: int| 0 <= i < self.structures@.len() ==> (#[trigger] self.structures@[i]).wf()
    }

    /// A description without structures: of any media, or of none.
    pub fn new(any: bool) -> (r: Self)
        ensures
            r.wf(),
            r@ == (CapsModel { any, structures: Seq::empty() }),
    {
        let r = Caps { any, structures: Vec::new() };
        assert(r@.structures =~= Seq::empty());
        r
    }

    /// Adds a structure at the end.
    pub fn append_structure(&mut self, structure: Structure)
        requires
            old(self).wf(),
            structure.wf(),
        ensures
            final(self).wf(),
            final(self)@ == (CapsModel {
                structures: old(self)@.structures.push(structure@),
                ..old(self)@
            }),
    {
        self.structures.push(structure);
        assert(self@.structures =~= old(self)@.structures.push(structure@));
    }

    pub fn is_any(&self) -> (r: bool)
        ensures
            r == self@.any,
    {
        self.any
    }

    /// The number of structures.
    pub fn size(&self) -> (r: usize)
        ensures
            r == self@.structures.len(),
    {
        self.structures.len()
    }

    pub fn structure(&self, index: usize) -> (r: &Structure)
        requires
            self.wf(),
            index < self@.structures.len(),
        ensures
            r.wf(),
            r@ == self@.structures[index as int],
    {
        &self.structures[index]
    }

    pub fn structure_mut(&mut self, index: usize) -> (r: &mut Structure)
        requires
            old(self).wf(),
            index < old(self)@.structures.len(),
        ensures
            r.wf(),
            r@ == old(self)@.structures[index as int],
            final(r).wf() ==> final(self).wf(),
            final(self)@ == (CapsModel {
                structures: old(self)@.structures.update(index as int, final(r)@),
                ..old(self)@
            }),
    {
        &mut self.structures[index]
    }

    /// An equal description.
    pub fn duplicate(&self) -> (r: Self)
        requires
            self.wf(),
        ensures
            r.wf(),
            r@ == self@,
    {
        let mut structures: Vec<Structure> = Vec::new();
        let mut i: usize = 0;
        while i < self.structures.len()
            invariant
                self.wf(),
                i <= self.structures@.len(),
                structures@.len() == i,
                forall|j: int|
                    0 <= j < i ==> (#[trigger] structures@[j]).wf() && structures@[j]@
                        == self.structures@[j]@,
            decreases self.structures@.len() - i,
        {
            structures.push(self.structures[i].duplicate());
            i += 1;
        }
        let r = Caps { any: self.any, structures };
        assert(r@.structures =~= self@.structures);
        r
    }
}

} // verus!
