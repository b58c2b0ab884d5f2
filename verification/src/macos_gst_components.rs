//! Chooses what an installer of GStreamer for macOS installs.
//!
//! Such an installer takes a list of choices, a property list. Of the components of GStreamer in it,
//! those that are wanted are selected and the others are not.

use crate::component_set::{ascending, texts, ComponentSet};
use crate::text::{after_prefix, before_suffix, same_text, strip_prefix, strip_suffix};
use vstd::prelude::*;

verus! {

/// `plist::Value`, a value of a property list. Only `contents` tells what is in one.
#[verifier::external_type_specification]
#[verifier::external_body]
pub struct ExPlistValue(plist::Value);

/// `plist::Dictionary`, a dictionary of a property list. Only `entries` tells what is in one.
#[verifier::external_type_specification]
#[verifier::external_body]
pub struct ExPlistDictionary(plist::Dictionary);

/// What a value of a property list holds.
pub enum PlistModel {
    Array(Seq<PlistModel>),
    /// The keys in order, and what is under each.
    Dictionary(Seq<Seq<char>>, Map<Seq<char>, PlistModel>),
    Text(Seq<char>),
    Integer(int),
    /// Anything else, told apart by a number.
    Other(int),
}

/// What a `plist::Value` holds, down to the values in it.
pub uninterp spec fn contents(value: plist::Value) -> PlistModel;

/// What a `plist::Dictionary` holds under each key.
pub uninterp spec fn entries(dictionary: plist::Dictionary) -> Map<Seq<char>, PlistModel>;

/// The keys of a `plist::Dictionary`, in the order in which it goes through them.
pub uninterp spec fn key_order(dictionary: plist::Dictionary) -> Seq<Seq<char>>;

/// What each of the values holds.
pub open spec fn all_contents(values: Seq<plist::Value>) -> Seq<PlistModel> {
    values.map_values(|value: plist::Value| contents(value))
}

/// `plist::Value::as_array_mut` lends the items of a value that is an array. What becomes of the items
/// becomes of the array. Of any other value it gives nothing, and leaves the value alone.
pub assume_specification[ plist::Value::as_array_mut ](value: &mut plist::Value) -> (r: Option<
    &mut Vec<plist::Value>,
>)
    ensures
        match r {
            Some(items) => {
                &&& contents(*old(value)) == PlistModel::Array(all_contents(items@))
                &&& contents(*final(value)) == PlistModel::Array(all_contents(final(items)@))
            },
            None => !(contents(*old(value)) is Array) && *final(value) == *old(value),
        },
;

/// `plist::Value::as_dictionary_mut` lends the dictionary of a value that is one. What becomes of the
/// dictionary becomes of the value. Of any other value it gives nothing, and leaves the value alone.
pub assume_specification[ plist::Value::as_dictionary_mut ](value: &mut plist::Value) -> (r: Option<
    &mut plist::Dictionary,
>)
    ensures
        match r {
            Some(dictionary) => {
                &&& contents(*old(value)) == PlistModel::Dictionary(
                    key_order(*dictionary),
                    entries(*dictionary),
                )
                &&& contents(*final(value)) == PlistModel::Dictionary(
                    key_order(*final(dictionary)),
                    entries(*final(dictionary)),
                )
            },
            None => !(contents(*old(value)) is Dictionary) && *final(value) == *old(value),
        },
;

/// `plist::Value::as_string` gives the text of a value that is one, and nothing of any other value.
pub assume_specification[ plist::Value::as_string ](value: &plist::Value) -> (r: Option<&str>)
    ensures
        match r {
            Some(text) => contents(*value) == PlistModel::Text(text@),
            None => !(contents(*value) is Text),
        },
;

/// `plist::Dictionary::get` gives the value under a key, if there is one.
pub assume_specification<'a>[ plist::Dictionary::get ](
    dictionary: &'a plist::Dictionary,
    key: &str,
) -> (r: Option<&'a plist::Value>)
    ensures
        match r {
            Some(value) => entries(*dictionary).dom().contains(key@) && contents(*value) == entries(
                *dictionary,
            )[key@],
            None => !entries(*dictionary).dom().contains(key@),
        },
;

/// `plist::Dictionary::get_mut` lends the value under a key, if there is one. What becomes of it is
/// under that key then. What is under other keys stays, and so does the order of the keys.
pub assume_specification<'a>[ plist::Dictionary::get_mut ](
    dictionary: &'a mut plist::Dictionary,
    key: &str,
) -> (r: Option<&'a mut plist::Value>)
    ensures
        match r {
            Some(value) => {
                &&& entries(*old(dictionary)).dom().contains(key@)
                &&& contents(*value) == entries(*old(dictionary))[key@]
                &&& key_order(*final(dictionary)) == key_order(*old(dictionary))
                &&& entries(*final(dictionary)) == entries(*old(dictionary)).insert(
                    key@,
                    contents(*final(value)),
                )
            },
            None => !entries(*old(dictionary)).dom().contains(key@) && *final(dictionary) == *old(
                dictionary,
            ),
        },
;

/// The conversion of a `u8` to a `plist::Integer`, in a `plist::Value`: the value holds the number.
#[verifier::external_body]
fn integer_value(number: u8) -> (r: plist::Value)
    ensures
        contents(r) == PlistModel::Integer(number as int),
{
    plist::Value::Integer(number.into())
}

/// What a choice is about.
#[derive(Debug, PartialEq, Eq)]
pub enum Subject {
    /// Nothing that matters here.
    Unrelated,
    /// It is selected or not, but has no identifier.
    Unidentified,
    /// A component of GStreamer.
    Component(String),
}

/// What a choice is about, in the abstract.
pub enum SubjectModel {
    Unrelated,
    Unidentified,
    Component(Seq<char>),
}

impl View for Subject {
    type V = SubjectModel;

    open spec fn view(&self) -> SubjectModel {
        match self {
            Subject::Unrelated => SubjectModel::Unrelated,
            Subject::Unidentified => SubjectModel::Unidentified,
            Subject::Component(component) => SubjectModel::Component(component@),
        }
    }
}

/// What was found while choosing.
#[derive(Debug, PartialEq, Eq)]
pub struct Report {
    /// How many choices had no identifier.
    pub unidentified: usize,
    /// The wanted components that no choice is about, in order.
    pub missing: Vec<String>,
}

/// Why nothing could be chosen.
#[derive(Clone, Copy, PartialEq, Eq, Structural, Debug)]
pub enum ChoicesError {
    /// The property list is not an array.
    UnexpectedFormat,
    /// A choice about a component has no setting. The number counts the choices before it that had no
    /// identifier.
    MissingSetting(usize),
}

/// The component that a choice is about, by its identifier.
///
/// The development package has the component names of the runtime package, with `-devel` behind each.
pub open spec fn component_named(identifier: Seq<char>) -> Option<Seq<char>> {
    match after_prefix(identifier, "org.freedesktop.gstreamer.darwin."@) {
        None => None,
        Some(suffix) => {
            let component = match before_suffix(suffix, "-devel"@) {
                Some(component) => component,
                None => suffix,
            };
            if "gstreamer-1.0-"@.is_prefix_of(component) {
                Some(component)
            } else {
                None
            }
        },
    }
}

/// What a choice with this attribute and identifier is about.
pub open spec fn subject(
    attribute: Option<Seq<char>>,
    identifier: Option<Seq<char>>,
) -> SubjectModel {
    if attribute != Some("selected"@) {
        SubjectModel::Unrelated
    } else {
        match identifier {
            None => SubjectModel::Unidentified,
            Some(identifier) => match component_named(identifier) {
                None => SubjectModel::Unrelated,
                Some(component) => SubjectModel::Component(component),
            },
        }
    }
}

/// The text under a key of a dictionary.
pub open spec fn text_under(dictionary: Map<Seq<char>, PlistModel>, key: Seq<char>) -> Option<
    Seq<char>,
> {
    if dictionary.dom().contains(key) {
        match dictionary[key] {
            PlistModel::Text(text) => Some(text),
            _ => None,
        }
    } else {
        None
    }
}

/// What a choice is about.
pub open spec fn subject_of(choice: PlistModel) -> SubjectModel {
    match choice {
        PlistModel::Dictionary(_, dictionary) => subject(
            text_under(dictionary, "choiceAttribute"@),
            text_under(dictionary, "choiceIdentifier"@),
        ),
        _ => SubjectModel::Unrelated,
    }
}

/// The choice has a setting.
pub open spec fn has_setting(choice: PlistModel) -> bool {
    choice matches PlistModel::Dictionary(_, dictionary) && dictionary.dom().contains(
        "attributeSetting"@,
    )
}

/// The choice, with its setting on or off.
pub open spec fn with_setting(choice: PlistModel, on: bool) -> PlistModel {
    match choice {
        PlistModel::Dictionary(keys, dictionary) => PlistModel::Dictionary(
            keys,
            dictionary.insert(
                "attributeSetting"@,
                PlistModel::Integer(if on { 1int } else { 0int }),
            ),
        ),
        _ => choice,
    }
}

/// One of the first `n` choices is about the component.
pub open spec fn found(choices: Seq<PlistModel>, n: int, component: Seq<char>) -> bool {
    exists|i: int|
        0 <= i < n && #[trigger] subject_of(choices[i]) == SubjectModel::Component(component)
}

/// What becomes of a choice. Of the choices about a wanted component the first is selected. The others
/// about components are not.
pub open spec fn settled_choice(
    choices: Seq<PlistModel>,
    wanted: Seq<Seq<char>>,
    i: int,
) -> PlistModel {
    match subject_of(choices[i]) {
        SubjectModel::Component(component) => with_setting(
            choices[i],
            wanted.contains(component) && !found(choices, i, component),
        ),
        _ => choices[i],
    }
}

/// The choices, the first `n` of them settled.
pub open spec fn settled(choices: Seq<PlistModel>, wanted: Seq<Seq<char>>, n: int) -> Seq<
    PlistModel,
> {
    Seq::new(
        choices.len(),
        |i: int|
            if i < n {
                settled_choice(choices, wanted, i)
            } else {
                choices[i]
            },
    )
}

/// The choice is about a component and cannot be settled.
pub open spec fn unsettled(choice: PlistModel) -> bool {
    subject_of(choice) is Component && !has_setting(choice)
}

/// The first choice that cannot be settled.
pub open spec fn first_unsettled(choices: Seq<PlistModel>, n: int) -> bool {
    &&& 0 <= n < choices.len()
    &&& unsettled(choices[n])
    &&& forall|i: int| 0 <= i < n ==> !unsettled(#[trigger] choices[i])
}

/// How many of the first `n` choices have no identifier.
pub open spec fn unidentified(choices: Seq<PlistModel>, n: nat) -> nat
    decreases n,
{
    if n == 0 {
        0
    } else {
        unidentified(choices, (n - 1) as nat) + if subject_of(choices[n - 1]) is Unidentified {
            1nat
        } else {
            0nat
        }
    }
}

/// All choices are settled, and this is what was found on the way.
pub open spec fn selected(
    choices: Seq<PlistModel>,
    wanted: Seq<Seq<char>>,
    after: PlistModel,
    report: Report,
) -> bool {
    &&& forall|i: int| 0 <= i < choices.len() ==> !unsettled(#[trigger] choices[i])
    &&& after == PlistModel::Array(settled(choices, wanted, choices.len() as int))
    &&& report.unidentified == unidentified(choices, choices.len())
    &&& ascending(texts(report.missing@))
    &&& forall|name: Seq<char>| #[trigger]
        texts(report.missing@).contains(name) <==> wanted.contains(name) && !found(
            choices,
            choices.len() as int,
            name,
        )
}

/// The choices are settled up to the first that cannot be settled, `count` of them having no
/// identifier.
pub open spec fn stopped(
    choices: Seq<PlistModel>,
    wanted: Seq<Seq<char>>,
    after: PlistModel,
    count: usize,
) -> bool {
    exists|n: int| #[trigger]
        first_unsettled(choices, n) && after == PlistModel::Array(settled(choices, wanted, n))
            && count == unidentified(choices, n as nat)
}

/// The component that a choice is about, by its identifier.
pub fn component_of(identifier: &str) -> (r: Option<&str>)
    ensures
        match r {
            Some(component) => component_named(identifier@) == Some(component@),
            None => component_named(identifier@) is None,
        },
{
    let suffix = match strip_prefix(identifier, "org.freedesktop.gstreamer.darwin.") {
        Some(suffix) => suffix,
        None => return None,
    };
    let component = match strip_suffix(suffix, "-devel") {
        Some(component) => component,
        None => suffix,
    };
    match strip_prefix(component, "gstreamer-1.0-") {
        Some(_) => Some(component),
        None => None,
    }
}

/// What a choice with this attribute and identifier is about.
pub fn choice_subject(attribute: Option<&str>, identifier: Option<&str>) -> (r: Subject)
    ensures
        r@ == subject(
            match attribute {
                Some(attribute) => Some(attribute@),
                None => None,
            },
            match identifier {
                Some(identifier) => Some(identifier@),
                None => None,
            },
        ),
{
    match attribute {
        Some(attribute) if same_text(attribute, "selected") => {},
        _ => return Subject::Unrelated,
    }
    match identifier {
        None => Subject::Unidentified,
        Some(identifier) => match component_of(identifier) {
            None => Subject::Unrelated,
            Some(component) => Subject::Component(component.to_owned()),
        },
    }
}

/// The text under a key of a dictionary.
fn text_at<'a>(dictionary: &'a plist::Dictionary, key: &str) -> (r: Option<&'a str>)
    ensures
        match r {
            Some(text) => text_under(entries(*dictionary), key@) == Some(text@),
            None => text_under(entries(*dictionary), key@) is None,
        },
{
    match dictionary.get(key) {
        Some(value) => value.as_string(),
        None => None,
    }
}

/// What was done with a choice.
#[derive(Clone, Copy, PartialEq, Eq, Structural, Debug)]
pub enum Settlement {
    /// It stays as it is.
    Left,
    /// It stays as it is, for want of an identifier.
    Unidentified,
    /// Its setting was changed.
    Settled,
    /// It has no setting to change.
    Unsettled,
}

/// Settles one choice. The component that it is about, if any, is no longer in the set then.
pub fn settle_choice(choice: &mut plist::Value, components: &mut ComponentSet) -> (r: Settlement)
    requires
        old(components).wf(),
    ensures
        final(components).wf(),
        match subject_of(contents(*old(choice))) {
            SubjectModel::Unrelated => {
                &&& r == Settlement::Left
                &&& contents(*final(choice)) == contents(*old(choice))
                &&& final(components)@ == old(components)@
            },
            SubjectModel::Unidentified => {
                &&& r == Settlement::Unidentified
                &&& contents(*final(choice)) == contents(*old(choice))
                &&& final(components)@ == old(components)@
            },
            SubjectModel::Component(component) => {
                &&& r == if has_setting(contents(*old(choice))) {
                    Settlement::Settled
                } else {
                    Settlement::Unsettled
                }
                &&& contents(*final(choice)) == if has_setting(contents(*old(choice))) {
                    with_setting(contents(*old(choice)), old(components)@.contains(component))
                } else {
                    contents(*old(choice))
                }
                &&& forall|name: Seq<char>| #[trigger]
                    final(components)@.contains(name) <==> old(components)@.contains(name) && name
                        != component
            },
        },
{
    let dictionary = match choice.as_dictionary_mut() {
        Some(dictionary) => dictionary,
        None => return Settlement::Left,
    };
    let about = choice_subject(
        text_at(dictionary, "choiceAttribute"),
        text_at(dictionary, "choiceIdentifier"),
    );
    let component = match about {
        Subject::Unrelated => return Settlement::Left,
        Subject::Unidentified => return Settlement::Unidentified,
        Subject::Component(component) => component,
    };
    let should_keep = components.remove(component.as_str());
    let number: u8 = if should_keep {
        1
    } else {
        0
    };
    match dictionary.get_mut("attributeSetting") {
        Some(setting) => {
            *setting = integer_value(number);
            Settlement::Settled
        },
        None => Settlement::Unsettled,
    }
}

/// Settles the choices, up to the first that cannot be settled. The result is the number of choices on the
/// way that have no identifier, as an error if not all could be settled.
fn settle_choices(choices: &mut Vec<plist::Value>, components: &mut ComponentSet) -> (r: Result<
    usize,
    usize,
>)
    requires
        old(components).wf(),
    ensures
        final(components).wf(),
        ({
            let before = all_contents(old(choices)@);
            let after = all_contents(final(choices)@);
            match r {
                Ok(count) => {
                    &&& forall|i: int| 0 <= i < before.len() ==> !unsettled(#[trigger] before[i])
                    &&& after == settled(before, old(components)@, before.len() as int)
                    &&& count == unidentified(before, before.len())
                    &&& forall|name: Seq<char>| #[trigger]
                        final(components)@.contains(name) <==> old(components)@.contains(name)
                            && !found(before, before.len() as int, name)
                },
                Err(count) => exists|n: int| #[trigger]
                    first_unsettled(before, n) && after == settled(before, old(components)@, n)
                        && count == unidentified(before, n as nat),
            }
        }),
{
    let ghost before = all_contents(choices@);
    let ghost wanted = components@;
    let mut count: usize = 0;
    let mut i: usize = 0;
    assert(all_contents(choices@) =~= settled(before, wanted, 0));
    while i < choices.len()
        invariant
            components.wf(),
            before == all_contents(old(choices)@),
            wanted == old(components)@,
            i <= choices.len(),
            choices.len() == before.len(),
            all_contents(choices@) == settled(before, wanted, i as int),
            forall|j: int| 0 <= j < i ==> !unsettled(#[trigger] before[j]),
            count == unidentified(before, i as nat),
            count <= i,
            forall|name: Seq<char>| #[trigger]
                components@.contains(name) <==> wanted.contains(name) && !found(
                    before,
                    i as int,
                    name,
                ),
        decreases choices.len() - i,
    {
        let ghost here = choices@;
        let ghost left = components@;
        assert(all_contents(here)[i as int] == before[i as int]);
        let settlement = settle_choice(&mut choices[i], components);
        proof {
            let subject = subject_of(before[i as int]);
            let after = all_contents(choices@);
            assert(after =~= all_contents(here).update(i as int, contents(choices@[i as int])));
            if settlement == Settlement::Unsettled {
                assert(first_unsettled(before, i as int));
                assert(after =~= settled(before, wanted, i as int));
            } else {
                assert(after =~= settled(before, wanted, i + 1)) by {
                    if let SubjectModel::Component(component) = subject {
                        assert(left.contains(component) <==> wanted.contains(component) && !found(
                            before,
                            i as int,
                            component,
                        ));
                    }
                }
                assert forall|name: Seq<char>| #[trigger]
                    components@.contains(name) <==> wanted.contains(name) && !found(
                        before,
                        i + 1,
                        name,
                    ) by {
                    assert(left.contains(name) <==> wanted.contains(name) && !found(
                        before,
                        i as int,
                        name,
                    ));
                    lemma_found_step(before, i as int, name);
                }
            }
        }
        match settlement {
            Settlement::Unsettled => return Err(count),
            Settlement::Unidentified => {
                count += 1;
            },
            _ => {},
        }
        i += 1;
    }
    Ok(count)
}

proof fn lemma_found_step(choices: Seq<PlistModel>, n: int, component: Seq<char>)
    requires
        0 <= n,
    ensures
        found(choices, n + 1, component) <==> found(choices, n, component) || subject_of(choices[n])
            == SubjectModel::Component(component),
{
    if found(choices, n, component) {
        let i = choose|i: int|
            0 <= i < n && #[trigger] subject_of(choices[i]) == SubjectModel::Component(component);
        assert(0 <= i < n + 1);
    }
}

proof fn lemma_same_set_same_settlement(
    choices: Seq<PlistModel>,
    a: Seq<Seq<char>>,
    b: Seq<Seq<char>>,
    n: int,
)
    requires
        forall|name: Seq<char>| #[trigger] a.contains(name) <==> b.contains(name),
    ensures
        settled(choices, a, n) == settled(choices, b, n),
{
    assert forall|i: int| 0 <= i < choices.len() implies settled_choice(choices, a, i)
        == settled_choice(choices, b, i) by {
        if let SubjectModel::Component(component) = subject_of(choices[i]) {
            assert(a.contains(component) <==> b.contains(component));
        }
    }
    assert(settled(choices, a, n) =~= settled(choices, b, n));
}

/// Selects, among the choices about components of GStreamer, those about the wanted ones, and no others.
pub fn select_components(choices: &mut plist::Value, wanted: &Vec<String>) -> (r: Result<
    Report,
    ChoicesError,
>)
    ensures
        match contents(*old(choices)) {
            PlistModel::Array(items) => match r {
                Ok(report) => selected(items, texts(wanted@), contents(*final(choices)), report),
                Err(error) => error matches ChoicesError::MissingSetting(count) && stopped(
                    items,
                    texts(wanted@),
                    contents(*final(choices)),
                    count,
                ),
            },
            _ => {
                &&& r == Err::<Report, ChoicesError>(ChoicesError::UnexpectedFormat)
                &&& *final(choices) == *old(choices)
            },
        },
{
    let mut components = ComponentSet::from_names(wanted);
    let ghost names = components@;
    let items = match choices.as_array_mut() {
        Some(items) => items,
        None => return Err(ChoicesError::UnexpectedFormat),
    };
    let ghost before = all_contents(items@);
    let settlement = settle_choices(items, &mut components);
    match settlement {
        Err(count) => {
            proof {
                let after = contents(*choices)->Array_0;
                let n = choose|n: int| #[trigger]
                    first_unsettled(before, n) && after == settled(before, names, n) && count
                        == unidentified(before, n as nat);
                lemma_same_set_same_settlement(before, names, texts(wanted@), n);
                assert(first_unsettled(before, n));
            }
            Err(ChoicesError::MissingSetting(count))
        },
        Ok(count) => {
            let ghost left = components@;
            proof {
                lemma_same_set_same_settlement(
                    before,
                    names,
                    texts(wanted@),
                    before.len() as int,
                );
            }
            let missing = components.into_names();
            proof {
                assert forall|name: Seq<char>| #[trigger]
                    texts(missing@).contains(name) <==> texts(wanted@).contains(name) && !found(
                        before,
                        before.len() as int,
                        name,
                    ) by {
                    assert(left.contains(name) <==> names.contains(name) && !found(
                        before,
                        before.len() as int,
                        name,
                    ));
                }
            }
            Ok(Report { unidentified: count, missing })
        },
    }
}

/// Both the runtime package and the development package name a component so that it is recognised. A
/// component of the runtime package whose own name ends in `-devel` would be taken for one of the
/// development package.
pub proof fn lemma_both_packages_name_components(component: Seq<char>)
    requires
        "gstreamer-1.0-"@.is_prefix_of(component),
    ensures
        component_named("org.freedesktop.gstreamer.darwin."@ + component + "-devel"@) == Some(
            component,
        ),
        !"-devel"@.is_suffix_of(component) ==> component_named(
            "org.freedesktop.gstreamer.darwin."@ + component,
        ) == Some(component),
{
    let prefix = "org.freedesktop.gstreamer.darwin."@;
    let runtime = prefix + component;
    let development = runtime + "-devel"@;
    assert(prefix.is_prefix_of(runtime));
    assert(runtime.skip(prefix.len() as int) =~= component);
    assert(prefix.is_prefix_of(development));
    let suffix = development.skip(prefix.len() as int);
    assert(suffix =~= component + "-devel"@);
    assert("-devel"@.is_suffix_of(suffix));
    assert(suffix.take(suffix.len() - "-devel"@.len()) =~= component);
}

/// Settling a choice changes its setting and nothing else, so what it is about stays.
pub proof fn lemma_only_the_setting_changes(choice: PlistModel, on: bool)
    ensures
        subject_of(with_setting(choice, on)) == subject_of(choice),
        choice matches PlistModel::Dictionary(keys, before) ==> {
            &&& with_setting(choice, on) matches PlistModel::Dictionary(keys_after, after)
            &&& keys_after == keys
            &&& forall|key: Seq<char>|
                key != "attributeSetting"@ ==> {
                    &&& (#[trigger] after.dom().contains(key) <==> before.dom().contains(key))
                    &&& after[key] == before[key]
                }
        },
{
    reveal_strlit("attributeSetting");
    reveal_strlit("choiceAttribute");
    reveal_strlit("choiceIdentifier");
    assert("attributeSetting"@[0] != "choiceAttribute"@[0]);
    assert("attributeSetting"@[0] != "choiceIdentifier"@[0]);
}

/// Choices that are not about a component of GStreamer stay as they are.
pub proof fn lemma_other_choices_are_kept(
    choices: Seq<PlistModel>,
    wanted: Seq<Seq<char>>,
    i: int,
)
    requires
        0 <= i < choices.len(),
        !(subject_of(choices[i]) is Component),
    ensures
        settled(choices, wanted, choices.len() as int)[i] == choices[i],
{
}

/// A component is never selected twice: after the first choice about it, the others are off.
pub proof fn lemma_selected_at_most_once(
    choices: Seq<PlistModel>,
    wanted: Seq<Seq<char>>,
    i: int,
    j: int,
)
    requires
        0 <= i < j < choices.len(),
        subject_of(choices[i]) is Component,
        subject_of(choices[j]) == subject_of(choices[i]),
    ensures
        settled(choices, wanted, choices.len() as int)[j] == with_setting(choices[j], false),
{
    assert(found(choices, j, subject_of(choices[i])->Component_0));
}

/// A wanted component that some choice is about is selected. One that is not wanted never is.
pub proof fn lemma_wanted_components_are_selected(
    choices: Seq<PlistModel>,
    wanted: Seq<Seq<char>>,
    component: Seq<char>,
)
    requires
        found(choices, choices.len() as int, component),
    ensures
        ({
            let after = settled(choices, wanted, choices.len() as int);
            &&& wanted.contains(component) ==> exists|i: int|
                0 <= i < choices.len() && subject_of(choices[i]) == SubjectModel::Component(
                    component,
                ) && #[trigger] after[i] == with_setting(choices[i], true)
            &&& !wanted.contains(component) ==> forall|i: int|
                0 <= i < choices.len() && #[trigger] subject_of(choices[i])
                    == SubjectModel::Component(component) ==> after[i] == with_setting(
                    choices[i],
                    false,
                )
        }),
{
    let after = settled(choices, wanted, choices.len() as int);
    if wanted.contains(component) {
        lemma_first_found(choices, choices.len() as int, component);
        let i = choose|i: int|
            0 <= i < choices.len() && #[trigger] subject_of(choices[i]) == SubjectModel::Component(
                component,
            ) && !found(choices, i, component);
        assert(after[i] == with_setting(choices[i], true));
    }
}

proof fn lemma_first_found(choices: Seq<PlistModel>, n: int, component: Seq<char>)
    requires
        0 <= n,
        found(choices, n, component),
    ensures
        exists|i: int|
            0 <= i < n && #[trigger] subject_of(choices[i]) == SubjectModel::Component(component)
                && !found(choices, i, component),
    decreases n,
{
    let i = choose|i: int|
        0 <= i < n && #[trigger] subject_of(choices[i]) == SubjectModel::Component(component);
    if found(choices, i, component) {
        lemma_first_found(choices, i, component);
        let k = choose|k: int|
            0 <= k < i && #[trigger] subject_of(choices[k]) == SubjectModel::Component(component)
                && !found(choices, k, component);
        assert(0 <= k < n);
    }
}

/// Selecting the same components once more changes nothing.
pub proof fn lemma_selecting_again_changes_nothing(
    choices: Seq<PlistModel>,
    wanted: Seq<Seq<char>>,
)
    ensures
        ({
            let once = settled(choices, wanted, choices.len() as int);
            settled(once, wanted, once.len() as int) == once
        }),
{
    let n = choices.len() as int;
    let once = settled(choices, wanted, n);
    assert forall|i: int| 0 <= i < n implies #[trigger] subject_of(once[i]) == subject_of(
        choices[i],
    ) by {
        lemma_only_the_setting_changes(choices[i], true);
        lemma_only_the_setting_changes(choices[i], false);
    }
    assert forall|i: int| 0 <= i < n implies settled_choice(once, wanted, i) == once[i] by {
        if let SubjectModel::Component(component) = subject_of(choices[i]) {
            assert(subject_of(once[i]) == subject_of(choices[i]));
            lemma_same_subjects_same_found(once, choices, i, component);
            let on = wanted.contains(component) && !found(choices, i, component);
            assert(with_setting(with_setting(choices[i], on), on) == with_setting(choices[i], on))
                by {
                if let PlistModel::Dictionary(_, dictionary) = choices[i] {
                    let value = PlistModel::Integer(if on { 1int } else { 0int });
                    let key = "attributeSetting"@;
                    assert(dictionary.insert(key, value).insert(key, value) =~= dictionary.insert(
                        key,
                        value,
                    ));
                }
            }
        } else {
            assert(subject_of(once[i]) == subject_of(choices[i]));
        }
    }
    assert(settled(once, wanted, n) =~= once);
}

proof fn lemma_same_subjects_same_found(
    a: Seq<PlistModel>,
    b: Seq<PlistModel>,
    n: int,
    component: Seq<char>,
)
    requires
        forall|i: int| 0 <= i < n ==> #[trigger] subject_of(a[i]) == subject_of(b[i]),
    ensures
        found(a, n, component) == found(b, n, component),
{
    if found(a, n, component) {
        let i = choose|i: int|
            0 <= i < n && #[trigger] subject_of(a[i]) == SubjectModel::Component(component);
        assert(subject_of(b[i]) == SubjectModel::Component(component));
    }
    if found(b, n, component) {
        let i = choose|i: int|
            0 <= i < n && #[trigger] subject_of(b[i]) == SubjectModel::Component(component);
        assert(subject_of(a[i]) == SubjectModel::Component(component));
    }
}

} // verus!
