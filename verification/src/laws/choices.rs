//! Which choices of an installer are on.

use crate::component_set::{ascending, texts};
use crate::laws::texts::{lemma_prefix, lemma_suffix};
use crate::macos_gst_components::{
    component_named, found, has_setting, selected, settled, stopped, subject_of, unidentified,
    unsettled, PlistModel, Report, SubjectModel,
};
use crate::text::{after_prefix, before_suffix};
use vstd::prelude::*;

verus! {

/// The choice has this text under this key.
pub open spec fn has_text(choice: PlistModel, key: Seq<char>, text: Seq<char>) -> bool {
    choice matches PlistModel::Dictionary(_, dictionary) && dictionary.dom().contains(key)
        && dictionary[key] == PlistModel::Text(text)
}

/// The choice has some text under this key.
pub open spec fn has_some_text(choice: PlistModel, key: Seq<char>) -> bool {
    choice matches PlistModel::Dictionary(_, dictionary) && dictionary.dom().contains(key)
        && dictionary[key] is Text
}

/// The identifier is that of the component, in the runtime package or in the development package. A name
/// that ends in `-devel` cannot be one of the runtime package.
pub open spec fn identifies(identifier: Seq<char>, component: Seq<char>) -> bool {
    let runtime = "org.freedesktop.gstreamer.darwin."@ + component;
    &&& "gstreamer-1.0-"@.is_prefix_of(component)
    &&& identifier == runtime + "-devel"@ || (identifier == runtime && !"-devel"@.is_suffix_of(
        component,
    ))
}

/// The choice is whether the component is installed.
pub open spec fn is_about(choice: PlistModel, component: Seq<char>) -> bool {
    &&& has_text(choice, "choiceAttribute"@, "selected"@)
    &&& exists|identifier: Seq<char>| #[trigger]
        has_text(choice, "choiceIdentifier"@, identifier) && identifies(identifier, component)
}

/// The choice is on or off, the number one or zero, and is as before otherwise.
pub open spec fn is_set(before: PlistModel, after: PlistModel, on: bool) -> bool {
    &&& before matches PlistModel::Dictionary(keys_before, a)
    &&& after matches PlistModel::Dictionary(keys_after, b)
    &&& keys_after == keys_before
    &&& b.dom().contains("attributeSetting"@)
    &&& b["attributeSetting"@] == PlistModel::Integer(
        if on {
            1
        } else {
            0
        },
    )
    &&& forall|key: Seq<char>|
        key != "attributeSetting"@ ==> {
            &&& (#[trigger] b.dom().contains(key) <==> a.dom().contains(key))
            &&& b[key] == a[key]
        }
}

/// Which identifiers name a component.
pub proof fn lemma_identifiers(identifier: Seq<char>, component: Seq<char>)
    ensures
        component_named(identifier) == Some(component) <==> identifies(identifier, component),
{
    let prefix = "org.freedesktop.gstreamer.darwin."@;
    let devel = "-devel"@;
    let runtime = prefix + component;
    if identifies(identifier, component) {
        if identifier == runtime + devel {
            assert(identifier =~= prefix + (component + devel));
            lemma_prefix(identifier, prefix, component + devel);
            lemma_suffix(component + devel, devel, component);
        } else {
            lemma_prefix(identifier, prefix, component);
        }
    }
    if component_named(identifier) == Some(component) {
        let suffix = after_prefix(identifier, prefix)->0;
        lemma_prefix(identifier, prefix, suffix);
        match before_suffix(suffix, devel) {
            Some(rest) => {
                lemma_suffix(suffix, devel, rest);
                assert(identifier =~= runtime + devel);
            },
            None => {},
        }
    }
}

/// What a choice is about, by its texts.
pub proof fn lemma_what_a_choice_is_about(choice: PlistModel, component: Seq<char>)
    ensures
        subject_of(choice) == SubjectModel::Component(component) <==> is_about(choice, component),
        subject_of(choice) is Unidentified <==> has_text(choice, "choiceAttribute"@, "selected"@)
            && !has_some_text(choice, "choiceIdentifier"@),
{
    if let PlistModel::Dictionary(_, dictionary) = choice {
        if has_some_text(choice, "choiceIdentifier"@) {
            let identifier = dictionary["choiceIdentifier"@]->Text_0;
            lemma_identifiers(identifier, component);
            assert(has_text(choice, "choiceIdentifier"@, identifier));
        }
    }
}

/// A choice that is not whether something is selected stays as it is, and so does one that is no
/// dictionary, and one whose identifier is missing or names no component.
pub proof fn lemma_choices_that_stay(
    choices: Seq<PlistModel>,
    wanted: Seq<Seq<char>>,
    n: int,
    i: int,
)
    requires
        0 <= i < choices.len(),
        !has_text(choices[i], "choiceAttribute"@, "selected"@) || forall|component: Seq<char>|
            !#[trigger] is_about(choices[i], component),
    ensures
        settled(choices, wanted, n)[i] == choices[i],
{
    if let SubjectModel::Component(component) = subject_of(choices[i]) {
        lemma_what_a_choice_is_about(choices[i], component);
    }
}

/// Among the choices about a wanted component, the first is on. The later ones, and all about components
/// that are not wanted, are off.
pub proof fn lemma_choices_that_are_set(
    choices: Seq<PlistModel>,
    wanted: Seq<Seq<char>>,
    component: Seq<char>,
    i: int,
)
    requires
        0 <= i < choices.len(),
        is_about(choices[i], component),
    ensures
        ({
            let after = settled(choices, wanted, choices.len() as int)[i];
            let first = forall|j: int| 0 <= j < i ==> !is_about(#[trigger] choices[j], component);
            is_set(choices[i], after, first && wanted.contains(component))
        }),
{
    lemma_what_a_choice_is_about(choices[i], component);
    lemma_found(choices, i, component);
}

/// A component is found if some choice is about it.
pub proof fn lemma_found(choices: Seq<PlistModel>, n: int, component: Seq<char>)
    ensures
        found(choices, n, component) <==> exists|j: int|
            0 <= j < n && is_about(#[trigger] choices[j], component),
{
    if found(choices, n, component) {
        let j = choose|j: int|
            0 <= j < n && #[trigger] subject_of(choices[j]) == SubjectModel::Component(component);
        lemma_what_a_choice_is_about(choices[j], component);
        assert(is_about(choices[j], component));
    }
    if exists|j: int| 0 <= j < n && is_about(#[trigger] choices[j], component) {
        let j = choose|j: int| 0 <= j < n && is_about(#[trigger] choices[j], component);
        lemma_what_a_choice_is_about(choices[j], component);
        assert(subject_of(choices[j]) == SubjectModel::Component(component));
    }
}

/// Settling changes the first choices, one for one, and leaves the others.
pub proof fn lemma_choices_in_their_places(
    choices: Seq<PlistModel>,
    wanted: Seq<Seq<char>>,
    n: int,
    i: int,
)
    requires
        0 <= i < choices.len(),
    ensures
        settled(choices, wanted, n).len() == choices.len(),
        i >= n ==> settled(choices, wanted, n)[i] == choices[i],
        i < n ==> settled(choices, wanted, n)[i] == settled(choices, wanted, choices.len() as int)[i],
{
}

/// A choice cannot be settled if it is about a component and has no setting.
pub proof fn lemma_choices_without_a_setting(choice: PlistModel, component: Seq<char>)
    ensures
        has_setting(choice) <==> (choice matches PlistModel::Dictionary(_, dictionary)
            && dictionary.dom().contains("attributeSetting"@)),
        is_about(choice, component) ==> (unsettled(choice) <==> !has_setting(choice)),
        unsettled(choice) ==> exists|c: Seq<char>| #[trigger] is_about(choice, c),
{
    lemma_what_a_choice_is_about(choice, component);
    if unsettled(choice) {
        let c = subject_of(choice)->Component_0;
        lemma_what_a_choice_is_about(choice, c);
        assert(is_about(choice, c));
    }
}

/// Choices without an identifier are counted, one by one.
pub proof fn lemma_counting_unidentified(choices: Seq<PlistModel>, n: nat)
    ensures
        unidentified(choices, 0) == 0,
        unidentified(choices, n + 1) == unidentified(choices, n) + (if has_text(
            choices[n as int],
            "choiceAttribute"@,
            "selected"@,
        ) && !has_some_text(choices[n as int], "choiceIdentifier"@) {
            1nat
        } else {
            0nat
        }),
{
    lemma_what_a_choice_is_about(choices[n as int], seq![]);
}

/// A selection that was made settled every choice, and reports the wanted components that no choice is
/// about, in order.
pub proof fn lemma_selection(
    choices: Seq<PlistModel>,
    wanted: Seq<Seq<char>>,
    after: PlistModel,
    report: Report,
    name: Seq<char>,
)
    requires
        selected(choices, wanted, after, report),
    ensures
        after == PlistModel::Array(settled(choices, wanted, choices.len() as int)),
        report.unidentified == unidentified(choices, choices.len()),
        ascending(texts(report.missing@)),
        texts(report.missing@).contains(name) <==> wanted.contains(name) && forall|j: int|
            0 <= j < choices.len() ==> !is_about(#[trigger] choices[j], name),
        forall|i: int|
            0 <= i < choices.len() ==> {
                let choice = #[trigger] choices[i];
                (exists|c: Seq<char>| #[trigger] is_about(choice, c)) ==> (
                choice matches PlistModel::Dictionary(_, dictionary) && dictionary.dom().contains(
                    "attributeSetting"@,
                ))
            },
{
    lemma_found(choices, choices.len() as int, name);
    assert forall|i: int| 0 <= i < choices.len() implies ({
        let choice = #[trigger] choices[i];
        (exists|c: Seq<char>| #[trigger] is_about(choice, c)) ==> (
        choice matches PlistModel::Dictionary(_, dictionary) && dictionary.dom().contains(
            "attributeSetting"@,
        ))
    }) by {
        let choice = choices[i];
        if exists|c: Seq<char>| #[trigger] is_about(choice, c) {
            let c = choose|c: Seq<char>| #[trigger] is_about(choice, c);
            lemma_choices_without_a_setting(choice, c);
            assert(!unsettled(choices[i]));
        }
    }
}

/// A selection that stopped did so at a choice about a component without a setting. The choices before it
/// are settled, and the others stay.
pub proof fn lemma_stopped_selection(
    choices: Seq<PlistModel>,
    wanted: Seq<Seq<char>>,
    after: PlistModel,
    count: usize,
)
    requires
        stopped(choices, wanted, after, count),
    ensures
        exists|n: int|
            {
                &&& 0 <= n < choices.len()
                &&& #[trigger] unsettled(choices[n])
                &&& (forall|i: int| 0 <= i < n ==> !unsettled(#[trigger] choices[i]))
                &&& after == PlistModel::Array(settled(choices, wanted, n))
                &&& count == unidentified(choices, n as nat)
            },
{
}

} // verus!
