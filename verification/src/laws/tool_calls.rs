//! What calls of the packaging tools do.

use crate::component_set::{ascending, texts, ComponentSet};
use crate::laws::choices::{
    has_some_text, has_text, identifies, is_about, is_set, lemma_choices_that_are_set,
    lemma_choices_that_stay, lemma_identifiers, lemma_what_a_choice_is_about,
};
use crate::macos_gst_components::{
    choice_subject, component_of, contents, select_components, selected, settle_choice, stopped,
    ChoicesError, PlistModel, Report, Settlement, Subject, SubjectModel,
};
use crate::text::{comes_before, same_text, strip_prefix, strip_suffix, text_less};
use crate::windows_bundle::{is_bundled, programs, Directory, Program};
use vstd::prelude::*;

verus! {

/// An identifier names a component if it is that of one package or the other.
pub proof fn lemma_component_of(identifier: &str, component: Option<&str>, name: Seq<char>)
    requires
        call_ensures(component_of, (identifier,), component),
    ensures
        component matches Some(found) ==> identifies(identifier@, found@),
        identifies(identifier@, name) ==> component is Some && component->0@ == name,
{
    lemma_identifiers(identifier@, name);
    if let Some(found) = component {
        lemma_identifiers(identifier@, found@);
    }
}

/// A choice that is not whether something is selected concerns nothing. One that is concerns what its
/// identifier names, and lacks something if it has none.
pub proof fn lemma_choice_subject(
    attribute: Option<&str>,
    identifier: Option<&str>,
    about: Subject,
    name: Seq<char>,
)
    requires
        call_ensures(choice_subject, (attribute, identifier), about),
    ensures
        attribute is None || attribute->0@ != "selected"@ ==> about is Unrelated,
        attribute is Some && attribute->0@ == "selected"@ ==> {
            &&& identifier is None <==> about is Unidentified
            &&& about matches Subject::Component(component) ==> identifier is Some && identifies(
                identifier->0@,
                component@,
            )
            &&& identifier is Some && identifies(identifier->0@, name) ==> (
            about matches Subject::Component(component) && component@ == name)
        },
        match about {
            Subject::Unrelated => about@ is Unrelated,
            Subject::Unidentified => about@ is Unidentified,
            Subject::Component(component) => about@ == SubjectModel::Component(component@),
        },
{
    if let Some(identifier) = identifier {
        lemma_identifiers(identifier@, name);
        if let Subject::Component(component) = about {
            lemma_identifiers(identifier@, component@);
        }
    }
}

/// A choice about a component is on if the component is wanted, which it then is no more, and off
/// otherwise; without a setting it stays. All other choices stay, and so does what is wanted.
pub proof fn lemma_settle_choice(
    choice: &mut plist::Value,
    components: &mut ComponentSet,
    settlement: Settlement,
    component: Seq<char>,
)
    requires
        call_ensures(settle_choice, (choice, components), settlement),
    ensures
        ({
            let before = contents(*old(choice));
            let after = contents(*final(choice));
            &&& is_about(before, component) ==> {
                &&& settlement == Settlement::Settled ==> is_set(
                    before,
                    after,
                    old(components)@.contains(component),
                )
                &&& settlement == Settlement::Unsettled ==> after == before
                &&& settlement == Settlement::Settled || settlement == Settlement::Unsettled
                &&& !final(components)@.contains(component)
                &&& forall|name: Seq<char>|
                    name != component ==> (#[trigger] final(components)@.contains(name) <==> old(
                        components,
                    )@.contains(name))
            }
            &&& !has_text(before, "choiceAttribute"@, "selected"@) ==> {
                &&& after == before
                &&& settlement == Settlement::Left
                &&& final(components)@ == old(components)@
            }
            &&& settlement == Settlement::Unidentified <==> has_text(
                before,
                "choiceAttribute"@,
                "selected"@,
            ) && !has_some_text(before, "choiceIdentifier"@)
        }),
{
    lemma_what_a_choice_is_about(contents(*old(choice)), component);
}

/// A selection leaves every choice that is not whether something is selected, and turns on the first choice
/// about each wanted component and turns off all others about components.
pub proof fn lemma_select_components(
    choices: &mut plist::Value,
    wanted: &Vec<String>,
    report: Report,
    items: Seq<PlistModel>,
    i: int,
    component: Seq<char>,
)
    requires
        call_ensures(select_components, (choices, wanted), Ok(report)),
        contents(*old(choices)) == PlistModel::Array(items),
        0 <= i < items.len(),
    ensures
        contents(*final(choices)) matches PlistModel::Array(after) && {
            &&& after.len() == items.len()
            &&& !has_text(items[i], "choiceAttribute"@, "selected"@) ==> after[i] == items[i]
            &&& is_about(items[i], component) ==> is_set(
                items[i],
                after[i],
                texts(wanted@).contains(component) && forall|j: int|
                    0 <= j < i ==> !is_about(#[trigger] items[j], component),
            )
        },
{
    let names = texts(wanted@);
    assert(selected(items, names, contents(*final(choices)), report));
    if !has_text(items[i], "choiceAttribute"@, "selected"@) {
        lemma_choices_that_stay(items, names, items.len() as int, i);
    }
    if is_about(items[i], component) {
        lemma_choices_that_are_set(items, names, component, i);
    }
}

/// A selection is made of an array in which it does not have to stop, and of nothing else.
pub proof fn lemma_outcomes_of_select_components(
    choices: &mut plist::Value,
    wanted: &Vec<String>,
    result: Result<Report, ChoicesError>,
)
    requires
        call_ensures(select_components, (choices, wanted), result),
    ensures
        contents(*old(choices)) matches PlistModel::Array(items) ==> match result {
            Ok(report) => selected(items, texts(wanted@), contents(*final(choices)), report),
            Err(ChoicesError::MissingSetting(count)) => stopped(
                items,
                texts(wanted@),
                contents(*final(choices)),
                count,
            ),
            Err(ChoicesError::UnexpectedFormat) => false,
        },
        !(contents(*old(choices)) is Array) ==> {
            &&& result == Err::<Report, ChoicesError>(ChoicesError::UnexpectedFormat)
            &&& *final(choices) == *old(choices)
        },
{
}

/// A set holds the names that it was made of, each once and in order. A name that is added is there, and
/// one that is removed is not.
pub proof fn lemma_component_sets(
    names: &Vec<String>,
    set: ComponentSet,
    listed: Vec<String>,
    more: &mut ComponentSet,
    added: &str,
    fewer: &mut ComponentSet,
    taken: &str,
    was_there: bool,
    other: Seq<char>,
)
    requires
        call_ensures(ComponentSet::from_names, (names,), set),
        call_ensures(ComponentSet::into_names, (set,), listed),
        call_ensures(ComponentSet::insert, (more, added), ()),
        call_ensures(ComponentSet::remove, (fewer, taken), was_there),
    ensures
        ascending(texts(listed@)),
        texts(listed@).contains(other) <==> texts(names@).contains(other),
        ascending(final(more)@),
        final(more)@.contains(other) <==> old(more)@.contains(other) || other == added@,
        ascending(final(fewer)@),
        was_there <==> old(fewer)@.contains(taken@),
        final(fewer)@.contains(other) <==> old(fewer)@.contains(other) && other != taken@,
{
}

/// Texts are compared, and cut where they start or end as they should.
pub proof fn lemma_cutting_texts(
    a: &str,
    b: &str,
    same: bool,
    before: bool,
    rest: Option<&str>,
    front: Option<&str>,
)
    requires
        call_ensures(same_text, (a, b), same),
        call_ensures(comes_before, (a, b), before),
        call_ensures(strip_prefix, (a, b), rest),
        call_ensures(strip_suffix, (a, b), front),
    ensures
        same <==> a@ == b@,
        before <==> text_less(a@, b@),
        rest is Some <==> b@.is_prefix_of(a@),
        rest matches Some(text) ==> a@ == b@ + text@,
        front is Some <==> b@.is_suffix_of(a@),
        front matches Some(text) ==> a@ == text@ + b@,
{
    if let Some(text) = rest {
        assert(a@ =~= b@ + text@);
    }
    if let Some(text) = front {
        assert(a@ =~= text@ + b@);
    }
}

/// What the bundle holds.
pub proof fn lemma_bundle(listed: Vec<Program>, extension: Option<&str>, bundled: bool)
    requires
        call_ensures(programs, (), listed),
        call_ensures(is_bundled, (extension,), bundled),
    ensures
        listed@.len() == 3,
        listed@[0].file_name@ == "ntsc-rs-standalone.exe"@,
        listed@[0].directory == Directory::Bin,
        listed@[1].file_name@ == "ntsc-rs-cli.exe"@,
        listed@[1].directory == Directory::Bin,
        listed@[2].file_name@ == "ntsc-rs-launcher.exe"@,
        listed@[2].directory == Directory::Root,
        bundled <==> extension is Some && extension->0@ == "dll"@,
{
}

} // verus!
