use std::io::Cursor;

use ntsc_rs_gst::component_set::ComponentSet;
use ntsc_rs_gst::macos_gst_components::{
    choice_subject, component_of, select_components, settle_choice, ChoicesError, Report,
    Settlement, Subject,
};
use ntsc_rs_gst::text::{comes_before, same_text, strip_prefix, strip_suffix};
use ntsc_rs_gst::windows_bundle::{is_bundled, programs, Directory};

fn names(list: &[&str]) -> Vec<String> {
    list.iter().map(|name| name.to_string()).collect()
}

fn choice(entries: &[(&str, plist::Value)]) -> plist::Value {
    let mut dictionary = plist::Dictionary::new();
    for (key, value) in entries {
        dictionary.insert(key.to_string(), value.clone());
    }
    plist::Value::Dictionary(dictionary)
}

fn text(value: &str) -> plist::Value {
    plist::Value::String(value.to_string())
}

fn number(value: u8) -> plist::Value {
    plist::Value::Integer(value.into())
}

fn component_choice(component: &str, setting: u8) -> plist::Value {
    choice(&[
        ("attributeSetting", number(setting)),
        ("choiceAttribute", text("selected")),
        (
            "choiceIdentifier",
            text(&format!("org.freedesktop.gstreamer.darwin.{component}")),
        ),
    ])
}

fn setting(choices: &plist::Value, index: usize) -> Option<u64> {
    choices.as_array().unwrap()[index]
        .as_dictionary()
        .unwrap()
        .get("attributeSetting")
        .and_then(|value| value.as_unsigned_integer())
}

const CHOICES: &str = r#"<?xml version="1.0" encoding="UTF-8"?>
<plist version="1.0">
<array>
	<dict>
		<key>attributeSetting</key>
		<true/>
		<key>choiceAttribute</key>
		<string>visible</string>
		<key>choiceIdentifier</key>
		<string>org.freedesktop.gstreamer.darwin.gstreamer-1.0-core</string>
	</dict>
	<dict>
		<key>attributeSetting</key>
		<integer>0</integer>
		<key>choiceAttribute</key>
		<string>selected</string>
		<key>choiceIdentifier</key>
		<string>org.freedesktop.gstreamer.darwin.gstreamer-1.0-core</string>
	</dict>
	<dict>
		<key>attributeSetting</key>
		<integer>1</integer>
		<key>choiceAttribute</key>
		<string>selected</string>
		<key>choiceIdentifier</key>
		<string>org.freedesktop.gstreamer.darwin.gstreamer-1.0-net</string>
	</dict>
	<dict>
		<key>attributeSetting</key>
		<integer>1</integer>
		<key>choiceAttribute</key>
		<string>selected</string>
		<key>choiceIdentifier</key>
		<string>org.freedesktop.gstreamer.darwin.osx-framework</string>
	</dict>
	<dict>
		<key>attributeSetting</key>
		<integer>1</integer>
		<key>choiceAttribute</key>
		<string>selected</string>
	</dict>
	<string>not a choice</string>
</array>
</plist>"#;

#[test]
fn selects_the_wanted_components() {
    let before = plist::Value::from_reader(Cursor::new(CHOICES.as_bytes())).unwrap();
    let mut after = before.clone();
    let wanted = names(&["gstreamer-1.0-zebra", "gstreamer-1.0-core", "gstreamer-1.0-absent"]);
    assert_eq!(
        select_components(&mut after, &wanted),
        Ok(Report {
            unidentified: 1,
            missing: names(&["gstreamer-1.0-absent", "gstreamer-1.0-zebra"]),
        })
    );
    assert_eq!(setting(&after, 1), Some(1));
    assert_eq!(setting(&after, 2), Some(0));
    for index in [0, 3, 4, 5] {
        assert_eq!(after.as_array().unwrap()[index], before.as_array().unwrap()[index]);
    }
    let mut xml = Vec::new();
    after.to_writer_xml(&mut xml).unwrap();
    let again = plist::Value::from_reader(Cursor::new(xml)).unwrap();
    assert_eq!(again, after);
}

#[test]
fn selecting_again_changes_nothing() {
    let mut choices = plist::Value::from_reader(Cursor::new(CHOICES.as_bytes())).unwrap();
    let wanted = names(&["gstreamer-1.0-net"]);
    select_components(&mut choices, &wanted).unwrap();
    let once = choices.clone();
    select_components(&mut choices, &wanted).unwrap();
    assert_eq!(choices, once);
}

#[test]
fn a_component_is_selected_once() {
    let mut choices = plist::Value::Array(vec![
        component_choice("gstreamer-1.0-core-devel", 0),
        component_choice("gstreamer-1.0-core", 1),
        component_choice("gstreamer-1.0-codecs", 1),
    ]);
    let report = select_components(&mut choices, &names(&["gstreamer-1.0-core"])).unwrap();
    assert_eq!(report, Report { unidentified: 0, missing: vec![] });
    assert_eq!(setting(&choices, 0), Some(1));
    assert_eq!(setting(&choices, 1), Some(0));
    assert_eq!(setting(&choices, 2), Some(0));
}

#[test]
fn only_the_setting_of_a_choice_changes() {
    let mut choices = plist::Value::Array(vec![choice(&[
        ("note", text("kept")),
        ("attributeSetting", text("on")),
        ("choiceAttribute", text("selected")),
        (
            "choiceIdentifier",
            text("org.freedesktop.gstreamer.darwin.gstreamer-1.0-core"),
        ),
    ])]);
    select_components(&mut choices, &names(&["gstreamer-1.0-core"])).unwrap();
    let keys: Vec<String> = choices.as_array().unwrap()[0]
        .as_dictionary()
        .unwrap()
        .keys()
        .cloned()
        .collect();
    assert_eq!(keys, ["note", "attributeSetting", "choiceAttribute", "choiceIdentifier"]);
    assert_eq!(setting(&choices, 0), Some(1));
}

#[test]
fn only_an_array_of_choices_is_accepted() {
    let before = component_choice("gstreamer-1.0-core", 0);
    let mut value = before.clone();
    assert_eq!(
        select_components(&mut value, &names(&["gstreamer-1.0-core"])),
        Err(ChoicesError::UnexpectedFormat)
    );
    assert_eq!(value, before);
}

#[test]
fn a_choice_without_a_setting_cannot_be_settled() {
    let unsettled = choice(&[
        ("choiceAttribute", text("selected")),
        (
            "choiceIdentifier",
            text("org.freedesktop.gstreamer.darwin.gstreamer-1.0-core"),
        ),
    ]);
    let unidentified = choice(&[("choiceAttribute", text("selected"))]);
    let mut choices = plist::Value::Array(vec![
        component_choice("gstreamer-1.0-net", 1),
        unidentified.clone(),
        unsettled.clone(),
        component_choice("gstreamer-1.0-codecs", 1),
        unidentified.clone(),
    ]);
    assert_eq!(
        select_components(&mut choices, &names(&["gstreamer-1.0-core"])),
        Err(ChoicesError::MissingSetting(1))
    );
    assert_eq!(setting(&choices, 0), Some(0));
    assert_eq!(choices.as_array().unwrap()[1], unidentified);
    assert_eq!(choices.as_array().unwrap()[2], unsettled);
    assert_eq!(setting(&choices, 3), Some(1));
}

#[test]
fn one_choice_is_settled() {
    let mut components = ComponentSet::from_names(&names(&["gstreamer-1.0-core", "other"]));
    let mut unrelated = text("no choice");
    assert_eq!(settle_choice(&mut unrelated, &mut components), Settlement::Left);
    let mut unidentified = choice(&[("choiceAttribute", text("selected"))]);
    assert_eq!(settle_choice(&mut unidentified, &mut components), Settlement::Unidentified);
    let mut core = component_choice("gstreamer-1.0-core", 0);
    assert_eq!(settle_choice(&mut core, &mut components), Settlement::Settled);
    assert_eq!(core, component_choice("gstreamer-1.0-core", 1));
    assert_eq!(settle_choice(&mut core, &mut components), Settlement::Settled);
    assert_eq!(core, component_choice("gstreamer-1.0-core", 0));
    let mut bare = choice(&[
        ("choiceAttribute", text("selected")),
        (
            "choiceIdentifier",
            text("org.freedesktop.gstreamer.darwin.gstreamer-1.0-net"),
        ),
    ]);
    assert_eq!(settle_choice(&mut bare, &mut components), Settlement::Unsettled);
    assert_eq!(components.into_names(), names(&["other"]));
}

#[test]
fn identifiers_name_components() {
    let prefix = "org.freedesktop.gstreamer.darwin.";
    let component = |suffix: &str| component_of(&format!("{prefix}{suffix}")).map(str::to_owned);
    assert_eq!(component("gstreamer-1.0-core"), Some("gstreamer-1.0-core".to_owned()));
    assert_eq!(component("gstreamer-1.0-core-devel"), Some("gstreamer-1.0-core".to_owned()));
    assert_eq!(component("gstreamer-1.0-"), Some("gstreamer-1.0-".to_owned()));
    assert_eq!(component("gstreamer-1.0-devel"), None);
    assert_eq!(component("base-system-1.0"), None);
    assert_eq!(component("-devel"), None);
    assert_eq!(component_of("gstreamer-1.0-core"), None);
    assert_eq!(component_of("org.freedesktop.gstreamer.darwin"), None);
}

#[test]
fn a_choice_needs_an_attribute_and_an_identifier() {
    let identifier = "org.freedesktop.gstreamer.darwin.gstreamer-1.0-net";
    assert_eq!(choice_subject(None, Some(identifier)), Subject::Unrelated);
    assert_eq!(choice_subject(Some("visible"), Some(identifier)), Subject::Unrelated);
    assert_eq!(choice_subject(Some("visible"), None), Subject::Unrelated);
    assert_eq!(choice_subject(Some("selected"), None), Subject::Unidentified);
    assert_eq!(choice_subject(Some("selected"), Some("other")), Subject::Unrelated);
    assert_eq!(
        choice_subject(Some("selected"), Some(identifier)),
        Subject::Component("gstreamer-1.0-net".to_owned())
    );
}

#[test]
fn a_component_set_is_in_order() {
    let mut set = ComponentSet::from_names(&names(&["b", "ab", "é", "a", "b", ""]));
    assert!(!set.remove("c"));
    assert!(set.remove("ab"));
    assert!(!set.remove("ab"));
    set.insert("z");
    set.insert("b");
    assert_eq!(set.into_names(), names(&["", "a", "b", "z", "é"]));
    assert_eq!(
        ComponentSet::from_names(&names(&["x", "y"])),
        ComponentSet::from_names(&names(&["y", "x", "y"]))
    );
}

#[test]
fn texts_are_compared_and_cut() {
    assert!(comes_before("", "a"));
    assert!(comes_before("a", "ab"));
    assert!(comes_before("ab", "b"));
    assert!(!comes_before("b", "ab"));
    assert!(!comes_before("ab", "ab"));
    assert!(comes_before("z", "é"));
    assert!(same_text("é", "é"));
    assert!(!same_text("é", "e"));
    assert_eq!(strip_prefix("éclair", "é"), Some("clair"));
    assert_eq!(strip_prefix("é", "éclair"), None);
    assert_eq!(strip_prefix("clair", "é"), None);
    assert_eq!(strip_suffix("café", "é"), Some("caf"));
    assert_eq!(strip_suffix("caf", "é"), None);
    assert_eq!(strip_suffix("é", "café"), None);
}

#[test]
fn programs_have_their_directories() {
    let placed: Vec<(&str, Directory)> = programs()
        .iter()
        .map(|program| (program.file_name, program.directory))
        .collect();
    assert_eq!(
        placed,
        [
            ("ntsc-rs-standalone.exe", Directory::Bin),
            ("ntsc-rs-cli.exe", Directory::Bin),
            ("ntsc-rs-launcher.exe", Directory::Root),
        ]
    );
}

#[test]
fn shared_libraries_are_bundled() {
    assert!(is_bundled(Some("dll")));
    assert!(!is_bundled(Some("DLL")));
    assert!(!is_bundled(Some("exe")));
    assert!(!is_bundled(Some("")));
    assert!(!is_bundled(None));
}
