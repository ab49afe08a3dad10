//! The bundle manifest: a property list of which three text entries are
//! required.

use vstd::prelude::*;
use vstd::string::StringExecFns;

verus! {

/// A decoded property list, as `plist` holds it.
#[verifier::external_type_specification]
#[verifier::external_body]
pub struct ExValue(plist::Value);

/// The dictionary of a property list, as `plist` holds it.
#[verifier::external_type_specification]
#[verifier::external_body]
pub struct ExDictionary(plist::Dictionary);

/// The text that a value is; `None` for a value of any other kind.
pub uninterp spec fn value_text(value: plist::Value) -> Option<Seq<char>>;

/// The entries of a dictionary whose values are texts, by key.
pub uninterp spec fn dictionary_strings(dictionary: plist::Dictionary) -> Map<Seq<char>, Seq<char>>;

/// The text entries of a decoded document: those of the dictionary that it
/// is, and none where it is no dictionary.
pub uninterp spec fn document_strings(document: plist::Value) -> Map<Seq<char>, Seq<char>>;

/// The text entries of the document that the bytes encode; `None` where the
/// bytes do not decode.
pub uninterp spec fn decoded_strings(bytes: Seq<u8>) -> Option<Map<Seq<char>, Seq<char>>>;

/// `plist::Value::from_reader` on the bytes, in whichever of the encodings
/// it recognises: the document, or `None` where decoding fails.
#[verifier::external_body]
fn read_document(bytes: &[u8]) -> (r: Option<plist::Value>)
    ensures
        match r {
            Some(document) => decoded_strings(bytes@) == Some(document_strings(document)),
            None => decoded_strings(bytes@) is None,
        },
{
    plist::Value::from_reader(std::io::Cursor::new(bytes)).ok()
}

/// The dictionary that the value is, or `None` for a value of another kind,
/// which has no entries.
pub assume_specification<'a>[ plist::Value::as_dictionary ](value: &'a plist::Value) -> (r: Option<
    &'a plist::Dictionary,
>)
    ensures
        match r {
            Some(dictionary) => document_strings(*value) == dictionary_strings(*dictionary),
            None => document_strings(*value) == Map::<Seq<char>, Seq<char>>::empty(),
        },
;

/// The value under the key, or `None` where the dictionary has none. The
/// key is among the text entries exactly where that value is a text, and the
/// entry is then this text.
pub assume_specification<'a>[ plist::Dictionary::get ](
    dictionary: &'a plist::Dictionary,
    key: &str,
) -> (r: Option<&'a plist::Value>)
    ensures
        match r {
            Some(value) => match value_text(*value) {
                Some(text) => dictionary_strings(*dictionary).contains_key(key@) && dictionary_strings(
                    *dictionary,
                )[key@] == text,
                None => !dictionary_strings(*dictionary).contains_key(key@),
            },
            None => !dictionary_strings(*dictionary).contains_key(key@),
        },
;

/// The text that the value is, or `None` for a value of another kind.
pub assume_specification<'a>[ plist::Value::as_string ](value: &'a plist::Value) -> (r: Option<&'a str>)
    ensures
        match r {
            Some(text) => value_text(*value) == Some(text@),
            None => value_text(*value) is None,
        },
;

/// The key of the display name.
pub open spec fn name_key() -> Seq<char> {
    "CFBundleName"@
}

/// The key of the bundle identifier.
pub open spec fn identifier_key() -> Seq<char> {
    "CFBundleIdentifier"@
}

/// The key of the icon file's name.
pub open spec fn icon_file_key() -> Seq<char> {
    "CFBundleIconFile"@
}

/// What a manifest has to say of its bundle.
pub struct ManifestFields {
    pub name: String,
    pub bundle_id: String,
    pub icon_file: String,
}

/// The three texts of a `ManifestFields`.
pub struct ManifestView {
    pub name: Seq<char>,
    pub bundle_id: Seq<char>,
    pub icon_file: Seq<char>,
}

impl View for ManifestFields {
    type V = ManifestView;

    open spec fn view(&self) -> ManifestView {
        ManifestView { name: self.name@, bundle_id: self.bundle_id@, icon_file: self.icon_file@ }
    }
}

/// The fields that a document's text entries give: all three, or nothing.
pub open spec fn fields_of(strings: Map<Seq<char>, Seq<char>>) -> Option<ManifestView> {
    if strings.contains_key(name_key()) && strings.contains_key(identifier_key()) && strings.contains_key(
        icon_file_key(),
    ) {
        Some(
            ManifestView {
                name: strings[name_key()],
                bundle_id: strings[identifier_key()],
                icon_file: strings[icon_file_key()],
            },
        )
    } else {
        None
    }
}

/// The fields that a manifest file gives: those of its document, and nothing
/// where the file does not decode.
pub open spec fn manifest_of(bytes: Seq<u8>) -> Option<ManifestView> {
    match decoded_strings(bytes) {
        Some(strings) => fields_of(strings),
        None => None,
    }
}

/// The fields, where all three entries were found.
pub fn required_fields(name: Option<String>, bundle_id: Option<String>, icon_file: Option<String>) -> (r:
    Option<ManifestFields>)
    ensures
        r is Some <==> name is Some && bundle_id is Some && icon_file is Some,
        r matches Some(fields) ==> fields.name == name->0 && fields.bundle_id == bundle_id->0
            && fields.icon_file == icon_file->0,
{
    match (name, bundle_id, icon_file) {
        (Some(name), Some(bundle_id), Some(icon_file)) => Some(ManifestFields { name, bundle_id, icon_file }),
        _ => None,
    }
}

/// The text under a key of the dictionary, where there is one.
fn string_entry(dictionary: &plist::Dictionary, key: &str) -> (r: Option<String>)
    ensures
        match r {
            Some(text) => dictionary_strings(*dictionary).contains_key(key@) && dictionary_strings(
                *dictionary,
            )[key@] == text@,
            None => !dictionary_strings(*dictionary).contains_key(key@),
        },
{
    match dictionary.get(key) {
        Some(value) => match value.as_string() {
            Some(text) => Some(String::from_str(text)),
            None => None,
        },
        None => None,
    }
}

/// Decodes a manifest file and takes the display name, the bundle identifier
/// and the icon file's name from it. `None` where the file does not decode
/// or any of the three is missing or not a text.
pub fn parse_manifest(bytes: &[u8]) -> (r: Option<ManifestFields>)
    ensures
        match r {
            Some(fields) => manifest_of(bytes@) == Some(fields@),
            None => manifest_of(bytes@) is None,
        },
{
    let document = match read_document(bytes) {
        Some(document) => document,
        None => {
            return None;
        },
    };
    match document.as_dictionary() {
        Some(dictionary) => {
            let name = string_entry(dictionary, "CFBundleName");
            let bundle_id = string_entry(dictionary, "CFBundleIdentifier");
            let icon_file = string_entry(dictionary, "CFBundleIconFile");
            required_fields(name, bundle_id, icon_file)
        },
        None => None,
    }
}

} // verus!
