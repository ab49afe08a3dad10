//! From the files of application bundles to the catalog of a scan.

use vstd::prelude::*;
use vstd::string::StringExecFns;
use crate::catalog::{
    build_catalog,
    catalog_of,
    is_catalog,
    lemma_catalog_of,
    lemma_each_record_once,
    lemma_repeats_change_nothing,
};
use crate::icon::{container_variants, extract_and_encode_icon, icon_of};
use crate::manifest::{
    decoded_strings,
    identifier_key,
    manifest_of,
    name_key,
    parse_manifest,
    ManifestFields,
    ManifestView,
};
use crate::paths::{extension_is, extension_of, join_path, joined, replace_extension, with_extension};
use crate::record::{views, AppView, MacOSApp};

verus! {

/// Whether a directory entry is an application bundle: its name has the
/// extension `app`.
pub fn is_bundle_path(path: &str) -> (r: bool)
    ensures
        r == (extension_of(path@) == Some("app"@)),
{
    extension_is(path, "app")
}

/// Where a bundle keeps its manifest, from the bundle's directory.
pub fn manifest_path() -> (r: &'static str)
    ensures
        r@ == "Contents/Info.plist"@,
{
    "Contents/Info.plist"
}

/// Where a bundle keeps the icon that its manifest declares, from the
/// bundle's directory: in the resource directory, under the declared name
/// with the extension `icns` in place of another or added to none.
pub open spec fn icon_location(declared: Seq<char>) -> Seq<char> {
    "Contents/Resources/"@ + with_extension(declared, "icns"@)
}

/// The place of the declared icon file, from the bundle's directory.
pub fn icon_resource_path(declared: &str) -> (r: String)
    ensures
        r@ == icon_location(declared@),
{
    let file_name = replace_extension(declared, "icns");
    String::from_str("Contents/Resources/").concat(file_name.as_str())
}

/// Where the icon file of a bundle is to be read, from the bundle's
/// directory, given the bundle's manifest file: the place of the icon that
/// the manifest declares, and nothing where the manifest gives no fields.
pub fn icon_request(manifest: &[u8]) -> (r: Option<String>)
    ensures
        match r {
            Some(place) => manifest_of(manifest@) matches Some(fields) && place@ == icon_location(
                fields.icon_file,
            ),
            None => manifest_of(manifest@) is None,
        },
{
    match parse_manifest(manifest) {
        Some(fields) => Some(icon_resource_path(fields.icon_file.as_str())),
        None => None,
    }
}

/// The directories that are scanned: the system's, and the user's where a
/// home directory is known.
pub open spec fn roots_of(home: Option<Seq<char>>) -> Seq<Seq<char>> {
    match home {
        Some(home) => seq!["/Applications"@, joined(home, "Applications"@)],
        None => seq!["/Applications"@],
    }
}

/// The directories to scan, given the user's home directory.
pub fn application_roots(home: Option<&str>) -> (r: Vec<String>)
    ensures
        r@.map_values(|s: String| s@) == roots_of(
            match home {
                Some(home) => Some(home@),
                None => None,
            },
        ),
{
    let mut roots: Vec<String> = Vec::new();
    roots.push(String::from_str("/Applications"));
    match home {
        Some(home) => {
            roots.push(join_path(home, "Applications"));
            assert(roots@.map_values(|s: String| s@) =~= seq!["/Applications"@, joined(home@, "Applications"@)]);
        },
        None => {
            assert(roots@.map_values(|s: String| s@) =~= seq!["/Applications"@]);
        },
    }
    roots
}

/// What was found of one directory entry: its path, its manifest file at
/// `manifest_path`, and the file at the place that `icon_request` gives for
/// that manifest. A file that is absent or cannot be read is `None`.
pub struct BundleFiles {
    pub path: String,
    pub manifest: Option<Vec<u8>>,
    pub icon_file: Option<Vec<u8>>,
}

/// The contents of a `BundleFiles`.
pub struct BundleFilesView {
    pub path: Seq<char>,
    pub manifest: Option<Seq<u8>>,
    pub icon_file: Option<Seq<u8>>,
}

impl View for BundleFiles {
    type V = BundleFilesView;

    open spec fn view(&self) -> BundleFilesView {
        BundleFilesView {
            path: self.path@,
            manifest: match self.manifest {
                Some(bytes) => Some(bytes@),
                None => None,
            },
            icon_file: match self.icon_file {
                Some(bytes) => Some(bytes@),
                None => None,
            },
        }
    }
}

/// The contents of the entries of one directory.
pub open spec fn entry_views(entries: Seq<BundleFiles>) -> Seq<BundleFilesView> {
    entries.map_values(|e: BundleFiles| e@)
}

/// The contents of the entries of several directories.
pub open spec fn root_views(roots: Seq<Vec<BundleFiles>>) -> Seq<Seq<BundleFilesView>> {
    roots.map_values(|entries: Vec<BundleFiles>| entry_views(entries@))
}

/// The icon field for an icon file: its payload, and the empty text where
/// there is no file or the file gives no icon.
pub open spec fn icon_text(icon_file: Option<Seq<u8>>) -> Seq<char> {
    match icon_file {
        Some(bytes) => match icon_of(bytes) {
            Some(text) => text,
            None => Seq::empty(),
        },
        None => Seq::empty(),
    }
}

/// The record of a bundle whose manifest gave `fields`.
pub open spec fn record_of(path: Seq<char>, fields: ManifestView, icon_file: Option<Seq<u8>>) -> AppView {
    AppView { name: fields.name, path: path, bundle_id: fields.bundle_id, icon: icon_text(icon_file) }
}

/// The record that a bundle gives: none without a manifest that decodes and
/// holds all required entries; else one, whatever becomes of the icon.
pub open spec fn bundle_record(bundle: BundleFilesView) -> Option<AppView> {
    match bundle.manifest {
        Some(manifest) => match manifest_of(manifest) {
            Some(fields) => Some(record_of(bundle.path, fields, bundle.icon_file)),
            None => None,
        },
        None => None,
    }
}

/// The record that a directory entry gives: that of its bundle, where it is
/// one.
pub open spec fn entry_record(entry: BundleFilesView) -> Option<AppView> {
    if extension_of(entry.path) == Some("app"@) {
        bundle_record(entry)
    } else {
        None
    }
}

/// The records of a directory's entries, in the order of the entries.
pub open spec fn scan_of(entries: Seq<BundleFilesView>) -> Seq<AppView>
    decreases entries.len(),
{
    if entries.len() == 0 {
        Seq::empty()
    } else {
        match entry_record(entries.last()) {
            Some(record) => scan_of(entries.drop_last()).push(record),
            None => scan_of(entries.drop_last()),
        }
    }
}

/// The records of several directories, one directory after the other.
pub open spec fn all_records(roots: Seq<Seq<BundleFilesView>>) -> Seq<AppView>
    decreases roots.len(),
{
    if roots.len() == 0 {
        Seq::empty()
    } else {
        all_records(roots.drop_last()) + scan_of(roots.last())
    }
}

/// A manifest that decodes but lacks the display name or the bundle
/// identifier gives no record.
pub proof fn lemma_incomplete_manifest_no_record(bundle: BundleFilesView, strings: Map<Seq<char>, Seq<char>>)
    requires
        bundle.manifest matches Some(manifest) && decoded_strings(manifest) == Some(strings),
        !strings.contains_key(name_key()) || !strings.contains_key(identifier_key()),
    ensures
        bundle_record(bundle) is None,
        entry_record(bundle) is None,
{
}

/// A bundle without a manifest file gives no record.
pub proof fn lemma_missing_manifest_no_record(bundle: BundleFilesView)
    requires
        bundle.manifest is None,
    ensures
        bundle_record(bundle) is None,
        entry_record(bundle) is None,
{
}

/// Bytes that are no readable container, and a container without icons,
/// give no icon.
pub proof fn lemma_unusable_container_no_icon(bytes: Seq<u8>)
    requires
        container_variants(bytes) matches Some(sizes) ==> sizes.len() == 0,
    ensures
        icon_of(bytes) is None,
{
}

/// A bundle whose manifest is complete and whose icon file is absent, or
/// gives no icon, has a record with the name and identifier of the manifest,
/// its own path, and an empty icon.
pub proof fn lemma_icon_failure_keeps_record(bundle: BundleFilesView, fields: ManifestView)
    requires
        bundle.manifest matches Some(manifest) && manifest_of(manifest) == Some(fields),
        bundle.icon_file matches Some(bytes) ==> icon_of(bytes) is None,
    ensures
        bundle_record(bundle) == Some(
            AppView { name: fields.name, path: bundle.path, bundle_id: fields.bundle_id, icon: Seq::empty() },
        ),
{
}

/// The record of an entry is among the records of its directory.
pub proof fn lemma_scan_holds_entry(entries: Seq<BundleFilesView>, e: int)
    requires
        0 <= e < entries.len(),
        entry_record(entries[e]) is Some,
    ensures
        scan_of(entries).contains(entry_record(entries[e])->0),
    decreases entries.len(),
{
    let front = entries.drop_last();
    let record = entry_record(entries[e])->0;
    if e == entries.len() - 1 {
        let scan = scan_of(entries);
        assert(scan[scan.len() - 1] == record);
    } else {
        assert(front[e] == entries[e]);
        lemma_scan_holds_entry(front, e);
        let i = choose|i: int| 0 <= i < scan_of(front).len() && scan_of(front)[i] == record;
        assert(scan_of(entries)[i] == record);
    }
}

/// The records of a directory are among the records of all directories.
pub proof fn lemma_all_records_hold_scan(roots: Seq<Seq<BundleFilesView>>, d: int, record: AppView)
    requires
        0 <= d < roots.len(),
        scan_of(roots[d]).contains(record),
    ensures
        all_records(roots).contains(record),
    decreases roots.len(),
{
    let front = roots.drop_last();
    let all = all_records(roots);
    if d == roots.len() - 1 {
        let i = choose|i: int| 0 <= i < scan_of(roots[d]).len() && scan_of(roots[d])[i] == record;
        assert(all[all_records(front).len() + i] == record);
    } else {
        assert(front[d] == roots[d]);
        lemma_all_records_hold_scan(front, d, record);
        let i = choose|i: int| 0 <= i < all_records(front).len() && all_records(front)[i] == record;
        assert(all[i] == record);
    }
}

/// Every bundle among the entries whose manifest is complete stands in the
/// catalog at exactly one place, with the name and the identifier that its
/// manifest gives.
pub proof fn lemma_complete_bundle_listed_once(roots: Seq<Seq<BundleFilesView>>, d: int, e: int)
    requires
        0 <= d < roots.len(),
        0 <= e < roots[d].len(),
        extension_of(roots[d][e].path) == Some("app"@),
        roots[d][e].manifest matches Some(manifest) && manifest_of(manifest) is Some,
    ensures
        ({
            let fields = manifest_of(roots[d][e].manifest->0)->0;
            let record = record_of(roots[d][e].path, fields, roots[d][e].icon_file);
            let catalog = catalog_of(all_records(roots));
            &&& record.name == fields.name
            &&& record.bundle_id == fields.bundle_id
            &&& exists|j: int|
                0 <= j < catalog.len() && #[trigger] catalog[j] == record && forall|k: int|
                    0 <= k < catalog.len() && #[trigger] catalog[k] == record ==> k == j
        }),
{
    let fields = manifest_of(roots[d][e].manifest->0)->0;
    let record = record_of(roots[d][e].path, fields, roots[d][e].icon_file);
    assert(entry_record(roots[d][e]) == Some(record));
    lemma_scan_holds_entry(roots[d], e);
    lemma_all_records_hold_scan(roots, d, record);
    let all = all_records(roots);
    let i = choose|i: int| 0 <= i < all.len() && all[i] == record;
    lemma_each_record_once(all, i);
}

/// Every record of a directory is the record of one of its entries.
pub proof fn lemma_scan_record_has_entry(entries: Seq<BundleFilesView>, record: AppView) -> (e: int)
    requires
        scan_of(entries).contains(record),
    ensures
        0 <= e < entries.len(),
        entry_record(entries[e]) == Some(record),
    decreases entries.len(),
{
    let front = entries.drop_last();
    let i = choose|i: int| 0 <= i < scan_of(entries).len() && scan_of(entries)[i] == record;
    if entry_record(entries.last()) == Some(record) {
        entries.len() - 1
    } else {
        assert(scan_of(front)[i] == record);
        let e = lemma_scan_record_has_entry(front, record);
        assert(front[e] == entries[e]);
        e
    }
}

/// Every record of all directories is the record of an entry of one of them.
pub proof fn lemma_record_has_entry(roots: Seq<Seq<BundleFilesView>>, record: AppView) -> (place: (int, int))
    requires
        all_records(roots).contains(record),
    ensures
        0 <= place.0 < roots.len(),
        0 <= place.1 < roots[place.0].len(),
        entry_record(roots[place.0][place.1]) == Some(record),
    decreases roots.len(),
{
    let front = roots.drop_last();
    let all = all_records(roots);
    let i = choose|i: int| 0 <= i < all.len() && all[i] == record;
    if i < all_records(front).len() {
        assert(all_records(front)[i] == record);
        let place = lemma_record_has_entry(front, record);
        assert(front[place.0] == roots[place.0]);
        place
    } else {
        assert(scan_of(roots.last())[i - all_records(front).len()] == record);
        let e = lemma_scan_record_has_entry(roots.last(), record);
        (roots.len() - 1, e)
    }
}

/// Entries of the same path hold the same files: the directories list one
/// tree, in which a path names one bundle.
pub open spec fn paths_name_one_entry(roots: Seq<Seq<BundleFilesView>>) -> bool {
    forall|d1: int, e1: int, d2: int, e2: int|
        0 <= d1 < roots.len() && 0 <= e1 < roots[d1].len() && 0 <= d2 < roots.len() && 0 <= e2 < roots[d2].len()
            && (#[trigger] roots[d1][e1]).path == (#[trigger] roots[d2][e2]).path ==> roots[d1][e1]
            == roots[d2][e2]
}

/// Where a path names one bundle, the catalog holds exactly one record with
/// the path of a bundle whose manifest is complete, and none with the path
/// of an entry that gives no record.
pub proof fn lemma_one_record_per_path(roots: Seq<Seq<BundleFilesView>>, d: int, e: int)
    requires
        0 <= d < roots.len(),
        0 <= e < roots[d].len(),
        paths_name_one_entry(roots),
    ensures
        ({
            let path = roots[d][e].path;
            let catalog = catalog_of(all_records(roots));
            match entry_record(roots[d][e]) {
                Some(record) => exists|j: int|
                    0 <= j < catalog.len() && #[trigger] catalog[j] == record && record.path == path && forall|
                        k: int,
                    |
                        0 <= k < catalog.len() && (#[trigger] catalog[k]).path == path ==> k == j,
                None => forall|k: int| 0 <= k < catalog.len() ==> (#[trigger] catalog[k]).path != path,
            }
        }),
{
    let entry = roots[d][e];
    let path = entry.path;
    let all = all_records(roots);
    let catalog = catalog_of(all);
    lemma_catalog_of(all);
    assert forall|k: int| 0 <= k < catalog.len() && (#[trigger] catalog[k]).path == path implies entry_record(
        entry,
    ) == Some(catalog[k]) by {
        assert(catalog.contains(catalog[k]));
        let place = lemma_record_has_entry(roots, catalog[k]);
        assert(roots[place.0][place.1].path == path);
        assert(roots[place.0][place.1] == roots[d][e]);
    }
    match entry_record(entry) {
        Some(record) => {
            lemma_scan_holds_entry(roots[d], e);
            lemma_all_records_hold_scan(roots, d, record);
            assert(catalog.contains(record));
            let j = choose|j: int| 0 <= j < catalog.len() && catalog[j] == record;
            assert(catalog[j] == record);
        },
        None => {},
    }
}

/// A directory that is scanned a second time, as when two roots are the
/// same place, adds nothing to the catalog.
pub proof fn lemma_directory_scanned_twice(roots: Seq<Seq<BundleFilesView>>, d: int)
    requires
        0 <= d < roots.len(),
    ensures
        catalog_of(all_records(roots.push(roots[d]))) == catalog_of(all_records(roots)),
{
    let again = roots.push(roots[d]);
    let repeats = scan_of(roots[d]);
    assert(again.drop_last() =~= roots);
    assert(again.last() == roots[d]);
    assert(all_records(again) == all_records(roots) + repeats);
    assert forall|i: int| 0 <= i < repeats.len() implies all_records(roots).contains(#[trigger] repeats[i]) by {
        lemma_all_records_hold_scan(roots, d, repeats[i]);
    }
    lemma_repeats_change_nothing(all_records(roots), repeats);
}

/// Puts a record together from the fields of the manifest and the icon file.
/// A missing or unusable icon file leaves the icon empty.
pub fn assemble_record(app_path: &str, fields: &ManifestFields, icon_file: Option<&[u8]>) -> (r: MacOSApp)
    ensures
        r@ == record_of(
            app_path@,
            fields@,
            match icon_file {
                Some(bytes) => Some(bytes@),
                None => None,
            },
        ),
{
    let icon = match icon_file {
        Some(bytes) => match extract_and_encode_icon(bytes) {
            Some(text) => text,
            None => String::new(),
        },
        None => String::new(),
    };
    MacOSApp::new(fields.name.clone(), String::from_str(app_path), fields.bundle_id.clone(), icon)
}

/// The record of one bundle, or `None` where its manifest is missing, does
/// not decode, or lacks a required entry.
pub fn parse_app_bundle(bundle: &BundleFiles) -> (r: Option<MacOSApp>)
    ensures
        match r {
            Some(record) => bundle_record(bundle@) == Some(record@),
            None => bundle_record(bundle@) is None,
        },
{
    match &bundle.manifest {
        Some(manifest) => match parse_manifest(manifest.as_slice()) {
            Some(fields) => {
                let icon_file: Option<&[u8]> = match &bundle.icon_file {
                    Some(bytes) => Some(bytes.as_slice()),
                    None => None,
                };
                Some(assemble_record(bundle.path.as_str(), &fields, icon_file))
            },
            None => None,
        },
        None => None,
    }
}

/// The records of the bundles among a directory's entries, in the order of
/// the entries. An entry that is no bundle or gives no record is passed over.
pub fn scan_directory(entries: &Vec<BundleFiles>) -> (r: Vec<MacOSApp>)
    ensures
        views(r@) == scan_of(entry_views(entries@)),
{
    let mut records: Vec<MacOSApp> = Vec::new();
    let mut i: usize = 0;
    proof {
        assert(entry_views(entries@).take(0) =~= Seq::empty());
        assert(views(records@) =~= Seq::empty());
    }
    while i < entries.len()
        invariant
            i <= entries.len(),
            views(records@) == scan_of(entry_views(entries@).take(i as int)),
        decreases entries.len() - i,
    {
        let entry = &entries[i];
        let ghost before = views(records@);
        proof {
            let prefix = entry_views(entries@).take(i + 1);
            assert(prefix.drop_last() =~= entry_views(entries@).take(i as int));
            assert(prefix.last() == entry@);
        }
        if is_bundle_path(entry.path.as_str()) {
            match parse_app_bundle(entry) {
                Some(record) => {
                    records.push(record);
                    assert(views(records@) =~= before.push(record@));
                },
                None => {},
            }
        }
        i += 1;
    }
    proof {
        assert(entry_views(entries@).take(i as int) =~= entry_views(entries@));
    }
    records
}

/// The catalog of the given directories: the records of all their bundles,
/// each distinct record once, in ascending order of lower-cased name.
pub fn get_macos_applications(roots: &Vec<Vec<BundleFiles>>) -> (r: Vec<MacOSApp>)
    ensures
        views(r@) == catalog_of(all_records(root_views(roots@))),
        is_catalog(views(r@)),
        forall|x: AppView| #[trigger] views(r@).contains(x) <==> all_records(root_views(roots@)).contains(x),
{
    let mut records: Vec<MacOSApp> = Vec::new();
    let mut i: usize = 0;
    proof {
        assert(root_views(roots@).take(0) =~= Seq::empty());
        assert(views(records@) =~= Seq::empty());
    }
    while i < roots.len()
        invariant
            i <= roots.len(),
            views(records@) == all_records(root_views(roots@).take(i as int)),
        decreases roots.len() - i,
    {
        let ghost before = views(records@);
        let mut found = scan_directory(&roots[i]);
        let ghost added = views(found@);
        proof {
            let prefix = root_views(roots@).take(i + 1);
            assert(prefix.drop_last() =~= root_views(roots@).take(i as int));
            assert(prefix.last() == entry_views(roots@[i as int]@));
        }
        records.append(&mut found);
        proof {
            assert(views(records@) =~= before + added);
        }
        i += 1;
    }
    proof {
        assert(root_views(roots@).take(i as int) =~= root_views(roots@));
    }
    build_catalog(records)
}

} // verus!
