use base64::Engine;
use launcher::bundle::{
    application_roots, assemble_record, get_macos_applications, icon_request, icon_resource_path,
    is_bundle_path,
    manifest_path, parse_app_bundle, scan_directory, BundleFiles,
};
use launcher::catalog::build_catalog;
use launcher::icon::{extract_and_encode_icon, icon_payload, select_best};
use launcher::manifest::{parse_manifest, required_fields};
use launcher::record::MacOSApp;

const PREFIX: &str = "data:image/png;base64,";

fn manifest_xml(entries: &[(&str, &str)]) -> Vec<u8> {
    let mut text = String::new();
    text.push_str("<?xml version=\"1.0\" encoding=\"UTF-8\"?>\n");
    text.push_str("<!DOCTYPE plist PUBLIC \"-//Apple//DTD PLIST 1.0//EN\" \"http://www.apple.com/DTDs/PropertyList-1.0.dtd\">\n");
    text.push_str("<plist version=\"1.0\">\n<dict>\n");
    for (key, value) in entries {
        text.push_str(&format!("<key>{}</key>\n<string>{}</string>\n", key, value));
    }
    text.push_str("</dict>\n</plist>\n");
    text.into_bytes()
}

fn full_manifest(name: &str, id: &str, icon: &str) -> Vec<u8> {
    manifest_xml(&[("CFBundleName", name), ("CFBundleIdentifier", id), ("CFBundleIconFile", icon)])
}

fn container(types: &[icns::IconType]) -> Vec<u8> {
    let mut family = icns::IconFamily::new();
    for t in types {
        let image = icns::Image::new(icns::PixelFormat::RGBA, t.pixel_width(), t.pixel_height());
        family.add_icon_with_type(&image, *t).unwrap();
    }
    let mut bytes = Vec::new();
    family.write(&mut bytes).unwrap();
    bytes
}

fn payload_size(payload: &str) -> (u32, u32) {
    assert!(payload.starts_with(PREFIX));
    let png = base64::engine::general_purpose::STANDARD.decode(&payload[PREFIX.len()..]).unwrap();
    let image = icns::Image::read_png(std::io::Cursor::new(png)).unwrap();
    (image.width(), image.height())
}

fn bundle(path: &str, manifest: Option<Vec<u8>>, icon_file: Option<Vec<u8>>) -> BundleFiles {
    BundleFiles { path: path.to_string(), manifest, icon_file }
}

fn record(name: &str, path: &str, id: &str, icon: &str) -> MacOSApp {
    MacOSApp::new(name.to_string(), path.to_string(), id.to_string(), icon.to_string())
}

fn names(catalog: &[MacOSApp]) -> Vec<String> {
    catalog.iter().map(|r| r.name().to_string()).collect()
}

#[test]
fn alpha_bundle_gives_one_record_from_largest_variant() {
    let icon = container(&[icns::IconType::RGBA32_16x16, icns::IconType::RGBA32_64x64]);
    let roots = vec![vec![bundle(
        "/R/Alpha.app",
        Some(full_manifest("Alpha", "com.x.alpha", "Alpha.icon")),
        Some(icon),
    )]];
    let catalog = get_macos_applications(&roots);
    assert_eq!(catalog.len(), 1);
    assert_eq!(catalog[0].name(), "Alpha");
    assert_eq!(catalog[0].path(), "/R/Alpha.app");
    assert_eq!(catalog[0].bundle_id(), "com.x.alpha");
    assert!(!catalog[0].icon().is_empty());
    assert_eq!(payload_size(catalog[0].icon()), (64, 64));
}

#[test]
fn bundle_without_manifest_gives_no_record() {
    let roots = vec![vec![bundle("/R/Beta.app", None, None)]];
    assert_eq!(get_macos_applications(&roots).len(), 0);
    assert!(parse_app_bundle(&bundle("/R/Beta.app", None, None)).is_none());
}

#[test]
fn same_bundle_under_two_roots_is_listed_once() {
    let icon = container(&[icns::IconType::RGBA32_32x32]);
    let one = || bundle("/R/Alpha.app", Some(full_manifest("Alpha", "com.x.alpha", "Alpha")), Some(icon.clone()));
    let roots = vec![vec![one()], vec![one()]];
    let catalog = get_macos_applications(&roots);
    assert_eq!(catalog.len(), 1);
    assert_eq!(catalog[0].path(), "/R/Alpha.app");
}

#[test]
fn records_differing_only_in_icon_both_stay() {
    let icon = container(&[icns::IconType::RGBA32_32x32]);
    let manifest = full_manifest("Alpha", "com.x.alpha", "Alpha");
    let roots = vec![
        vec![bundle("/R/Alpha.app", Some(manifest.clone()), Some(icon))],
        vec![bundle("/R/Alpha.app", Some(manifest), None)],
    ];
    let catalog = get_macos_applications(&roots);
    assert_eq!(catalog.len(), 2);
    assert!(!catalog[0].icon().is_empty());
    assert!(catalog[1].icon().is_empty());
}

#[test]
fn every_complete_bundle_is_listed_exactly_once() {
    let entries = vec![
        bundle("/R/Gamma.app", Some(full_manifest("Gamma", "com.x.gamma", "g")), None),
        bundle("/R/notes.txt", Some(full_manifest("Notes", "com.x.notes", "n")), None),
        bundle("/R/Alpha.app", Some(full_manifest("Alpha", "com.x.alpha", "a")), None),
        bundle("/R/Broken.app", Some(b"not a property list".to_vec()), None),
        bundle("/R/Beta.app", Some(full_manifest("beta", "com.x.beta", "b")), None),
    ];
    let catalog = get_macos_applications(&vec![entries]);
    assert_eq!(names(&catalog), vec!["Alpha", "beta", "Gamma"]);
    let ids: Vec<&str> = catalog.iter().map(|r| r.bundle_id()).collect();
    assert_eq!(ids, vec!["com.x.alpha", "com.x.beta", "com.x.gamma"]);
}

#[test]
fn manifest_without_a_required_entry_gives_nothing() {
    let no_name = manifest_xml(&[("CFBundleIdentifier", "com.x.a"), ("CFBundleIconFile", "a")]);
    let no_id = manifest_xml(&[("CFBundleName", "A"), ("CFBundleIconFile", "a")]);
    let no_icon = manifest_xml(&[("CFBundleName", "A"), ("CFBundleIdentifier", "com.x.a")]);
    assert!(parse_manifest(&no_name).is_none());
    assert!(parse_manifest(&no_id).is_none());
    assert!(parse_manifest(&no_icon).is_none());
    assert!(parse_app_bundle(&bundle("/R/A.app", Some(no_name), None)).is_none());
    assert!(parse_app_bundle(&bundle("/R/A.app", Some(no_id), None)).is_none());
}

#[test]
fn manifest_with_wrong_types_or_shape_gives_nothing() {
    let wrong_type = b"<?xml version=\"1.0\" encoding=\"UTF-8\"?>\n<plist version=\"1.0\"><dict>\
        <key>CFBundleName</key><integer>7</integer>\
        <key>CFBundleIdentifier</key><string>com.x.a</string>\
        <key>CFBundleIconFile</key><string>a</string></dict></plist>"
        .to_vec();
    let not_a_dictionary =
        b"<?xml version=\"1.0\" encoding=\"UTF-8\"?>\n<plist version=\"1.0\"><string>CFBundleName</string></plist>"
            .to_vec();
    assert!(parse_manifest(&wrong_type).is_none());
    assert!(parse_manifest(&not_a_dictionary).is_none());
    assert!(parse_manifest(b"").is_none());
    assert!(parse_manifest(b"\x00\x01garbage").is_none());
}

#[test]
fn complete_manifest_gives_its_three_fields() {
    let fields = parse_manifest(&full_manifest("Alpha", "com.x.alpha", "Alpha.icon")).unwrap();
    assert_eq!(fields.name, "Alpha");
    assert_eq!(fields.bundle_id, "com.x.alpha");
    assert_eq!(fields.icon_file, "Alpha.icon");
}

#[test]
fn binary_manifest_is_decoded_too() {
    let mut dictionary = plist::Dictionary::new();
    dictionary.insert("CFBundleName".to_string(), plist::Value::String("Bin".to_string()));
    dictionary.insert("CFBundleIdentifier".to_string(), plist::Value::String("com.x.bin".to_string()));
    dictionary.insert("CFBundleIconFile".to_string(), plist::Value::String("bin.icns".to_string()));
    let mut bytes = Vec::new();
    plist::Value::Dictionary(dictionary).to_writer_binary(&mut bytes).unwrap();
    let fields = parse_manifest(&bytes).unwrap();
    assert_eq!(fields.name, "Bin");
    assert_eq!(fields.bundle_id, "com.x.bin");
    assert_eq!(fields.icon_file, "bin.icns");
}

#[test]
fn required_fields_needs_all_three() {
    let s = |t: &str| Some(t.to_string());
    assert!(required_fields(None, s("b"), s("c")).is_none());
    assert!(required_fields(s("a"), None, s("c")).is_none());
    assert!(required_fields(s("a"), s("b"), None).is_none());
    let fields = required_fields(s("a"), s("b"), s("c")).unwrap();
    assert_eq!((fields.name.as_str(), fields.bundle_id.as_str(), fields.icon_file.as_str()), ("a", "b", "c"));
}

#[test]
fn absent_or_corrupt_icon_leaves_the_icon_empty() {
    let manifest = full_manifest("Alpha", "com.x.alpha", "Alpha");
    let absent = parse_app_bundle(&bundle("/R/Alpha.app", Some(manifest.clone()), None)).unwrap();
    assert_eq!(absent.name(), "Alpha");
    assert_eq!(absent.bundle_id(), "com.x.alpha");
    assert_eq!(absent.path(), "/R/Alpha.app");
    assert_eq!(absent.icon(), "");
    let corrupt = parse_app_bundle(&bundle("/R/Alpha.app", Some(manifest.clone()), Some(b"icns but not really".to_vec())))
        .unwrap();
    assert_eq!(corrupt.name(), "Alpha");
    assert_eq!(corrupt.bundle_id(), "com.x.alpha");
    assert_eq!(corrupt.path(), "/R/Alpha.app");
    assert_eq!(corrupt.icon(), "");
    let empty = parse_app_bundle(&bundle("/R/Alpha.app", Some(manifest), Some(container(&[])))).unwrap();
    assert_eq!(empty.icon(), "");
}

#[test]
fn variant_that_does_not_decode_leaves_the_icon_empty() {
    let mut bytes = container(&[icns::IconType::RGBA32_32x32]);
    assert!(extract_and_encode_icon(&bytes).is_some());
    // The element's data starts behind the file header and the element header.
    bytes[16] ^= 0xff;
    assert!(extract_and_encode_icon(&bytes).is_none());
    let fields = parse_manifest(&full_manifest("Alpha", "com.x.alpha", "Alpha")).unwrap();
    let record = assemble_record("/R/Alpha.app", &fields, Some(&bytes));
    assert_eq!(record.name(), "Alpha");
    assert_eq!(record.path(), "/R/Alpha.app");
    assert_eq!(record.bundle_id(), "com.x.alpha");
    assert_eq!(record.icon(), "");
}

#[test]
fn largest_of_three_sizes_is_taken_in_every_order() {
    let s = icns::IconType::RGBA32_16x16;
    let m = icns::IconType::RGBA32_32x32;
    let l = icns::IconType::RGBA32_128x128;
    for order in [[s, m, l], [s, l, m], [m, s, l], [m, l, s], [l, s, m], [l, m, s]] {
        let payload = extract_and_encode_icon(&container(&order)).unwrap();
        assert_eq!(payload_size(&payload), (128, 128));
    }
    let sizes = [(16u32, 16u32), (32, 32), (128, 128)];
    for order in [[0, 1, 2], [0, 2, 1], [1, 0, 2], [1, 2, 0], [2, 0, 1], [2, 1, 0]] {
        let list: Vec<(u32, u32)> = order.iter().map(|&i| sizes[i]).collect();
        let best = select_best(&list).unwrap();
        assert_eq!(list[best], (128, 128));
    }
}

#[test]
fn select_best_takes_the_first_of_equal_areas() {
    assert_eq!(select_best(&vec![]), None);
    assert_eq!(select_best(&vec![(16, 16)]), Some(0));
    assert_eq!(select_best(&vec![(16, 16), (64, 64), (64, 64)]), Some(1));
    assert_eq!(select_best(&vec![(32, 8), (16, 16), (8, 32)]), Some(0));
    assert_eq!(select_best(&vec![(16, 12), (16, 16)]), Some(1));
    assert_eq!(select_best(&vec![(u32::MAX, u32::MAX), (1, 1)]), Some(0));
    assert_eq!(select_best(&vec![(65536, 65536), (65537, 65536)]), Some(1));
}

#[test]
fn icon_payload_is_prefix_and_base64() {
    assert_eq!(icon_payload(b"hello"), "data:image/png;base64,aGVsbG8=");
    assert_eq!(icon_payload(b""), "data:image/png;base64,");
    assert_eq!(icon_payload(&[0xff, 0xfe, 0xfd]), "data:image/png;base64,//79");
}

#[test]
fn extract_fails_on_what_is_no_container() {
    assert!(extract_and_encode_icon(b"").is_none());
    assert!(extract_and_encode_icon(b"icns").is_none());
    assert!(extract_and_encode_icon(b"PNG\x00\x00\x00\x08").is_none());
    assert!(extract_and_encode_icon(&container(&[])).is_none());
}

#[test]
fn catalog_is_ordered_by_name_without_regard_to_case() {
    let input = vec![
        record("beta", "/b", "b", ""),
        record("Gamma", "/g", "g", ""),
        record("alpha", "/a1", "a1", ""),
        record("ALPHA", "/a2", "a2", ""),
        record("Beta", "/B", "B", ""),
        record("Zeta", "/z", "z", ""),
        record("delta", "/d", "d", ""),
    ];
    let catalog = build_catalog(input);
    assert_eq!(names(&catalog), vec!["alpha", "ALPHA", "beta", "Beta", "delta", "Gamma", "Zeta"]);
    for i in 0..catalog.len() {
        for j in i + 1..catalog.len() {
            assert!(catalog[i].name().to_lowercase() <= catalog[j].name().to_lowercase());
        }
    }
}

#[test]
fn catalog_orders_names_beyond_ascii() {
    let input = vec![record("Éclair", "/e", "e", ""), record("zebra", "/z", "z", ""), record("écran", "/c", "c", "")];
    let catalog = build_catalog(input);
    assert_eq!(names(&catalog), vec!["zebra", "Éclair", "écran"]);
}

#[test]
fn catalog_drops_records_equal_in_every_field() {
    let input = vec![
        record("A", "/a", "a", "i"),
        record("A", "/a", "a", "i"),
        record("A", "/a", "a", ""),
        record("A", "/other", "a", "i"),
        record("A", "/a", "other", "i"),
        record("A", "/a", "a", "i"),
    ];
    let catalog = build_catalog(input);
    assert_eq!(catalog.len(), 4);
    assert_eq!(catalog[0].icon(), "i");
    assert_eq!(catalog[1].icon(), "");
    assert_eq!(catalog[2].path(), "/other");
    assert_eq!(catalog[3].bundle_id(), "other");
    assert_eq!(build_catalog(Vec::new()).len(), 0);
}

#[test]
fn building_a_catalog_again_changes_nothing() {
    let input = || {
        vec![
            record("b", "/1", "x", ""),
            record("B", "/2", "x", ""),
            record("a", "/3", "x", ""),
            record("b", "/1", "x", ""),
        ]
    };
    let once = build_catalog(input());
    let again = build_catalog(input());
    assert_eq!(once.len(), again.len());
    for (a, b) in once.iter().zip(again.iter()) {
        assert!(a.same_as(b));
    }
    let copy: Vec<MacOSApp> = once.iter().map(|r| r.duplicate()).collect();
    let twice = build_catalog(copy);
    assert_eq!(once.len(), twice.len());
    for (a, b) in once.iter().zip(twice.iter()) {
        assert!(a.same_as(b));
    }
}

#[test]
fn scan_passes_over_what_is_no_bundle() {
    let entries = vec![
        bundle("/R/readme.md", Some(full_manifest("R", "r", "r")), None),
        bundle("/R/Two.app", Some(full_manifest("Two", "two", "t")), None),
        bundle("/R/.app", Some(full_manifest("Dot", "dot", "d")), None),
        bundle("/R/One.app", Some(full_manifest("One", "one", "o")), None),
        bundle("/R/Upper.APP", Some(full_manifest("Upper", "upper", "u")), None),
    ];
    let found = scan_directory(&entries);
    assert_eq!(names(&found), vec!["Two", "One"]);
}

#[test]
fn bundle_paths_are_told_by_their_extension() {
    assert!(is_bundle_path("/Applications/Alpha.app"));
    assert!(is_bundle_path("Alpha.app"));
    assert!(is_bundle_path("My.Tool.app"));
    assert!(!is_bundle_path("/Applications/Alpha"));
    assert!(!is_bundle_path("/Applications/Alpha.App"));
    assert!(!is_bundle_path("/Applications/.app"));
    assert!(!is_bundle_path(".app"));
    assert!(!is_bundle_path("/Applications/Alpha.app.bak"));
    assert!(!is_bundle_path("/Applications.app/Alpha"));
    assert!(!is_bundle_path(""));
}

#[test]
fn icon_place_has_the_container_extension() {
    assert_eq!(manifest_path(), "Contents/Info.plist");
    assert_eq!(icon_resource_path("Alpha.icon"), "Contents/Resources/Alpha.icns");
    assert_eq!(icon_resource_path("Alpha"), "Contents/Resources/Alpha.icns");
    assert_eq!(icon_resource_path("Alpha.icns"), "Contents/Resources/Alpha.icns");
    assert_eq!(icon_resource_path("My.App.icns"), "Contents/Resources/My.App.icns");
    assert_eq!(icon_resource_path("My.App"), "Contents/Resources/My.icns");
    assert_eq!(icon_resource_path(".hidden"), "Contents/Resources/.hidden.icns");
    assert_eq!(icon_resource_path("sub.dir/icon"), "Contents/Resources/sub.dir/icon.icns");
    assert_eq!(icon_resource_path("Ünï.png"), "Contents/Resources/Ünï.icns");
}

#[test]
fn roots_are_the_system_directory_and_the_users() {
    assert_eq!(application_roots(None), vec!["/Applications".to_string()]);
    assert_eq!(
        application_roots(Some("/Users/x")),
        vec!["/Applications".to_string(), "/Users/x/Applications".to_string()]
    );
    assert_eq!(application_roots(Some("/Users/x/"))[1], "/Users/x/Applications");
    assert_eq!(application_roots(Some(""))[1], "Applications");
}

#[test]
fn order_of_arrival_does_not_change_what_the_catalog_holds() {
    let make = |order: &[usize]| {
        let all = [("b", "/1"), ("a", "/2"), ("C", "/3"), ("a", "/2"), ("A", "/4")];
        build_catalog(order.iter().map(|&i| record(all[i].0, all[i].1, "id", "")).collect())
    };
    let one = make(&[0, 1, 2, 3, 4]);
    let other = make(&[4, 3, 2, 1, 0]);
    assert_eq!(one.len(), 4);
    assert_eq!(other.len(), 4);
    for r in one.iter() {
        assert_eq!(other.iter().filter(|o| o.same_as(r)).count(), 1);
    }
    assert_eq!(names(&one), vec!["a", "A", "b", "C"]);
    assert_eq!(names(&other), vec!["A", "a", "b", "C"]);
}

#[test]
fn icon_is_asked_for_where_the_manifest_says() {
    assert_eq!(
        icon_request(&full_manifest("Alpha", "com.x.alpha", "Alpha.icon")),
        Some("Contents/Resources/Alpha.icns".to_string())
    );
    assert_eq!(
        icon_request(&full_manifest("Alpha", "com.x.alpha", "foo.bar.icns")),
        Some("Contents/Resources/foo.bar.icns".to_string())
    );
    for declared in ["AppIcon", "AppIcon.icns", "AppIcon.png"] {
        assert_eq!(
            icon_request(&full_manifest("A", "a", declared)),
            Some("Contents/Resources/AppIcon.icns".to_string())
        );
    }
    assert_eq!(icon_request(&manifest_xml(&[("CFBundleName", "A"), ("CFBundleIdentifier", "a")])), None);
    assert_eq!(icon_request(b"no manifest"), None);
}

#[test]
fn record_with_an_empty_name_is_kept() {
    let found = parse_app_bundle(&bundle("/R/E.app", Some(full_manifest("", "com.x.e", "e")), None)).unwrap();
    assert_eq!(found.name(), "");
    assert_eq!(found.bundle_id(), "com.x.e");
}
