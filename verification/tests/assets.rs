use openlogi::device::DeviceModelInfo;
use openlogi::device::DeviceTransports;
use openlogi::gui::asset::depot_asset;
use openlogi::gui::asset::images::read_png_dimensions;
use openlogi::gui::asset::index::resolve_in_index;
use openlogi::gui::asset::index::strict_candidates;
use openlogi::gui::asset::index::suffix_candidates;
use openlogi::gui::asset::index::DeviceEntry;
use openlogi::gui::asset::index::Index;
use openlogi::gui::asset::paths::bundle_assets_root;
use openlogi::gui::asset::paths::load_index;
use openlogi::gui::asset::paths::user_cache_root;
use openlogi::gui::asset::paths::IndexFile;
use openlogi::gui::asset::AssetResolver;
use openlogi::gui::asset::DepotFiles;
use openlogi::gui::asset::ImageFile;
use openlogi::gui::asset::Metadata;
use openlogi::gui::asset::MetadataFile;
use openlogi::gui::asset::Origin;
use openlogi::path::PathStyle;
use openlogi::paths::Environment;

fn entry(model_id: &str, display_name: &str) -> DeviceEntry {
    DeviceEntry { model_id: model_id.to_owned(), display_name: display_name.to_owned() }
}

fn index() -> Index {
    Index {
        devices: vec![
            ("anywhere".to_owned(), entry("1b025", "MX Anywhere")),
            ("master4".to_owned(), entry("2b042", "MX Master 4")),
            ("exact".to_owned(), entry("1b042", "Exact")),
            ("lift".to_owned(), entry("c0ab31", "Lift")),
        ],
    }
}

fn model(ids: [u16; 3], ext: u8) -> DeviceModelInfo {
    DeviceModelInfo {
        entity_count: 0,
        unit_id: [0, 0, 0, 0],
        transports: DeviceTransports { usb: false, equad: false, btle: false, bluetooth: false },
        model_ids: ids,
        extended_model_id: ext,
        key: "key".to_owned(),
    }
}

fn depot(index: &Index, model: &DeviceModelInfo, forced: Option<&str>) -> Option<String> {
    resolve_in_index(index, model, forced).map(|(depot, _)| depot.to_owned())
}

#[test]
fn candidates_are_in_hexadecimal() {
    assert_eq!(strict_candidates(&model([0xb042, 0, 0x00f], 0x1c)), vec!["1cb042", "1c000f"]);
    assert_eq!(strict_candidates(&model([1, 0, 0], 0)), vec!["00001"]);
    assert_eq!(suffix_candidates(&model([0xb042, 0, 0x00f], 0x1c)), vec!["b042", "000f"]);
    assert!(strict_candidates(&model([0, 0, 0], 5)).is_empty());
}

#[test]
fn an_exact_id_beats_a_suffix() {
    assert_eq!(depot(&index(), &model([0xb042, 0, 0], 1), None), Some("exact".to_owned()));
    // The registry's prefix does not line up with every extended id.
    assert_eq!(depot(&index(), &model([0xb042, 0, 0], 7), None), Some("master4".to_owned()));
    // A later id may match exactly where an earlier one matches by suffix.
    assert_eq!(depot(&index(), &model([0xb042, 0xb025, 0], 1), None), Some("exact".to_owned()));
    assert_eq!(depot(&index(), &model([0xffff, 0xb025, 0], 1), None), Some("anywhere".to_owned()));
    assert_eq!(depot(&index(), &model([0x1234, 0, 0], 1), None), None);
    assert_eq!(depot(&index(), &model([0, 0, 0], 1), None), None);
}

#[test]
fn a_forced_depot_wins_where_it_exists() {
    let m = model([0xb042, 0, 0], 1);
    assert_eq!(depot(&index(), &m, Some("lift")), Some("lift".to_owned()));
    assert_eq!(depot(&index(), &m, Some("nowhere")), Some("exact".to_owned()));
}

fn image(name: &str, dimensions: Option<(u32, u32)>) -> ImageFile {
    ImageFile { name: name.to_owned(), dimensions }
}

fn files(buttons: Option<&str>, variant: Option<&str>, names: &[&str]) -> DepotFiles {
    DepotFiles {
        metadata: MetadataFile::Loaded(Metadata {
            origin: Some(Origin { width: 30, height: 40 }),
        }),
        buttons_image: buttons.map(str::to_owned),
        variant_image: variant.map(str::to_owned),
        images: names.iter().map(|n| image(n, Some((300, 400)))).collect(),
    }
}

fn chosen(files: &DepotFiles) -> Option<String> {
    files.best_image().map(|f| f.name.clone())
}

#[test]
fn the_buttons_image_is_preferred() {
    let all = ["front_core.png", "front_red.png", "side_core.png", "side_red.png"];
    assert_eq!(
        chosen(&files(Some("side_red.png"), Some("front_red.png"), &all)),
        Some("side_red.png".to_owned())
    );
    assert_eq!(chosen(&files(None, Some("front_red.png"), &all)), Some("front_red.png".to_owned()));
    assert_eq!(chosen(&files(None, None, &all)), Some("side_core.png".to_owned()));
    assert_eq!(
        chosen(&files(Some("gone.png"), Some("front_red.png"), &["front_red.png", "front_core.png"])),
        Some("front_red.png".to_owned())
    );
    assert_eq!(
        chosen(&files(Some("gone.png"), None, &["front_core.png"])),
        Some("front_core.png".to_owned())
    );
    assert_eq!(chosen(&files(Some("gone.png"), None, &["other.png"])), None);
    // An empty name stands for no image.
    assert_eq!(chosen(&files(Some(""), None, &["", "front_core.png"])), Some("front_core.png".to_owned()));
}

#[test]
fn a_depot_gives_the_dimensions_of_its_image() {
    let dir = b"/assets/lift".to_vec();
    let lift = entry("c0ab31", "Lift");
    let mut depot = files(None, None, &["side_core.png"]);
    let asset = depot_asset(PathStyle::Unix, &dir, &depot, "lift", &lift).expect("the depot serves");
    assert_eq!(asset.depot, "lift");
    assert_eq!(asset.display_name, "Lift");
    assert_eq!(asset.image_path, b"/assets/lift/side_core.png".to_vec());
    assert_eq!((asset.png_width, asset.png_height), (300, 400));

    depot.images = vec![image("side_core.png", None)];
    let asset = depot_asset(PathStyle::Unix, &dir, &depot, "lift", &lift).expect("the depot serves");
    assert_eq!((asset.png_width, asset.png_height), (30, 40));

    depot.metadata = MetadataFile::Loaded(Metadata { origin: None });
    let asset = depot_asset(PathStyle::Unix, &dir, &depot, "lift", &lift).expect("the depot serves");
    assert_eq!((asset.png_width, asset.png_height), (0, 0));

    depot.metadata = MetadataFile::Unparseable;
    assert!(depot_asset(PathStyle::Unix, &dir, &depot, "lift", &lift).is_none());
    depot.metadata = MetadataFile::Missing;
    assert!(depot_asset(PathStyle::Unix, &dir, &depot, "lift", &lift).is_none());
}

fn none() -> DepotFiles {
    DepotFiles {
        metadata: MetadataFile::Missing,
        buttons_image: None,
        variant_image: None,
        images: Vec::new(),
    }
}

#[test]
fn the_first_root_that_serves_a_device_is_taken() {
    let read = |path: &Vec<u8>| {
        if path == b"/user/index.json" {
            IndexFile::Loaded(index())
        } else {
            IndexFile::Unparseable
        }
    };
    let resolver = AssetResolver::new(PathStyle::Unix, b"/user".to_vec(), Some(b"/bundle".to_vec()), &read);
    assert!(resolver.has_bundle_root());
    assert_eq!(resolver.cache_root(), b"/user");
    let m = model([0xab31, 0, 0], 0xc0);
    let side = || files(None, None, &["side_core.png"]);
    let both = resolver.resolve(&m, None, &|_: &Vec<u8>| side());
    assert_eq!(
        both.map(|a| a.image_path),
        Some(b"/bundle/lift/side_core.png".to_vec())
    );
    let user = resolver.resolve(&m, None, &|dir: &Vec<u8>| {
        if dir == b"/user/lift" {
            side()
        } else {
            none()
        }
    });
    assert_eq!(
        user.map(|a| a.image_path),
        Some(b"/user/lift/side_core.png".to_vec())
    );
    assert!(resolver.resolve(&m, None, &|_: &Vec<u8>| none()).is_none());
    assert!(resolver.resolve(&model([5, 0, 0], 1), None, &|_: &Vec<u8>| side()).is_none());
}

#[test]
fn without_an_index_nothing_resolves() {
    let resolver = AssetResolver::new(PathStyle::Unix, b"/user".to_vec(), None, &|_: &Vec<u8>| IndexFile::Missing);
    assert!(!resolver.has_bundle_root());
    let m = model([0xab31, 0, 0], 0xc0);
    let side = |_: &Vec<u8>| files(None, None, &["side_core.png"]);
    assert!(resolver.resolve(&m, Some("lift"), &side).is_none());
}

#[test]
fn the_first_parseable_index_is_loaded() {
    let roots = vec![b"/a".to_vec(), b"/b".to_vec(), b"/c".to_vec()];
    let read = |path: &Vec<u8>| match path.as_slice() {
        b"/a/index.json" => IndexFile::Unparseable,
        b"/b/index.json" => IndexFile::Loaded(Index { devices: Vec::new() }),
        _ => IndexFile::Loaded(index()),
    };
    assert_eq!(load_index(PathStyle::Unix, &roots, &read).map(|i| i.devices.len()), Some(0));
    assert!(load_index(PathStyle::Unix, &roots, &|_: &Vec<u8>| IndexFile::Missing).is_none());
}

#[test]
fn the_cache_lives_below_the_data_directory() {
    let mut env = Environment {
        style: PathStyle::Unix,
        home: Some(b"/home/me".to_vec()),
        userprofile: None,
        xdg_config_home: None,
        xdg_data_home: None,
    };
    assert_eq!(user_cache_root(&env), b"/home/me/.local/share/openlogi/assets".to_vec());
    env.home = None;
    assert_eq!(user_cache_root(&env), b"./assets".to_vec());
}

#[test]
fn a_bundle_counts_once_it_has_an_index() {
    let contents: &[u8] = b"/Applications/OpenLogi.app/Contents";
    let root = bundle_assets_root(PathStyle::Unix, Some(contents), &|path: &Vec<u8>| {
        path == b"/Applications/OpenLogi.app/Contents/Resources/assets/index.json"
    });
    assert_eq!(root, Some(b"/Applications/OpenLogi.app/Contents/Resources/assets".to_vec()));
    assert_eq!(bundle_assets_root(PathStyle::Unix, Some(contents), &|_: &Vec<u8>| false), None);
    assert_eq!(bundle_assets_root(PathStyle::Unix, None, &|_: &Vec<u8>| true), None);
}

#[test]
fn png_headers_hold_the_dimensions() {
    let mut file = b"\x89PNG\r\n\x1a\n\x00\x00\x00\x0dIHDR".to_vec();
    file.extend_from_slice(&[0, 0, 4, 1, 0x80, 0, 0, 2]);
    assert_eq!(read_png_dimensions(&file), Some((1025, 0x8000_0002)));
    assert_eq!(read_png_dimensions(&file[..23]), None);
    file[1] = b'X';
    assert_eq!(read_png_dimensions(&file), None);
}

#[test]
fn roots_follow_the_path_style() {
    let env = Environment {
        style: PathStyle::Windows,
        home: None,
        userprofile: Some(b"C:\\Users\\me".to_vec()),
        xdg_config_home: None,
        xdg_data_home: None,
    };
    assert_eq!(
        user_cache_root(&env),
        b"C:\\Users\\me\\.local\\share\\openlogi\\assets".to_vec()
    );
    let contents: &[u8] = b"C:\\OpenLogi";
    let root = bundle_assets_root(PathStyle::Windows, Some(contents), &|path: &Vec<u8>| {
        path.as_slice() == b"C:\\OpenLogi\\Resources\\assets\\index.json"
    });
    assert_eq!(root, Some(b"C:\\OpenLogi\\Resources\\assets".to_vec()));
}
