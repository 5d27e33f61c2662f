//! Render-time device-to-asset resolver, backed by a two-tier filesystem cache.
//!
//! At render time [`AssetResolver::resolve`] probes (in order):
//!
//! 1. The macOS app bundle's assets, shipped with every release.
//! 2. The per-user cache.
//!
//! Either tier missing the requested files falls through to the next, and
//! ultimately to the synthetic silhouette. Only the user cache is ever written:
//! the bundle is read-only.

pub mod images;
pub mod index;
pub mod paths;

use crate::device::DeviceModelInfo;
use crate::gui::asset::index::matches_model;
use crate::gui::asset::index::resolve_in_index;
use crate::gui::asset::index::DeviceEntry;
use crate::gui::asset::index::Index;
use crate::gui::asset::paths::consulted;
use crate::gui::asset::paths::load_index;
use crate::gui::asset::paths::loaded_from;
use crate::gui::asset::paths::IndexFile;
use crate::path::PathStyle;
use crate::text::str_eq;
use vstd::prelude::*;
use vstd::utf8::encode_utf8;

verus! {

/// The size of the silhouette's bounding box inside an image.
#[derive(Clone, Copy, Debug, PartialEq, Eq, Structural)]
pub struct Origin {
    pub width: u32,
    pub height: u32,
}

/// What is read of a device's metadata file.
#[derive(Clone, Copy, Debug, PartialEq, Eq, Structural)]
pub struct Metadata {
    pub origin: Option<Origin>,
}

/// An image file in a depot's directory, and its pixel dimensions where they
/// could be read.
#[derive(Debug)]
pub struct ImageFile {
    pub name: String,
    pub dimensions: Option<(u32, u32)>,
}

/// The metadata file of a depot.
#[derive(Clone, Copy, Debug, PartialEq, Eq, Structural)]
pub enum MetadataFile {
    Missing,
    Unparseable,
    Loaded(Metadata),
}

/// What a depot's directory holds for one device.
#[derive(Debug)]
pub struct DepotFiles {
    pub metadata: MetadataFile,
    /// The image the button hotspots are calibrated against, in the device's
    /// colour.
    pub buttons_image: Option<String>,
    /// The front view in the device's colour.
    pub variant_image: Option<String>,
    /// The image files that exist.
    pub images: Vec<ImageFile>,
}

/// The default image the button hotspots are calibrated against.
pub const SIDE_IMAGE: &'static str = "side_core.png";

/// The default front view.
pub const FRONT_IMAGE: &'static str = "front_core.png";

/// Whether an image file has this name.
pub open spec fn named(name: Seq<char>) -> spec_fn(ImageFile) -> bool {
    |f: ImageFile| f.name@ == name
}

/// The text of an optional string.
pub open spec fn text_of(s: Option<String>) -> Option<Seq<char>> {
    match s {
        Some(t) => Some(t@),
        None => None,
    }
}

impl DepotFiles {
    /// The names of the images to look for, best first. Hotspots are calibrated
    /// against the buttons image, so that one is preferred; the others let a
    /// stale cache still show something. An empty name stands for no image.
    pub open spec fn wanted(self) -> Seq<Seq<char>> {
        let variant = text_of(self.variant_image);
        seq![
            match (text_of(self.buttons_image), variant) {
                (Some(buttons), _) => buttons,
                (None, Some(v)) => v,
                (None, None) => SIDE_IMAGE@,
            },
            SIDE_IMAGE@,
            match variant {
                Some(v) => v,
                None => Seq::empty(),
            },
            FRONT_IMAGE@,
        ]
    }

    /// Whether a wanted image is there.
    pub open spec fn has(self, name: Seq<char>) -> bool {
        name.len() > 0 && crate::search::first(self.images@, named(name)) is Some
    }

    /// The best wanted image that is there.
    pub open spec fn best(self) -> Option<ImageFile> {
        match crate::search::first(self.wanted(), self.present()) {
            Some(i) => crate::search::first_of(self.images@, named(self.wanted()[i])),
            None => None,
        }
    }

    /// Whether a name is that of an image that is there.
    pub open spec fn present(self) -> spec_fn(Seq<char>) -> bool {
        |name: Seq<char>| self.has(name)
    }

    /// Whether the directory serves the device: its metadata can be read and an
    /// image is there.
    pub open spec fn usable(self) -> bool {
        self.metadata is Loaded && self.best() is Some
    }
}

/// A device's image and what is known of it.
#[derive(Debug)]
pub struct ResolvedAsset {
    pub depot: String,
    pub display_name: String,
    pub image_path: Vec<u8>,
    pub metadata: Metadata,
    /// Actual pixel dimensions of the image. The metadata's origin only tracks
    /// the silhouette inside it, which comes with transparent padding.
    pub png_width: u32,
    pub png_height: u32,
}

/// The dimensions of an image: its own where they could be read, else those of
/// the silhouette, else none.
pub open spec fn dimensions_of(image: ImageFile, metadata: Metadata) -> (u32, u32) {
    match image.dimensions {
        Some(d) => d,
        None => match metadata.origin {
            Some(o) => (o.width, o.height),
            None => (0, 0),
        },
    }
}

/// Whether an asset is the one a depot's directory gives.
pub open spec fn serves(
    style: PathStyle,
    asset: ResolvedAsset,
    dir: Seq<u8>,
    files: DepotFiles,
    depot: Seq<char>,
    display_name: Seq<char>,
) -> bool {
    &&& files.usable()
    &&& asset.depot@ == depot
    &&& asset.display_name@ == display_name
    &&& asset.image_path@ == style.joined(dir, encode_utf8(files.best()->0.name@))
    &&& files.metadata == MetadataFile::Loaded(asset.metadata)
    &&& (asset.png_width, asset.png_height) == dimensions_of(files.best()->0, asset.metadata)
}

impl DepotFiles {
    /// The position of the image with this name.
    fn position(&self, name: &str) -> (position: Option<usize>)
        ensures
            match position {
                Some(i) => crate::search::first(self.images@, named(name@)) == Some(i as int),
                None => crate::search::first(self.images@, named(name@)) is None,
            },
    {
        let ghost p = named(name@);
        let mut i: usize = 0;
        while i < self.images.len()
            invariant
                i <= self.images@.len(),
                p == named(name@),
                forall|j: int| 0 <= j < i ==> !p(#[trigger] self.images@[j]),
            decreases self.images@.len() - i,
        {
            if str_eq(self.images[i].name.as_str(), name) {
                proof {
                    crate::search::lemma_first_is(self.images@, p, i as int);
                }
                return Some(i);
            }
            i += 1;
        }
        None
    }

    /// The best wanted image that is there.
    pub fn best_image(&self) -> (image: Option<&ImageFile>)
        ensures
            match image {
                Some(f) => self.best() == Some(*f),
                None => self.best() is None,
            },
    {
        let variant: &str = match &self.variant_image {
            Some(v) => v.as_str(),
            None => "",
        };
        let first_choice: &str = match &self.buttons_image {
            Some(b) => b.as_str(),
            None => match &self.variant_image {
                Some(v) => v.as_str(),
                None => SIDE_IMAGE,
            },
        };
        let wanted: [&str; 4] = [first_choice, SIDE_IMAGE, variant, FRONT_IMAGE];
        proof {
            reveal_strlit("");
            assert(""@ =~= Seq::<char>::empty());
            assert(self.wanted()[0] == wanted@[0]@);
            assert(self.wanted()[1] == wanted@[1]@);
            assert(self.wanted()[2] == wanted@[2]@);
            assert(self.wanted()[3] == wanted@[3]@);
        }
        let ghost p = self.present();
        let mut k: usize = 0;
        while k < 4
            invariant
                k <= 4,
                p == self.present(),
                wanted@.len() == 4,
                self.wanted().len() == 4,
                forall|j: int| 0 <= j < 4 ==> self.wanted()[j] == (#[trigger] wanted@[j])@,
                forall|j: int| 0 <= j < k ==> !p(#[trigger] self.wanted()[j]),
            decreases 4 - k,
        {
            let name: &str = wanted[k];
            assert(self.wanted()[k as int] == wanted@[k as int]@);
            if name.unicode_len() > 0 {
                if let Some(i) = self.position(name) {
                    proof {
                        crate::search::lemma_first_is(self.wanted(), p, k as int);
                    }
                    return Some(&self.images[i]);
                }
            }
            k += 1;
        }
        None
    }
}

/// The asset a depot's directory gives, if it serves the device.
pub fn depot_asset(
    style: PathStyle,
    dir: &Vec<u8>,
    files: &DepotFiles,
    depot: &str,
    entry: &DeviceEntry,
) -> (asset: Option<ResolvedAsset>)
    ensures
        match asset {
            Some(a) => serves(style, a, dir@, *files, depot@, entry.display_name@),
            None => !files.usable(),
        },
{
    if let MetadataFile::Missing = files.metadata {
        return None;
    }
    let image: &ImageFile = match files.best_image() {
        Some(image) => image,
        None => return None,
    };
    let metadata: Metadata = match files.metadata {
        MetadataFile::Loaded(metadata) => metadata,
        _ => return None,
    };
    let (png_width, png_height): (u32, u32) = match image.dimensions {
        Some(d) => d,
        None => match metadata.origin {
            Some(o) => (o.width, o.height),
            None => (0, 0),
        },
    };
    Some(
        ResolvedAsset {
            depot: depot.to_owned(),
            display_name: entry.display_name.clone(),
            image_path: style.join(dir.as_slice(), image.name.as_str()),
            metadata,
            png_width,
            png_height,
        },
    )
}

/// What the resolver knows.
#[verifier::ext_equal]
pub struct ResolverView {
    pub style: PathStyle,
    pub read_roots: Seq<Seq<u8>>,
    pub write_root: Seq<u8>,
    pub has_bundle: bool,
    pub index: Option<Index>,
}

/// Finds the image of a device among the assets on disk.
#[derive(Debug)]
pub struct AssetResolver {
    /// How the paths of the roots are written.
    style: PathStyle,
    /// Read-time search order: the bundle first, where there is one.
    read_roots: Vec<Vec<u8>>,
    /// Where assets may be written: always the per-user directory.
    write_root: Vec<u8>,
    /// Whether a populated bundle was discovered.
    has_bundle: bool,
    index: Option<Index>,
}

impl View for AssetResolver {
    type V = ResolverView;

    closed spec fn view(&self) -> ResolverView {
        ResolverView {
            style: self.style,
            read_roots: self.read_roots.deep_view(),
            write_root: self.write_root@,
            has_bundle: self.has_bundle,
            index: self.index,
        }
    }
}

/// The bytes of an optional path.
pub open spec fn bytes_of(path: Option<Vec<u8>>) -> Option<Seq<u8>> {
    match path {
        Some(p) => Some(p@),
        None => None,
    }
}

/// The roots to read, in order: the bundle's first, so that a release-time
/// snapshot stays authoritative, then the user's.
pub open spec fn roots_of(bundle: Option<Seq<u8>>, write_root: Seq<u8>) -> Seq<Seq<u8>> {
    match bundle {
        Some(b) => seq![b, write_root],
        None => seq![write_root],
    }
}

/// The directory of a depot below each root.
pub open spec fn depot_dirs(style: PathStyle, roots: Seq<Seq<u8>>, depot: Seq<char>) -> Seq<
    Seq<u8>,
> {
    roots.map_values(|root: Seq<u8>| style.joined(root, encode_utf8(depot)))
}

/// Whether an optional asset is what a walk over some directories may find: that
/// of the first directory that serves the device, where `inspect` tells what is
/// in each.
pub open spec fn found_in<F: Fn(&Vec<u8>) -> DepotFiles>(
    style: PathStyle,
    asset: Option<ResolvedAsset>,
    dirs: Seq<Seq<u8>>,
    inspect: F,
    depot: Seq<char>,
    display_name: Seq<char>,
) -> bool {
    match asset {
        Some(a) => exists|i: int|
            {
                &&& 0 <= i < dirs.len()
                &&& #[trigger] seen_serving(style, a, dirs[i], inspect, depot, display_name)
                &&& forall|j: int|
                    0 <= j < i ==> seen_useless(#[trigger] dirs[j], inspect)
            },
        None => forall|j: int| 0 <= j < dirs.len() ==> seen_useless(#[trigger] dirs[j], inspect),
    }
}

/// Whether `inspect` may show that a directory gives this asset.
pub open spec fn seen_serving<F: Fn(&Vec<u8>) -> DepotFiles>(
    style: PathStyle,
    asset: ResolvedAsset,
    dir: Seq<u8>,
    inspect: F,
    depot: Seq<char>,
    display_name: Seq<char>,
) -> bool {
    exists|path: Vec<u8>, files: DepotFiles|
        path@ == dir && #[trigger] call_ensures(inspect, (&path,), files) && serves(
            style,
            asset,
            dir,
            files,
            depot,
            display_name,
        )
}

/// Whether `inspect` may show that a directory does not serve the device.
pub open spec fn seen_useless<F: Fn(&Vec<u8>) -> DepotFiles>(dir: Seq<u8>, inspect: F) -> bool {
    exists|path: Vec<u8>, files: DepotFiles|
        path@ == dir && #[trigger] call_ensures(inspect, (&path,), files) && !files.usable()
}

/// Whether `inspect` may show that none of some directories serves the device.
pub open spec fn all_useless<F: Fn(&Vec<u8>) -> DepotFiles>(
    dirs: Seq<Seq<u8>>,
    inspect: F,
) -> bool {
    forall|j: int| 0 <= j < dirs.len() ==> seen_useless(#[trigger] dirs[j], inspect)
}

/// Whether a path is one of some directories, with none before it that serves
/// the device.
pub open spec fn inspected<F: Fn(&Vec<u8>) -> DepotFiles>(
    path: Seq<u8>,
    dirs: Seq<Seq<u8>>,
    inspect: F,
) -> bool {
    exists|i: int|
        0 <= i < dirs.len() && path == #[trigger] dirs[i] && all_useless(dirs.take(i), inspect)
}

impl AssetResolver {
    /// A resolver over the user's cache root and the bundle's root, where there
    /// is one. `read_index` tells what the index file at a path holds.
    pub fn new<F: Fn(&Vec<u8>) -> IndexFile>(
        style: PathStyle,
        write_root: Vec<u8>,
        bundle: Option<Vec<u8>>,
        read_index: &F,
    ) -> (resolver: Self)
        requires
            forall|p: Vec<u8>| #[trigger]
                consulted(
                    style,
                    p@,
                    roots_of(bytes_of(bundle), write_root@),
                    *read_index,
                ) ==> call_requires(*read_index, (&p,)),
        ensures
            resolver@.style == style,
            resolver@.write_root == write_root@,
            resolver@.has_bundle == (bundle is Some),
            resolver@.read_roots == roots_of(bytes_of(bundle), write_root@),
            loaded_from(style, resolver@.index, resolver@.read_roots, *read_index),
    {
        let has_bundle: bool = bundle.is_some();
        let mut read_roots: Vec<Vec<u8>> = Vec::new();
        if let Some(b) = bundle {
            read_roots.push(b);
        }
        read_roots.push(vstd::slice::slice_to_vec(write_root.as_slice()));
        assert(read_roots.deep_view() =~= roots_of(bytes_of(bundle), write_root@)) by {
            assert forall|v: Vec<u8>| #[trigger] v.deep_view() == v@ by {
                assert(v.deep_view() =~= v@);
            }
        }
        let index: Option<Index> = load_index(style, &read_roots, read_index);
        AssetResolver { style, read_roots, write_root, has_bundle, index }
    }

    /// Where assets may be written.
    pub fn cache_root(&self) -> (root: &Vec<u8>)
        ensures
            root@ == self@.write_root,
    {
        &self.write_root
    }

    /// Whether the program runs from a populated app bundle.
    pub fn has_bundle_root(&self) -> (has: bool)
        ensures
            has == self@.has_bundle,
    {
        self.has_bundle
    }

    /// The asset of a device: the entry its model matches in the index, served
    /// by the first root that has its files. `forced` names a depot to take
    /// whatever the model is; `inspect` tells what a depot's directory holds for
    /// the device.
    pub fn resolve<F: Fn(&Vec<u8>) -> DepotFiles>(
        &self,
        model: &DeviceModelInfo,
        forced: Option<&str>,
        inspect: &F,
    ) -> (asset: Option<ResolvedAsset>)
        requires
            self@.index matches Some(index) ==> (matches_model(
                index,
                *model,
                crate::config::text(forced),
            ) matches Some(i) ==> forall|p: Vec<u8>| #[trigger]
                inspected(
                    p@,
                    depot_dirs(self@.style, self@.read_roots, index.devices@[i].0@),
                    *inspect,
                ) ==> call_requires(*inspect, (&p,))),
        ensures
            match self@.index {
                Some(index) => match matches_model(index, *model, crate::config::text(forced)) {
                    Some(i) => found_in(
                        self@.style,
                        asset,
                        depot_dirs(self@.style, self@.read_roots, index.devices@[i].0@),
                        *inspect,
                        index.devices@[i].0@,
                        index.devices@[i].1.display_name@,
                    ),
                    None => asset is None,
                },
                None => asset is None,
            },
    {
        let index: &Index = match &self.index {
            Some(index) => index,
            None => return None,
        };
        match resolve_in_index(index, model, forced) {
            Some((depot, entry)) => self.load_files(depot, entry, inspect),
            None => None,
        }
    }

    fn load_files<F: Fn(&Vec<u8>) -> DepotFiles>(
        &self,
        depot: &str,
        entry: &DeviceEntry,
        inspect: &F,
    ) -> (asset: Option<ResolvedAsset>)
        requires
            forall|p: Vec<u8>| #[trigger]
                inspected(
                    p@,
                    depot_dirs(self@.style, self@.read_roots, depot@),
                    *inspect,
                ) ==> call_requires(*inspect, (&p,)),
        ensures
            found_in(
                self@.style,
                asset,
                depot_dirs(self@.style, self@.read_roots, depot@),
                *inspect,
                depot@,
                entry.display_name@,
            ),
    {
        let ghost dirs = depot_dirs(self@.style, self@.read_roots, depot@);
        let mut i: usize = 0;
        while i < self.read_roots.len()
            invariant
                i <= self.read_roots@.len(),
                dirs == depot_dirs(self@.style, self@.read_roots, depot@),
                forall|p: Vec<u8>| #[trigger]
                    inspected(p@, dirs, *inspect) ==> call_requires(*inspect, (&p,)),
                forall|j: int| 0 <= j < i ==> seen_useless(#[trigger] dirs[j], *inspect),
            decreases self.read_roots@.len() - i,
        {
            let dir: Vec<u8> = self.style.join(self.read_roots[i].as_slice(), depot);
            proof {
                let root = self.read_roots@[i as int];
                assert(root.deep_view() =~= root@);
                assert(self@.read_roots[i as int] == root@);
                assert(dirs[i as int] == dir@);
                assert(all_useless(dirs.take(i as int), *inspect));
                assert(inspected(dir@, dirs, *inspect));
            }
            let files: DepotFiles = inspect(&dir);
            let asset: Option<ResolvedAsset> = depot_asset(self.style, &dir, &files, depot, entry);
            if asset.is_some() {
                assert(seen_serving(
                    self@.style,
                    asset->0,
                    dirs[i as int],
                    *inspect,
                    depot@,
                    entry.display_name@,
                ));
                return asset;
            }
            assert(seen_useless(dirs[i as int], *inspect));
            i += 1;
        }
        None
    }
}

/// The images that serve a device, best first: the buttons image, or where it has
/// none the front view in its colour, or where it has neither the default side
/// view; then the default side view, the front view in its colour, and the
/// default front view.
pub proof fn law_images_are_tried_best_first(files: DepotFiles)
    ensures
        files.wanted().len() == 4,
        files.buttons_image matches Some(b) ==> files.wanted()[0] == b@,
        files.buttons_image is None && files.variant_image is Some ==> files.wanted()[0]
            == files.variant_image->0@,
        files.buttons_image is None && files.variant_image is None ==> files.wanted()[0]
            == "side_core.png"@,
        files.wanted()[1] == "side_core.png"@,
        files.variant_image matches Some(v) ==> files.wanted()[2] == v@,
        files.variant_image is None ==> files.wanted()[2].len() == 0,
        files.wanted()[3] == "front_core.png"@,
{
}

/// The image taken is the first of those wanted that is there, a name that is
/// empty standing for none; where none is there, there is no image.
pub proof fn law_the_first_image_that_is_there_is_taken(files: DepotFiles, k: int, f: int)
    ensures
        0 <= k < 4 && files.wanted()[k].len() > 0 && 0 <= f < files.images@.len()
            && files.images@[f].name@ == files.wanted()[k] && (forall|g: int|
            0 <= g < f ==> (#[trigger] files.images@[g]).name@ != files.wanted()[k]) && (forall|
            m: int,
            g: int,
        |
            0 <= m < k && 0 <= g < files.images@.len() && files.wanted()[m].len() > 0
                ==> #[trigger] files.images@[g].name@ != #[trigger] files.wanted()[m])
            ==> files.best() == Some(files.images@[f]),
        (forall|m: int, g: int|
            0 <= m < 4 && 0 <= g < files.images@.len() && files.wanted()[m].len() > 0
                ==> #[trigger] files.images@[g].name@ != #[trigger] files.wanted()[m])
            ==> files.best() is None,
{
    let q = files.present();
    let wanted = files.wanted();
    if 0 <= k < 4 && wanted[k].len() > 0 && 0 <= f < files.images@.len()
        && files.images@[f].name@ == wanted[k] && (forall|g: int|
        0 <= g < f ==> (#[trigger] files.images@[g]).name@ != wanted[k]) && (forall|m: int, g: int|
        0 <= m < k && 0 <= g < files.images@.len() && wanted[m].len() > 0
            ==> #[trigger] files.images@[g].name@ != #[trigger] wanted[m]) {
        let p = named(wanted[k]);
        assert(p(files.images@[f]));
        assert forall|g: int| 0 <= g < f implies !p(#[trigger] files.images@[g]) by {}
        crate::search::law_the_first_match_is_found(files.images@, p, f);
        assert(q(wanted[k]));
        assert forall|m: int| 0 <= m < k implies !q(#[trigger] wanted[m]) by {
            if wanted[m].len() > 0 {
                let r = named(wanted[m]);
                assert forall|g: int| 0 <= g < files.images@.len() implies !r(
                    #[trigger] files.images@[g],
                ) by {
                    assert(files.images@[g].name@ != wanted[m]);
                }
                crate::search::law_nothing_is_found_where_nothing_matches(files.images@, r);
            }
        }
        crate::search::law_the_first_match_is_found(wanted, q, k);
    }
    if forall|m: int, g: int|
        0 <= m < 4 && 0 <= g < files.images@.len() && wanted[m].len() > 0
            ==> #[trigger] files.images@[g].name@ != #[trigger] wanted[m] {
        assert forall|m: int| 0 <= m < wanted.len() implies !q(#[trigger] wanted[m]) by {
            if wanted[m].len() > 0 {
                let r = named(wanted[m]);
                assert forall|g: int| 0 <= g < files.images@.len() implies !r(
                    #[trigger] files.images@[g],
                ) by {
                    assert(files.images@[g].name@ != wanted[m]);
                }
                crate::search::law_nothing_is_found_where_nothing_matches(files.images@, r);
            }
        }
        crate::search::law_nothing_is_found_where_nothing_matches(wanted, q);
    }
}

/// A directory serves a device exactly where its metadata could be read and an
/// image is there.
pub proof fn law_a_directory_serves_with_metadata_and_an_image(files: DepotFiles)
    ensures
        files.metadata is Missing || files.metadata is Unparseable ==> !files.usable(),
        files.metadata is Loaded ==> (files.usable() <==> files.best() is Some),
{
}

/// The dimensions of an image are its own; where they could not be read, those of
/// the silhouette, and 0 by 0 where that is not known either.
pub proof fn law_dimensions_are_the_images_own(image: ImageFile, metadata: Metadata)
    ensures
        image.dimensions matches Some((w, h)) ==> dimensions_of(image, metadata) == (w, h),
        image.dimensions is None && metadata.origin is Some ==> dimensions_of(image, metadata) == (
            metadata.origin->0.width,
            metadata.origin->0.height,
        ),
        image.dimensions is None && metadata.origin is None ==> dimensions_of(image, metadata) == (
            0u32,
            0u32,
        ),
{
}

/// What an asset says of a directory that serves the device: the depot and the
/// name it was asked for, the path of the best image below the directory, the
/// metadata that was read, and the image's dimensions.
pub proof fn law_an_asset_says_what_its_directory_holds(
    style: PathStyle,
    asset: ResolvedAsset,
    dir: Seq<u8>,
    files: DepotFiles,
    depot: Seq<char>,
    display_name: Seq<char>,
)
    requires
        serves(style, asset, dir, files, depot, display_name),
    ensures
        files.metadata == MetadataFile::Loaded(asset.metadata),
        files.best() is Some,
        asset.depot@ == depot,
        asset.display_name@ == display_name,
        asset.image_path@ == style.joined(dir, encode_utf8(files.best()->0.name@)),
        asset.png_width == dimensions_of(files.best()->0, asset.metadata).0,
        asset.png_height == dimensions_of(files.best()->0, asset.metadata).1,
{
}

/// The bundle is searched before the user's directory, which is always searched;
/// the depot is looked for below each, in that order.
pub proof fn law_the_bundle_is_searched_first(
    style: PathStyle,
    bundle: Seq<u8>,
    write_root: Seq<u8>,
    roots: Seq<Seq<u8>>,
    depot: Seq<char>,
)
    ensures
        roots_of(None, write_root).len() == 1,
        roots_of(None, write_root)[0] == write_root,
        roots_of(Some(bundle), write_root).len() == 2,
        roots_of(Some(bundle), write_root)[0] == bundle,
        roots_of(Some(bundle), write_root)[1] == write_root,
        depot_dirs(style, roots, depot).len() == roots.len(),
        forall|i: int|
            0 <= i < roots.len() ==> #[trigger] depot_dirs(style, roots, depot)[i] == style.joined(
                roots[i],
                encode_utf8(depot),
            ),
{
}

/// The asset found is that of the first directory that serves the device; where
/// nothing is found, no directory serves it. Each directory up to there was
/// inspected and found to be so.
pub proof fn law_the_first_directory_that_serves_is_taken<F: Fn(&Vec<u8>) -> DepotFiles>(
    style: PathStyle,
    asset: Option<ResolvedAsset>,
    dirs: Seq<Seq<u8>>,
    inspect: F,
    depot: Seq<char>,
    display_name: Seq<char>,
)
    requires
        found_in(style, asset, dirs, inspect, depot, display_name),
    ensures
        asset is None ==> forall|j: int|
            0 <= j < dirs.len() ==> seen_useless(#[trigger] dirs[j], inspect),
        asset matches Some(a) ==> exists|i: int|
            {
                &&& 0 <= i < dirs.len()
                &&& #[trigger] seen_serving(style, a, dirs[i], inspect, depot, display_name)
                &&& forall|j: int| 0 <= j < i ==> seen_useless(#[trigger] dirs[j], inspect)
            },
{
}

/// What was seen of a directory is what inspecting exactly that directory gave.
pub proof fn law_directories_are_judged_by_inspection<F: Fn(&Vec<u8>) -> DepotFiles>(
    style: PathStyle,
    asset: ResolvedAsset,
    dir: Seq<u8>,
    inspect: F,
    depot: Seq<char>,
    display_name: Seq<char>,
)
    ensures
        seen_useless(dir, inspect) ==> exists|path: Vec<u8>, files: DepotFiles|
            path@ == dir && #[trigger] call_ensures(inspect, (&path,), files) && !files.usable(),
        seen_serving(style, asset, dir, inspect, depot, display_name) ==> exists|
            path: Vec<u8>,
            files: DepotFiles,
        |
            path@ == dir && #[trigger] call_ensures(inspect, (&path,), files) && serves(
                style,
                asset,
                dir,
                files,
                depot,
                display_name,
            ),
{
}

/// An optional text or path is kept as it is.
pub proof fn law_optional_names_are_kept(s: Option<String>, path: Option<Vec<u8>>)
    ensures
        text_of(s) is Some <==> s is Some,
        s matches Some(t) ==> text_of(s) == Some(t@),
        bytes_of(path) is Some <==> path is Some,
        path matches Some(p) ==> bytes_of(path) == Some(p@),
{
}

/// No directory is inspected but those in question, and none behind one that
/// serves the device.
pub proof fn law_only_the_directories_in_question_are_inspected<F: Fn(&Vec<u8>) -> DepotFiles>(
    path: Seq<u8>,
    dirs: Seq<Seq<u8>>,
    inspect: F,
)
    requires
        inspected(path, dirs, inspect),
    ensures
        exists|i: int|
            0 <= i < dirs.len() && #[trigger] dirs[i] == path && forall|j: int|
                0 <= j < i ==> seen_useless(#[trigger] dirs[j], inspect),
{
    let i = choose|i: int|
        0 <= i < dirs.len() && path == #[trigger] dirs[i] && all_useless(dirs.take(i), inspect);
    assert forall|j: int| 0 <= j < i implies seen_useless(#[trigger] dirs[j], inspect) by {
        assert(dirs.take(i)[j] == dirs[j]);
    }
}

/// The image that is taken for a device is there under a wanted name, no earlier
/// wanted name is there, and there is none only where no wanted name is.
pub proof fn law_taking_the_best_image(
    files: DepotFiles,
    image: Option<&ImageFile>,
    f: int,
)
    requires
        call_ensures(DepotFiles::best_image, (&files,), image),
        0 <= f < files.images@.len(),
        forall|g: int|
            0 <= g < f ==> (#[trigger] files.images@[g]).name@ != files.images@[f].name@,
        files.images@[f].name@.len() > 0,
    ensures
        files.buttons_image matches Some(b) ==> (b@ == files.images@[f].name@ ==> image == Some(
            &files.images@[f],
        )),
        files.buttons_image is None ==> (files.variant_image matches Some(v) ==> (v@
            == files.images@[f].name@ ==> image == Some(&files.images@[f]))),
        files.buttons_image is None && files.variant_image is None && files.images@[f].name@
            == "side_core.png"@ ==> image == Some(&files.images@[f]),
        files.images@[f].name@ == "side_core.png"@ || files.images@[f].name@ == "front_core.png"@
            ==> image is Some,
        files.variant_image matches Some(v) ==> (v@ == files.images@[f].name@ ==> image is Some),
{
    law_images_are_tried_best_first(files);
    let wanted = files.wanted();
    let q = files.present();
    let name = files.images@[f].name@;
    let p = named(name);
    assert(p(files.images@[f]));
    assert forall|g: int| 0 <= g < f implies !p(#[trigger] files.images@[g]) by {}
    crate::search::law_the_first_match_is_found(files.images@, p, f);
    assert(q(name));
    if wanted[0] == name {
        law_the_first_image_that_is_there_is_taken(files, 0, f);
    }
    if wanted[1] == name {
        crate::search::law_the_first_match_is_found(wanted, q, 1);
        lemma_a_wanted_image_is_found(files);
    }
    if wanted[2] == name {
        crate::search::law_the_first_match_is_found(wanted, q, 2);
        lemma_a_wanted_image_is_found(files);
    }
    if wanted[3] == name {
        crate::search::law_the_first_match_is_found(wanted, q, 3);
        lemma_a_wanted_image_is_found(files);
    }
}

proof fn lemma_a_wanted_image_is_found(files: DepotFiles)
    requires
        crate::search::first(files.wanted(), files.present()) is Some,
    ensures
        files.best() is Some,
{
    let i = crate::search::first(files.wanted(), files.present())->0;
    assert(crate::search::is_first(files.wanted(), files.present(), i));
}

/// A directory gives an asset exactly where its metadata was read and an image is
/// there: with the depot and the name asked for, that image below the directory,
/// that metadata, and the image's own dimensions where they are known.
pub proof fn law_a_directory_gives_what_it_holds(
    style: PathStyle,
    dir: Vec<u8>,
    files: DepotFiles,
    depot: &str,
    entry: DeviceEntry,
    image: Option<&ImageFile>,
    asset: Option<ResolvedAsset>,
)
    requires
        call_ensures(DepotFiles::best_image, (&files,), image),
        call_ensures(depot_asset, (style, &dir, &files, depot, &entry), asset),
    ensures
        asset is Some <==> files.metadata is Loaded && image is Some,
        asset matches Some(a) ==> {
            &&& a.depot@ == depot@
            &&& a.display_name@ == entry.display_name@
            &&& a.image_path@ == style.joined(dir@, encode_utf8(image->0.name@))
            &&& files.metadata == MetadataFile::Loaded(a.metadata)
            &&& image->0.dimensions matches Some(d) ==> a.png_width == d.0 && a.png_height == d.1
            &&& image->0.dimensions is None ==> (a.metadata.origin matches Some(o) ==> a.png_width
                == o.width && a.png_height == o.height)
            &&& image->0.dimensions is None && a.metadata.origin is None ==> a.png_width == 0
                && a.png_height == 0
        },
{
    law_a_directory_serves_with_metadata_and_an_image(files);
    if let Some(a) = asset {
        law_an_asset_says_what_its_directory_holds(
            style,
            a,
            dir@,
            files,
            depot@,
            entry.display_name@,
        );
        law_dimensions_are_the_images_own(files.best()->0, a.metadata);
    }
}

/// A resolver writes to the user's directory alone, reads the bundle before it
/// where there is one, and takes the index of the first root that has a usable
/// one.
pub proof fn law_a_resolver_reads_the_bundle_first<F: Fn(&Vec<u8>) -> IndexFile>(
    style: PathStyle,
    write_root: Vec<u8>,
    bundle: Option<Vec<u8>>,
    read_index: F,
    resolver: AssetResolver,
    root: &Vec<u8>,
    has: bool,
)
    requires
        call_ensures(
            AssetResolver::new::<F>,
            (style, write_root, bundle, &read_index),
            resolver,
        ),
        call_ensures(AssetResolver::cache_root, (&resolver,), root),
        call_ensures(AssetResolver::has_bundle_root, (&resolver,), has),
    ensures
        root@ == write_root@,
        has <==> bundle is Some,
        resolver@.read_roots.last() == write_root@,
        bundle matches Some(b) ==> resolver@.read_roots.len() == 2 && resolver@.read_roots[0] == b@,
        bundle is None ==> resolver@.read_roots.len() == 1,
        resolver@.style == style,
        loaded_from(style, resolver@.index, resolver@.read_roots, read_index),
{
}

/// A device has an asset only where its model is in the index, and then that of
/// the first root whose directory of the entry's depot serves it.
pub proof fn law_resolving_goes_by_index_and_roots<F: Fn(&Vec<u8>) -> DepotFiles>(
    resolver: AssetResolver,
    model: DeviceModelInfo,
    forced: Option<&str>,
    inspect: F,
    hit: Option<(&str, &DeviceEntry)>,
    asset: Option<ResolvedAsset>,
)
    requires
        call_ensures(AssetResolver::resolve::<F>, (&resolver, &model, forced, &inspect), asset),
        resolver@.index matches Some(index) ==> call_ensures(
            resolve_in_index,
            (&index, &model, forced),
            hit,
        ),
    ensures
        resolver@.index is None || hit is None ==> asset is None,
        resolver@.index is Some ==> (hit matches Some(h) ==> found_in(
            resolver@.style,
            asset,
            resolver@.read_roots.map_values(
                |root: Seq<u8>| resolver@.style.joined(root, encode_utf8(h.0@)),
            ),
            inspect,
            h.0@,
            h.1.display_name@,
        )),
        asset matches Some(a) ==> a.depot@ == (hit->0).0@ && a.display_name@
            == (hit->0).1.display_name@,
{
    if let Some(h) = hit {
        if resolver@.index is Some {
            let dirs = depot_dirs(resolver@.style, resolver@.read_roots, h.0@);
            assert(dirs =~= resolver@.read_roots.map_values(
                |root: Seq<u8>| resolver@.style.joined(root, encode_utf8(h.0@)),
            ));
            if let Some(a) = asset {
                let i = choose|i: int|
                    {
                        &&& 0 <= i < dirs.len()
                        &&& #[trigger] seen_serving(
                            resolver@.style,
                            a,
                            dirs[i],
                            inspect,
                            h.0@,
                            h.1.display_name@,
                        )
                        &&& forall|j: int| 0 <= j < i ==> seen_useless(#[trigger] dirs[j], inspect)
                    };
                assert(seen_serving(
                    resolver@.style,
                    a,
                    dirs[i],
                    inspect,
                    h.0@,
                    h.1.display_name@,
                ));
            }
        }
    }
}

} // verus!
