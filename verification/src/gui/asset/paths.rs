//! Filesystem roots and index loading for render-time assets.

use crate::gui::asset::index::Index;
use crate::path::PathStyle;
use crate::paths::data_dir;
use crate::paths::Environment;
use vstd::prelude::*;
use vstd::string::StringSliceAdditionalSpecFns;

verus! {

/// Name of the index file below each root.
pub const INDEX_FILE: &'static str = "index.json";

/// Per-user writable cache root: an `assets` directory below the data
/// directory, and below the current one only when no home directory can be
/// resolved.
pub fn user_cache_root(env: &Environment) -> (root: Vec<u8>)
    ensures
        root@ == match env.data_directory() {
            Some(dir) => env.style.joined(dir, "assets".spec_bytes()),
            None => "./assets".spec_bytes(),
        },
{
    match data_dir(env) {
        Ok(dir) => env.style.join(dir.as_slice(), "assets"),
        Err(_) => vstd::slice::slice_to_vec("./assets".as_bytes()),
    }
}

/// The assets directory of a bundle whose contents are in `contents`.
pub open spec fn bundle_assets(style: PathStyle, contents: Seq<u8>) -> Seq<u8> {
    style.joined(style.joined(contents, "Resources".spec_bytes()), "assets".spec_bytes())
}

/// Read-only root inside the app bundle, where `contents` is the directory two
/// levels above the executable and `is_file` tells whether a path is a file.
/// The root has to hold an index: an empty one counts as absent.
pub fn bundle_assets_root<F: Fn(&Vec<u8>) -> bool>(
    style: PathStyle,
    contents: Option<&[u8]>,
    is_file: &F,
) -> (root: Option<Vec<u8>>)
    requires
        contents matches Some(c) ==> forall|p: Vec<u8>|
            p@ == style.joined(bundle_assets(style, c@), INDEX_FILE.spec_bytes())
                ==> #[trigger] call_requires(*is_file, (&p,)),
    ensures
        root matches Some(r) ==> contents is Some && r@ == bundle_assets(style, contents->0@),
        contents matches Some(c) ==> exists|path: Vec<u8>|
            path@ == style.joined(bundle_assets(style, c@), INDEX_FILE.spec_bytes())
                && #[trigger] call_ensures(*is_file, (&path,), root is Some),
{
    let contents: &[u8] = match contents {
        Some(c) => c,
        None => return None,
    };
    let resources: Vec<u8> = style.join(contents, "Resources");
    let candidate: Vec<u8> = style.join(resources.as_slice(), "assets");
    let index: Vec<u8> = style.join(candidate.as_slice(), INDEX_FILE);
    if is_file(&index) {
        Some(candidate)
    } else {
        None
    }
}

/// The index file below a root.
#[derive(Debug)]
pub enum IndexFile {
    Missing,
    Unparseable,
    Loaded(Index),
}

/// Whether `read` may show that a root has no usable index.
pub open spec fn seen_without<F: Fn(&Vec<u8>) -> IndexFile>(
    style: PathStyle,
    root: Seq<u8>,
    read: F,
) -> bool {
    exists|path: Vec<u8>, file: IndexFile|
        path@ == style.joined(root, INDEX_FILE.spec_bytes()) && #[trigger] call_ensures(
            read,
            (&path,),
            file,
        ) && !(file is Loaded)
}

/// Whether `read` may show that a root has this index.
pub open spec fn seen_with<F: Fn(&Vec<u8>) -> IndexFile>(
    style: PathStyle,
    root: Seq<u8>,
    read: F,
    index: Index,
) -> bool {
    exists|path: Vec<u8>|
        path@ == style.joined(root, INDEX_FILE.spec_bytes()) && #[trigger] call_ensures(
            read,
            (&path,),
            IndexFile::Loaded(index),
        )
}

/// Whether an index is the first that can be parsed among those below some
/// roots.
pub open spec fn first_parsed<F: Fn(&Vec<u8>) -> IndexFile>(
    style: PathStyle,
    index: Index,
    roots: Seq<Seq<u8>>,
    read: F,
) -> bool {
    exists|i: int|
        {
            &&& 0 <= i < roots.len()
            &&& #[trigger] seen_with(style, roots[i], read, index)
            &&& forall|j: int| 0 <= j < i ==> seen_without(style, #[trigger] roots[j], read)
        }
}

/// Whether an optional index is what a walk over some roots may find: the first
/// that can be parsed, and none where none can.
pub open spec fn loaded_from<F: Fn(&Vec<u8>) -> IndexFile>(
    style: PathStyle,
    index: Option<Index>,
    roots: Seq<Seq<u8>>,
    read: F,
) -> bool {
    match index {
        Some(idx) => first_parsed(style, idx, roots, read),
        None => forall|j: int| 0 <= j < roots.len() ==> seen_without(style, #[trigger] roots[j], read),
    }
}

/// Whether none of some roots may have a usable index.
pub open spec fn all_without<F: Fn(&Vec<u8>) -> IndexFile>(
    style: PathStyle,
    roots: Seq<Seq<u8>>,
    read: F,
) -> bool {
    forall|j: int| 0 <= j < roots.len() ==> seen_without(style, #[trigger] roots[j], read)
}

/// Whether a path is that of the index below a root, with no usable one below
/// those before it.
pub open spec fn consulted<F: Fn(&Vec<u8>) -> IndexFile>(
    style: PathStyle,
    path: Seq<u8>,
    roots: Seq<Seq<u8>>,
    read: F,
) -> bool {
    exists|i: int|
        0 <= i < roots.len() && path == style.joined(#[trigger] roots[i], INDEX_FILE.spec_bytes())
            && all_without(style, roots.take(i), read)
}

/// Walk read roots looking for the first parseable index, where `read` tells
/// what the file at a path holds. The first root wins, so that the bundle's
/// snapshot stays authoritative.
pub fn load_index<F: Fn(&Vec<u8>) -> IndexFile>(
    style: PathStyle,
    roots: &Vec<Vec<u8>>,
    read: &F,
) -> (index: Option<Index>)
    requires
        forall|p: Vec<u8>| #[trigger]
            consulted(style, p@, roots.deep_view(), *read) ==> call_requires(*read, (&p,)),
    ensures
        loaded_from(style, index, roots.deep_view(), *read),
{
    let ghost views = roots.deep_view();
    let mut i: usize = 0;
    while i < roots.len()
        invariant
            i <= roots@.len(),
            views == roots.deep_view(),
            forall|p: Vec<u8>| #[trigger]
                consulted(style, p@, views, *read) ==> call_requires(*read, (&p,)),
            forall|j: int| 0 <= j < i ==> seen_without(style, #[trigger] views[j], *read),
        decreases roots@.len() - i,
    {
        let path: Vec<u8> = style.join(roots[i].as_slice(), INDEX_FILE);
        proof {
            let root = roots@[i as int];
            assert(root.deep_view() =~= root@);
            assert(views[i as int] == root@);
            assert(all_without(style, views.take(i as int), *read));
            assert(consulted(style, path@, views, *read));
        }
        let file: IndexFile = read(&path);
        match file {
            IndexFile::Loaded(index) => {
                assert(seen_with(style, views[i as int], *read, index));
                assert(first_parsed(style, index, views, *read));
                return Some(index);
            },
            IndexFile::Missing | IndexFile::Unparseable => {
                assert(seen_without(style, views[i as int], *read));
            },
        }
        i += 1;
    }
    None
}

/// The assets of a bundle are below its `Resources`.
pub proof fn law_bundled_assets_are_below_the_resources(style: PathStyle, contents: Seq<u8>)
    ensures
        bundle_assets(style, contents) == style.joined_all(
            contents,
            seq!["Resources".spec_bytes(), "assets".spec_bytes()],
        ),
{
    let segments = seq!["Resources".spec_bytes(), "assets".spec_bytes()];
    reveal_with_fuel(PathStyle::joined_all, 3);
    assert(segments.drop_last() =~= seq!["Resources".spec_bytes()]);
    assert(segments.drop_last().drop_last() =~= Seq::empty());
}

/// The index found is that of the first root that has a usable one; where none
/// is found, no root has one.
pub proof fn law_the_first_usable_index_is_loaded<F: Fn(&Vec<u8>) -> IndexFile>(
    style: PathStyle,
    index: Option<Index>,
    roots: Seq<Seq<u8>>,
    read: F,
)
    requires
        loaded_from(style, index, roots, read),
    ensures
        index is None ==> forall|j: int|
            0 <= j < roots.len() ==> seen_without(style, #[trigger] roots[j], read),
        index matches Some(idx) ==> exists|i: int|
            {
                &&& 0 <= i < roots.len()
                &&& #[trigger] seen_with(style, roots[i], read, idx)
                &&& forall|j: int| 0 <= j < i ==> seen_without(style, #[trigger] roots[j], read)
            },
{
}

/// What was seen of a root is what reading the `index.json` right below it gave.
pub proof fn law_roots_are_judged_by_their_index_file<F: Fn(&Vec<u8>) -> IndexFile>(
    style: PathStyle,
    root: Seq<u8>,
    read: F,
    index: Index,
)
    ensures
        seen_without(style, root, read) ==> exists|path: Vec<u8>, file: IndexFile|
            path@ == style.joined(root, "index.json".spec_bytes()) && #[trigger] call_ensures(
                read,
                (&path,),
                file,
            ) && (file is Missing || file is Unparseable),
        seen_with(style, root, read, index) ==> exists|path: Vec<u8>|
            path@ == style.joined(root, "index.json".spec_bytes()) && #[trigger] call_ensures(
                read,
                (&path,),
                IndexFile::Loaded(index),
            ),
{
}

/// No file is read but the index of a root, and none behind one that is usable.
pub proof fn law_only_the_index_of_a_root_is_read<F: Fn(&Vec<u8>) -> IndexFile>(
    style: PathStyle,
    path: Seq<u8>,
    roots: Seq<Seq<u8>>,
    read: F,
)
    requires
        consulted(style, path, roots, read),
    ensures
        exists|i: int|
            0 <= i < roots.len() && path == style.joined(
                #[trigger] roots[i],
                "index.json".spec_bytes(),
            ) && forall|j: int| 0 <= j < i ==> seen_without(style, #[trigger] roots[j], read),
{
    let i = choose|i: int|
        0 <= i < roots.len() && path == style.joined(#[trigger] roots[i], INDEX_FILE.spec_bytes())
            && all_without(style, roots.take(i), read);
    assert forall|j: int| 0 <= j < i implies seen_without(style, #[trigger] roots[j], read) by {
        assert(roots.take(i)[j] == roots[j]);
    }
}

/// Assets are cached in `assets` below the data directory, and in `./assets` only
/// where that cannot be resolved.
pub proof fn law_the_cache_is_below_the_data_directory(
    env: Environment,
    data: Result<Vec<u8>, crate::paths::PathsError>,
    root: Vec<u8>,
)
    requires
        call_ensures(data_dir, (&env,), data),
        call_ensures(user_cache_root, (&env,), root),
    ensures
        data matches Ok(dir) ==> root@ == env.style.joined(dir@, "assets".spec_bytes()),
        data is Err ==> root@ == "./assets".spec_bytes(),
{
}

/// A bundle's root is taken exactly where the `index.json` below its
/// `Resources/assets` is a file; outside a bundle there is none.
pub proof fn law_a_bundle_counts_with_an_index<F: Fn(&Vec<u8>) -> bool>(
    style: PathStyle,
    contents: &[u8],
    is_file: F,
    root: Option<Vec<u8>>,
    outside: Option<Vec<u8>>,
)
    requires
        call_ensures(bundle_assets_root::<F>, (style, Some(contents), &is_file), root),
        call_ensures(bundle_assets_root::<F>, (style, None, &is_file), outside),
    ensures
        outside is None,
        root matches Some(r) ==> r@ == style.joined_all(
            contents@,
            seq!["Resources".spec_bytes(), "assets".spec_bytes()],
        ),
        exists|path: Vec<u8>|
            path@ == style.joined(
                style.joined_all(
                    contents@,
                    seq!["Resources".spec_bytes(), "assets".spec_bytes()],
                ),
                "index.json".spec_bytes(),
            ) && #[trigger] call_ensures(is_file, (&path,), root is Some),
{
    law_bundled_assets_are_below_the_resources(style, contents@);
}

/// With two roots, the index is the first one's wherever that has a usable one,
/// and the second one's only where it has not.
pub proof fn law_loading_takes_the_first_usable_index<F: Fn(&Vec<u8>) -> IndexFile>(
    style: PathStyle,
    roots: Vec<Vec<u8>>,
    read: F,
    index: Option<Index>,
)
    requires
        call_ensures(load_index::<F>, (style, &roots, &read), index),
        roots@.len() == 2,
    ensures
        index matches Some(idx) ==> seen_with(style, roots@[0]@, read, idx) || (seen_without(
            style,
            roots@[0]@,
            read,
        ) && seen_with(style, roots@[1]@, read, idx)),
        index is None ==> seen_without(style, roots@[0]@, read) && seen_without(
            style,
            roots@[1]@,
            read,
        ),
{
    let views = roots.deep_view();
    assert(roots@[0].deep_view() =~= roots@[0]@);
    assert(roots@[1].deep_view() =~= roots@[1]@);
    assert(views[0] == roots@[0]@ && views[1] == roots@[1]@);
    law_the_first_usable_index_is_loaded(style, index, views, read);
    if let Some(idx) = index {
        let i = choose|i: int|
            {
                &&& 0 <= i < views.len()
                &&& #[trigger] seen_with(style, views[i], read, idx)
                &&& forall|j: int| 0 <= j < i ==> seen_without(style, #[trigger] views[j], read)
            };
        assert(i == 0 || i == 1);
        assert(i == 1 ==> seen_without(style, views[0], read));
    }
}

} // verus!
