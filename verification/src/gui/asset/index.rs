//! The registry of device images.

use crate::config::text;
use crate::device::DeviceModelInfo;
use crate::search::first;
use crate::search::lemma_first_exists;
use crate::search::lemma_first_is;
use crate::text::ends_with;
use crate::text::has_suffix;
use crate::text::hex;
use crate::text::hex4;
use crate::text::push_hex;
use crate::text::push_hex4;
use crate::text::str_eq;
use vstd::prelude::*;

verus! {

/// A device in the registry.
#[derive(Debug)]
pub struct DeviceEntry {
    pub model_id: String,
    pub display_name: String,
}

/// The registry: each device with the name of its depot.
#[derive(Debug)]
pub struct Index {
    pub devices: Vec<(String, DeviceEntry)>,
}

/// Whether a device is in the depot of this name.
pub open spec fn in_depot(depot: Seq<char>) -> spec_fn((String, DeviceEntry)) -> bool {
    |d: (String, DeviceEntry)| d.0@ == depot
}

/// Whether a device has this model id.
pub open spec fn has_model_id(id: Seq<char>) -> spec_fn((String, DeviceEntry)) -> bool {
    |d: (String, DeviceEntry)| d.1.model_id@ == id
}

/// Whether a device's model id ends with this.
pub open spec fn has_model_suffix(id: Seq<char>) -> spec_fn((String, DeviceEntry)) -> bool {
    |d: (String, DeviceEntry)| ends_with(d.1.model_id@, id)
}

/// The model ids of a device that are set, each in hexadecimal behind a prefix.
pub open spec fn id_texts(ids: Seq<u16>, prefix: Seq<char>) -> Seq<Seq<char>>
    decreases ids.len(),
{
    if ids.len() == 0 {
        Seq::empty()
    } else {
        let rest = id_texts(ids.drop_last(), prefix);
        if ids.last() != 0 {
            rest.push(prefix + hex4(ids.last()))
        } else {
            rest
        }
    }
}

/// The registry ids a model may have: its extended id in front of each id that
/// is set.
pub open spec fn strict_ids(model: DeviceModelInfo) -> Seq<Seq<char>> {
    id_texts(model.model_ids@, hex(model.extended_model_id))
}

/// What the registry id of a model may end with: each id that is set.
pub open spec fn suffix_ids(model: DeviceModelInfo) -> Seq<Seq<char>> {
    id_texts(model.model_ids@, Seq::empty())
}

/// Whether some device of the registry has this model id.
pub open spec fn known_id(index: Index) -> spec_fn(Seq<char>) -> bool {
    |id: Seq<char>| first(index.devices@, has_model_id(id)) is Some
}

/// Whether some device's model id ends with this.
pub open spec fn known_suffix(index: Index) -> spec_fn(Seq<char>) -> bool {
    |id: Seq<char>| first(index.devices@, has_model_suffix(id)) is Some
}

/// The position in the registry of the entry for a model. A forced depot wins
/// where it exists. Otherwise the first of the model's registry ids that is
/// known decides, and failing all of them the first id that some registry id
/// ends with: the registry's prefix does not line up with the extended id of
/// every device.
pub open spec fn matches_model(
    index: Index,
    model: DeviceModelInfo,
    forced: Option<Seq<char>>,
) -> Option<int> {
    match forced {
        Some(depot) if first(index.devices@, in_depot(depot)) is Some => first(
            index.devices@,
            in_depot(depot),
        ),
        _ => match first(strict_ids(model), known_id(index)) {
            Some(k) => first(index.devices@, has_model_id(strict_ids(model)[k])),
            None => match first(suffix_ids(model), known_suffix(index)) {
                Some(k) => first(index.devices@, has_model_suffix(suffix_ids(model)[k])),
                None => None,
            },
        },
    }
}

impl Index {
    /// The position of the depot of this name.
    pub fn find_depot(&self, depot: &str) -> (position: Option<usize>)
        ensures
            match position {
                Some(i) => first(self.devices@, in_depot(depot@)) == Some(i as int) && i
                    < self.devices@.len(),
                None => first(self.devices@, in_depot(depot@)) is None,
            },
    {
        let ghost p = in_depot(depot@);
        let mut i: usize = 0;
        while i < self.devices.len()
            invariant
                i <= self.devices@.len(),
                p == in_depot(depot@),
                forall|j: int| 0 <= j < i ==> !p(#[trigger] self.devices@[j]),
            decreases self.devices@.len() - i,
        {
            if str_eq(self.devices[i].0.as_str(), depot) {
                proof {
                    lemma_first_is(self.devices@, p, i as int);
                }
                return Some(i);
            }
            i += 1;
        }
        None
    }

    /// The position of the first device with this model id.
    pub fn find_by_model_id(&self, id: &str) -> (position: Option<usize>)
        ensures
            match position {
                Some(i) => first(self.devices@, has_model_id(id@)) == Some(i as int) && i
                    < self.devices@.len(),
                None => first(self.devices@, has_model_id(id@)) is None,
            },
    {
        let ghost p = has_model_id(id@);
        let mut i: usize = 0;
        while i < self.devices.len()
            invariant
                i <= self.devices@.len(),
                p == has_model_id(id@),
                forall|j: int| 0 <= j < i ==> !p(#[trigger] self.devices@[j]),
            decreases self.devices@.len() - i,
        {
            if str_eq(self.devices[i].1.model_id.as_str(), id) {
                proof {
                    lemma_first_is(self.devices@, p, i as int);
                }
                return Some(i);
            }
            i += 1;
        }
        None
    }

    /// The position of the first device whose model id ends with this.
    pub fn find_by_model_id_suffix(&self, id: &str) -> (position: Option<usize>)
        ensures
            match position {
                Some(i) => first(self.devices@, has_model_suffix(id@)) == Some(i as int) && i
                    < self.devices@.len(),
                None => first(self.devices@, has_model_suffix(id@)) is None,
            },
    {
        let ghost p = has_model_suffix(id@);
        let mut i: usize = 0;
        while i < self.devices.len()
            invariant
                i <= self.devices@.len(),
                p == has_model_suffix(id@),
                forall|j: int| 0 <= j < i ==> !p(#[trigger] self.devices@[j]),
            decreases self.devices@.len() - i,
        {
            if has_suffix(self.devices[i].1.model_id.as_str(), id) {
                proof {
                    lemma_first_is(self.devices@, p, i as int);
                }
                return Some(i);
            }
            i += 1;
        }
        None
    }
}

/// The model ids that are set, each in hexadecimal behind a prefix.
fn format_ids(ids: &[u16; 3], prefix: &str) -> (texts: Vec<String>)
    ensures
        texts.deep_view() == id_texts(ids@, prefix@),
{
    let mut texts: Vec<String> = Vec::new();
    let mut i: usize = 0;
    assert(ids@.take(0) =~= Seq::empty());
    assert(texts.deep_view() =~= Seq::<Seq<char>>::empty());
    while i < 3
        invariant
            i <= 3,
            texts.deep_view() == id_texts(ids@.take(i as int), prefix@),
        decreases 3 - i,
    {
        let id: u16 = ids[i];
        let ghost upto = ids@.take(i + 1);
        let ghost before = texts.deep_view();
        assert(upto.drop_last() =~= ids@.take(i as int));
        if id != 0 {
            let mut t: String = prefix.to_owned();
            push_hex4(&mut t, id);
            texts.push(t);
            assert(texts.deep_view() =~= before.push(prefix@ + hex4(id)));
        }
        i += 1;
    }
    assert(ids@.take(3) =~= ids@);
    texts
}

/// The registry ids a model may have.
pub fn strict_candidates(model: &DeviceModelInfo) -> (candidates: Vec<String>)
    ensures
        candidates.deep_view() == strict_ids(*model),
{
    let mut prefix: String = "".to_owned();
    push_hex(&mut prefix, model.extended_model_id);
    proof {
        reveal_strlit("");
        assert(prefix@ =~= hex(model.extended_model_id));
    }
    format_ids(&model.model_ids, prefix.as_str())
}

/// What the registry id of a model may end with.
pub fn suffix_candidates(model: &DeviceModelInfo) -> (candidates: Vec<String>)
    ensures
        candidates.deep_view() == suffix_ids(*model),
{
    proof {
        reveal_strlit("");
        assert(""@ =~= Seq::<char>::empty());
    }
    format_ids(&model.model_ids, "")
}

/// Match a device's model against the registry: the name of its depot and its
/// entry. `forced` names a depot to take whatever the model is.
pub fn resolve_in_index<'a>(index: &'a Index, model: &DeviceModelInfo, forced: Option<&str>) -> (hit:
    Option<(&'a str, &'a DeviceEntry)>)
    ensures
        match hit {
            Some((depot, entry)) => matches_model(*index, *model, text(forced)) matches Some(i) && 0
                <= i < index.devices@.len() && depot@ == index.devices@[i].0@ && *entry
                == index.devices@[i].1,
            None => matches_model(*index, *model, text(forced)) is None,
        },
{
    if let Some(depot) = forced {
        if let Some(i) = index.find_depot(depot) {
            return Some((index.devices[i].0.as_str(), &index.devices[i].1));
        }
    }
    let strict: Vec<String> = strict_candidates(model);
    let ghost ids = strict_ids(*model);
    let mut k: usize = 0;
    while k < strict.len()
        invariant
            k <= strict@.len(),
            ids == strict_ids(*model),
            strict.deep_view() == ids,
            text(forced) matches Some(d) ==> first(index.devices@, in_depot(d)) is None,
            forall|j: int| 0 <= j < k ==> !known_id(*index)(#[trigger] ids[j]),
        decreases strict@.len() - k,
    {
        assert(strict@[k as int]@ == ids[k as int]);
        if let Some(i) = index.find_by_model_id(strict[k].as_str()) {
            proof {
                lemma_first_is(ids, known_id(*index), k as int);
            }
            return Some((index.devices[i].0.as_str(), &index.devices[i].1));
        }
        k += 1;
    }
    let suffix: Vec<String> = suffix_candidates(model);
    let ghost ends = suffix_ids(*model);
    let mut k: usize = 0;
    while k < suffix.len()
        invariant
            k <= suffix@.len(),
            ends == suffix_ids(*model),
            suffix.deep_view() == ends,
            text(forced) matches Some(d) ==> first(index.devices@, in_depot(d)) is None,
            first(strict_ids(*model), known_id(*index)) is None,
            forall|j: int| 0 <= j < k ==> !known_suffix(*index)(#[trigger] ends[j]),
        decreases suffix@.len() - k,
    {
        assert(suffix@[k as int]@ == ends[k as int]);
        if let Some(i) = index.find_by_model_id_suffix(suffix[k].as_str()) {
            proof {
                lemma_first_is(ends, known_suffix(*index), k as int);
            }
            return Some((index.devices[i].0.as_str(), &index.devices[i].1));
        }
        k += 1;
    }
    None
}

/// A forced depot that exists is taken whatever the model is.
pub proof fn law_a_forced_depot_wins(index: Index, a: DeviceModelInfo, b: DeviceModelInfo, i: int)
    requires
        0 <= i < index.devices@.len(),
    ensures
        matches_model(index, a, Some(index.devices@[i].0@)) == matches_model(
            index,
            b,
            Some(index.devices@[i].0@),
        ),
        matches_model(index, a, Some(index.devices@[i].0@)) matches Some(f) && 0 <= f
            < index.devices@.len() && index.devices@[f].0@ == index.devices@[i].0@,
{
    let depot = index.devices@[i].0@;
    assert(in_depot(depot)(index.devices@[i]));
    lemma_first_exists(index.devices@, in_depot(depot), i);
}

/// A forced depot that does not exist changes nothing.
pub proof fn law_an_unknown_forced_depot_is_ignored(
    index: Index,
    model: DeviceModelInfo,
    depot: Seq<char>,
)
    requires
        first(index.devices@, in_depot(depot)) is None,
    ensures
        matches_model(index, model, Some(depot)) == matches_model(index, model, None),
{
}

/// Without a forced depot, an exact match of the model's first registry id is
/// never overridden by a suffix match.
pub proof fn law_an_exact_match_beats_a_suffix(index: Index, model: DeviceModelInfo, i: int)
    requires
        strict_ids(model).len() > 0,
        0 <= i < index.devices@.len(),
        index.devices@[i].1.model_id@ == strict_ids(model)[0],
    ensures
        matches_model(index, model, None) matches Some(f) && 0 <= f <= i
            && index.devices@[f].1.model_id@ == strict_ids(model)[0],
{
    let id = strict_ids(model)[0];
    assert(has_model_id(id)(index.devices@[i]));
    lemma_first_exists(index.devices@, has_model_id(id), i);
    assert(known_id(index)(id));
    lemma_first_is(strict_ids(model), known_id(index), 0);
}

/// A model that reports no id matches nothing unless a depot is forced.
pub proof fn law_a_model_without_ids_matches_nothing(index: Index, model: DeviceModelInfo)
    requires
        forall|i: int| 0 <= i < model.model_ids@.len() ==> model.model_ids@[i] == 0,
    ensures
        matches_model(index, model, None) is None,
{
    lemma_no_ids(model.model_ids@, hex(model.extended_model_id));
    lemma_no_ids(model.model_ids@, Seq::empty());
}

proof fn lemma_no_ids(ids: Seq<u16>, prefix: Seq<char>)
    requires
        forall|i: int| 0 <= i < ids.len() ==> ids[i] == 0,
    ensures
        id_texts(ids, prefix) == Seq::<Seq<char>>::empty(),
    decreases ids.len(),
{
    if ids.len() > 0 {
        lemma_no_ids(ids.drop_last(), prefix);
    }
}

/// The registry ids of a model are made of the ids that are set, all of them, in
/// order: behind the extended id for an exact match, and alone for a suffix.
pub proof fn law_every_id_that_is_set_is_looked_up(model: DeviceModelInfo)
    ensures
        strict_ids(model) == model.model_ids@.filter(|id: u16| id != 0).map_values(
            |id: u16| hex(model.extended_model_id) + hex4(id),
        ),
        suffix_ids(model) == model.model_ids@.filter(|id: u16| id != 0).map_values(
            |id: u16| hex4(id),
        ),
{
    lemma_ids_are_those_set(model.model_ids@, hex(model.extended_model_id));
    lemma_ids_are_those_set(model.model_ids@, Seq::empty());
    assert(suffix_ids(model) =~= model.model_ids@.filter(|id: u16| id != 0).map_values(
        |id: u16| hex4(id),
    )) by {
        assert forall|id: u16| #[trigger] (Seq::<char>::empty() + hex4(id)) == hex4(id) by {
            assert(Seq::<char>::empty() + hex4(id) =~= hex4(id));
        }
    }
}

proof fn lemma_ids_are_those_set(ids: Seq<u16>, prefix: Seq<char>)
    ensures
        id_texts(ids, prefix) == ids.filter(|id: u16| id != 0).map_values(
            |id: u16| prefix + hex4(id),
        ),
    decreases ids.len(),
{
    reveal(Seq::filter);
    let set = |id: u16| id != 0;
    let written = |id: u16| prefix + hex4(id);
    if ids.len() > 0 {
        lemma_ids_are_those_set(ids.drop_last(), prefix);
        let rest = ids.drop_last().filter(set);
        assert(rest.push(ids.last()).map_values(written) =~= rest.map_values(written).push(
            written(ids.last()),
        ));
    }
    assert(id_texts(ids, prefix) =~= ids.filter(set).map_values(written));
}

/// A forced depot is the first entry of exactly that name; the model does not
/// matter then.
pub proof fn law_a_forced_depot_is_the_first_of_its_name(
    index: Index,
    model: DeviceModelInfo,
    depot: Seq<char>,
    i: int,
)
    requires
        0 <= i < index.devices@.len(),
        index.devices@[i].0@ == depot,
        forall|j: int| 0 <= j < i ==> (#[trigger] index.devices@[j]).0@ != depot,
    ensures
        matches_model(index, model, Some(depot)) == Some(i),
{
    let p = in_depot(depot);
    assert(p(index.devices@[i]));
    assert forall|j: int| 0 <= j < i implies !p(#[trigger] index.devices@[j]) by {}
    crate::search::law_the_first_match_is_found(index.devices@, p, i);
}

/// Where no entry has the name of the forced depot, the match is the one without
/// it.
pub proof fn law_a_missing_forced_depot_changes_nothing(
    index: Index,
    model: DeviceModelInfo,
    depot: Seq<char>,
)
    requires
        forall|j: int| 0 <= j < index.devices@.len() ==> (#[trigger] index.devices@[j]).0@ != depot,
    ensures
        matches_model(index, model, Some(depot)) == matches_model(index, model, None),
{
    let p = in_depot(depot);
    assert forall|j: int| 0 <= j < index.devices@.len() implies !p(#[trigger] index.devices@[j]) by {}
    crate::search::law_nothing_is_found_where_nothing_matches(index.devices@, p);
}

/// Whether no entry of the registry has any of these model ids.
pub open spec fn none_has(index: Index, ids: Seq<Seq<char>>) -> bool {
    forall|k: int, j: int|
        0 <= k < ids.len() && 0 <= j < index.devices@.len()
            ==> #[trigger] index.devices@[j].1.model_id@ != #[trigger] ids[k]
}

/// Whether no entry of the registry has a model id that ends with one of these.
pub open spec fn none_ends_with(index: Index, ids: Seq<Seq<char>>) -> bool {
    forall|k: int, j: int|
        0 <= k < ids.len() && 0 <= j < index.devices@.len() ==> !ends_with(
            #[trigger] index.devices@[j].1.model_id@,
            #[trigger] ids[k],
        )
}

/// Without a forced depot, the first registry id of the model that some entry
/// has decides, and the first entry that has it is taken.
pub proof fn law_the_first_known_id_decides(
    index: Index,
    model: DeviceModelInfo,
    k: int,
    i: int,
)
    requires
        0 <= k < strict_ids(model).len(),
        none_has(index, strict_ids(model).take(k)),
        0 <= i < index.devices@.len(),
        index.devices@[i].1.model_id@ == strict_ids(model)[k],
        forall|j: int|
            0 <= j < i ==> (#[trigger] index.devices@[j]).1.model_id@ != strict_ids(model)[k],
    ensures
        matches_model(index, model, None) == Some(i),
{
    let ids = strict_ids(model);
    let p = has_model_id(ids[k]);
    assert(p(index.devices@[i]));
    assert forall|j: int| 0 <= j < i implies !p(#[trigger] index.devices@[j]) by {}
    crate::search::law_the_first_match_is_found(index.devices@, p, i);
    let q = known_id(index);
    assert(q(ids[k]));
    assert forall|m: int| 0 <= m < k implies !q(#[trigger] ids[m]) by {
        assert(ids.take(k)[m] == ids[m]);
        let r = has_model_id(ids[m]);
        assert forall|j: int| 0 <= j < index.devices@.len() implies !r(
            #[trigger] index.devices@[j],
        ) by {
            assert(index.devices@[j].1.model_id@ != ids.take(k)[m]);
        }
        crate::search::law_nothing_is_found_where_nothing_matches(index.devices@, r);
    }
    crate::search::law_the_first_match_is_found(ids, q, k);
}

/// Without a forced depot and where no entry has one of the model's registry
/// ids, the first id that is set and that some entry's model id ends with
/// decides, and the first such entry is taken; where there is none, nothing is.
pub proof fn law_a_suffix_decides_where_no_id_is_known(
    index: Index,
    model: DeviceModelInfo,
    k: int,
    i: int,
)
    requires
        none_has(index, strict_ids(model)),
    ensures
        0 <= k < suffix_ids(model).len() && none_ends_with(index, suffix_ids(model).take(k)) && 0
            <= i < index.devices@.len() && ends_with(
            index.devices@[i].1.model_id@,
            suffix_ids(model)[k],
        ) && (forall|j: int|
            0 <= j < i ==> !ends_with(
                (#[trigger] index.devices@[j]).1.model_id@,
                suffix_ids(model)[k],
            )) ==> matches_model(index, model, None) == Some(i),
        none_ends_with(index, suffix_ids(model)) ==> matches_model(index, model, None) is None,
{
    let strict = strict_ids(model);
    let ids = suffix_ids(model);
    let q = known_id(index);
    assert forall|m: int| 0 <= m < strict.len() implies !q(#[trigger] strict[m]) by {
        let r = has_model_id(strict[m]);
        assert forall|j: int| 0 <= j < index.devices@.len() implies !r(
            #[trigger] index.devices@[j],
        ) by {
            assert(index.devices@[j].1.model_id@ != strict[m]);
        }
        crate::search::law_nothing_is_found_where_nothing_matches(index.devices@, r);
    }
    crate::search::law_nothing_is_found_where_nothing_matches(strict, q);
    let s = known_suffix(index);
    if none_ends_with(index, ids) {
        assert forall|m: int| 0 <= m < ids.len() implies !s(#[trigger] ids[m]) by {
            let r = has_model_suffix(ids[m]);
            assert forall|j: int| 0 <= j < index.devices@.len() implies !r(
                #[trigger] index.devices@[j],
            ) by {
                assert(!ends_with(index.devices@[j].1.model_id@, ids[m]));
            }
            crate::search::law_nothing_is_found_where_nothing_matches(index.devices@, r);
        }
        crate::search::law_nothing_is_found_where_nothing_matches(ids, s);
    }
    if 0 <= k < ids.len() && none_ends_with(index, ids.take(k)) && 0 <= i < index.devices@.len()
        && ends_with(index.devices@[i].1.model_id@, ids[k]) && (forall|j: int|
        0 <= j < i ==> !ends_with((#[trigger] index.devices@[j]).1.model_id@, ids[k])) {
        let p = has_model_suffix(ids[k]);
        assert(p(index.devices@[i]));
        assert forall|j: int| 0 <= j < i implies !p(#[trigger] index.devices@[j]) by {}
        crate::search::law_the_first_match_is_found(index.devices@, p, i);
        assert(s(ids[k]));
        assert forall|m: int| 0 <= m < k implies !s(#[trigger] ids[m]) by {
            assert(ids.take(k)[m] == ids[m]);
            let r = has_model_suffix(ids[m]);
            assert forall|j: int| 0 <= j < index.devices@.len() implies !r(
                #[trigger] index.devices@[j],
            ) by {
                assert(!ends_with(index.devices@[j].1.model_id@, ids.take(k)[m]));
            }
            crate::search::law_nothing_is_found_where_nothing_matches(index.devices@, r);
        }
        crate::search::law_the_first_match_is_found(ids, s, k);
    }
}

/// What is resolved is an entry of the registry under its own depot: the first of
/// a forced name, whatever the model is; else the first with the first known of
/// the model's ids.
pub proof fn law_an_entry_is_resolved_with_its_own_depot(
    index: Index,
    model: DeviceModelInfo,
    depot: &str,
    forced: Option<(&str, &DeviceEntry)>,
    free: Option<(&str, &DeviceEntry)>,
    k: int,
    i: int,
)
    requires
        call_ensures(resolve_in_index, (&index, &model, Some(depot)), forced),
        call_ensures(resolve_in_index, (&index, &model, None), free),
        0 <= i < index.devices@.len(),
    ensures
        index.devices@[i].0@ == depot@ && (forall|j: int|
            0 <= j < i ==> (#[trigger] index.devices@[j]).0@ != depot@) ==> (forced matches Some(
            hit,
        ) && hit.0@ == depot@ && *hit.1 == index.devices@[i].1),
        (forall|j: int|
            0 <= j < index.devices@.len() ==> (#[trigger] index.devices@[j]).0@ != depot@) ==> (
        forced is Some <==> free is Some) && (forced matches Some(hit) ==> hit.0@ == (free->0).0@
            && *hit.1 == *(free->0).1),
        0 <= k < strict_ids(model).len() && none_has(index, strict_ids(model).take(k))
            && index.devices@[i].1.model_id@ == strict_ids(model)[k] && (forall|j: int|
            0 <= j < i ==> (#[trigger] index.devices@[j]).1.model_id@ != strict_ids(model)[k]) ==> (
        free matches Some(hit) && hit.0@ == index.devices@[i].0@ && *hit.1
            == index.devices@[i].1),
        none_has(index, strict_ids(model)) && none_ends_with(index, suffix_ids(model)) ==> free
            is None,
{
    if index.devices@[i].0@ == depot@ && (forall|j: int|
        0 <= j < i ==> (#[trigger] index.devices@[j]).0@ != depot@) {
        law_a_forced_depot_is_the_first_of_its_name(index, model, depot@, i);
    }
    if forall|j: int|
        0 <= j < index.devices@.len() ==> (#[trigger] index.devices@[j]).0@ != depot@ {
        law_a_missing_forced_depot_changes_nothing(index, model, depot@);
    }
    if 0 <= k < strict_ids(model).len() && none_has(index, strict_ids(model).take(k))
        && index.devices@[i].1.model_id@ == strict_ids(model)[k] && (forall|j: int|
        0 <= j < i ==> (#[trigger] index.devices@[j]).1.model_id@ != strict_ids(model)[k]) {
        law_the_first_known_id_decides(index, model, k, i);
    }
    if none_has(index, strict_ids(model)) {
        law_a_suffix_decides_where_no_id_is_known(index, model, k, i);
    }
}

/// Where no entry has one of the model's ids, the first entry that ends with the
/// first such id is resolved, under its own depot.
pub proof fn law_an_entry_is_resolved_by_its_suffix(
    index: Index,
    model: DeviceModelInfo,
    hit: Option<(&str, &DeviceEntry)>,
    k: int,
    i: int,
)
    requires
        call_ensures(resolve_in_index, (&index, &model, None), hit),
        none_has(index, strict_ids(model)),
        0 <= k < suffix_ids(model).len(),
        none_ends_with(index, suffix_ids(model).take(k)),
        0 <= i < index.devices@.len(),
        ends_with(index.devices@[i].1.model_id@, suffix_ids(model)[k]),
        forall|j: int|
            0 <= j < i ==> !ends_with(
                (#[trigger] index.devices@[j]).1.model_id@,
                suffix_ids(model)[k],
            ),
    ensures
        hit matches Some(found) && found.0@ == index.devices@[i].0@ && *found.1
            == index.devices@[i].1,
{
    law_a_suffix_decides_where_no_id_is_known(index, model, k, i);
}

/// The ids that are looked up are those that are set, in hexadecimal, all of them
/// and in order.
pub proof fn law_candidates_are_the_ids_that_are_set(
    model: DeviceModelInfo,
    strict: Vec<String>,
    suffix: Vec<String>,
)
    requires
        call_ensures(strict_candidates, (&model,), strict),
        call_ensures(suffix_candidates, (&model,), suffix),
    ensures
        strict.deep_view() == model.model_ids@.filter(|id: u16| id != 0).map_values(
            |id: u16| hex(model.extended_model_id) + hex4(id),
        ),
        suffix.deep_view() == model.model_ids@.filter(|id: u16| id != 0).map_values(
            |id: u16| hex4(id),
        ),
{
    law_every_id_that_is_set_is_looked_up(model);
}

/// Each way of looking an entry up finds the first that fits, and none exactly
/// where none fits.
pub proof fn law_lookups_find_the_first_that_fits(
    index: Index,
    key: &str,
    found: (Option<usize>, Option<usize>, Option<usize>),
    i: int,
)
    requires
        call_ensures(Index::find_depot, (&index, key), found.0),
        call_ensures(Index::find_by_model_id, (&index, key), found.1),
        call_ensures(Index::find_by_model_id_suffix, (&index, key), found.2),
        0 <= i < index.devices@.len(),
    ensures
        index.devices@[i].0@ == key@ ==> (found.0 matches Some(f) && f <= i),
        index.devices@[i].1.model_id@ == key@ ==> (found.1 matches Some(f) && f <= i),
        ends_with(index.devices@[i].1.model_id@, key@) ==> (found.2 matches Some(f) && f <= i),
        found.0 matches Some(f) ==> f < index.devices@.len() && index.devices@[f as int].0@ == key@,
        found.1 matches Some(f) ==> f < index.devices@.len()
            && index.devices@[f as int].1.model_id@ == key@,
        found.2 matches Some(f) ==> f < index.devices@.len() && ends_with(
            index.devices@[f as int].1.model_id@,
            key@,
        ),
{
    let list = index.devices@;
    if list[i].0@ == key@ {
        assert(in_depot(key@)(list[i]));
        lemma_first_exists(list, in_depot(key@), i);
    }
    if list[i].1.model_id@ == key@ {
        assert(has_model_id(key@)(list[i]));
        lemma_first_exists(list, has_model_id(key@), i);
    }
    if ends_with(list[i].1.model_id@, key@) {
        assert(has_model_suffix(key@)(list[i]));
        lemma_first_exists(list, has_model_suffix(key@), i);
    }
}

} // verus!
