use vstd::prelude::*;
use crate::text::{count_dots, is_label_suffix, str_equals};

verus! {

/// A DNS zone of the account.
#[derive(Debug)]
pub struct Zone {
    pub id: String,
    pub name: String,
}

pub struct ZoneView {
    pub id: Seq<char>,
    pub name: Seq<char>,
}

impl View for Zone {
    type V = ZoneView;

    open spec fn view(&self) -> ZoneView {
        ZoneView { id: self.id@, name: self.name@ }
    }
}

impl Clone for Zone {
    fn clone(&self) -> (z: Zone)
        ensures
            z@ == self@,
    {
        Zone { id: self.id.clone(), name: self.name.clone() }
    }
}

pub open spec fn zone_views(zones: Seq<Zone>) -> Seq<ZoneView> {
    zones.map_values(|z: Zone| z@)
}

/// The first zone in `zones` that is named `name`.
pub open spec fn first_zone_named(zones: Seq<ZoneView>, name: Seq<char>) -> Option<ZoneView>
    decreases zones.len(),
{
    if zones.len() == 0 {
        None
    } else if zones[0].name == name {
        Some(zones[0])
    } else {
        first_zone_named(zones.skip(1), name)
    }
}

/// `i` is the index of the first dot of `s`.
pub open spec fn is_first_dot(s: Seq<char>, i: int) -> bool {
    0 <= i < s.len() && s[i] == '.' && forall|j: int| 0 <= j < i ==> s[j] != '.'
}

/// The zone that a record belongs to: the first zone named like the record,
/// else the zone of the name with its first label dropped, and so on; `None`
/// when no label suffix of the name is the name of a zone.
pub open spec fn most_specific_zone(zones: Seq<ZoneView>, name: Seq<char>) -> Option<ZoneView>
    decreases name.len(),
{
    match first_zone_named(zones, name) {
        Some(z) => Some(z),
        None => if exists|i: int| is_first_dot(name, i) {
            let i = choose|i: int| is_first_dot(name, i);
            most_specific_zone(zones, name.skip(i + 1))
        } else {
            None
        },
    }
}

/// Index of the first zone named `name`, if any.
fn find_zone_named(zones: &[Zone], name: &str) -> (r: Option<usize>)
    ensures
        match r {
            Some(k) => k < zones@.len() && first_zone_named(zone_views(zones@), name@) == Some(
                zones@[k as int]@,
            ),
            None => first_zone_named(zone_views(zones@), name@) is None,
        },
{
    let ghost all = zone_views(zones@);
    let mut k: usize = 0;
    proof {
        assert(all.skip(0) =~= all);
    }
    while k < zones.len()
        invariant
            k <= zones@.len(),
            all == zone_views(zones@),
            all.len() == zones@.len(),
            first_zone_named(all, name@) == first_zone_named(all.skip(k as int), name@),
        decreases zones@.len() - k,
    {
        proof {
            assert(all.skip(k as int)[0] == zones@[k as int]@);
            assert(all.skip(k as int).skip(1) =~= all.skip(k + 1));
        }
        if str_equals(zones[k].name.as_str(), name) {
            return Some(k);
        }
        k = k + 1;
    }
    proof {
        assert(all.skip(k as int) =~= Seq::<ZoneView>::empty());
    }
    None
}

/// Index of the first dot of `s`, if any.
fn find_first_dot(s: &str) -> (r: Option<usize>)
    ensures
        match r {
            Some(i) => is_first_dot(s@, i as int),
            None => forall|j: int| 0 <= j < s@.len() ==> s@[j] != '.',
        },
{
    let n = s.unicode_len();
    let mut i: usize = 0;
    while i < n
        invariant
            n == s@.len(),
            i <= n,
            forall|j: int| 0 <= j < i ==> s@[j] != '.',
        decreases n - i,
    {
        if s.get_char(i) == '.' {
            return Some(i);
        }
        i = i + 1;
    }
    None
}

/// The zone that `record_name` belongs to among `zones` (see
/// `most_specific_zone`).
pub fn get_most_specific_zone(zones: &[Zone], record_name: &str) -> (r: Option<Zone>)
    ensures
        match r {
            Some(z) => most_specific_zone(zone_views(zones@), record_name@) == Some(z@),
            None => most_specific_zone(zone_views(zones@), record_name@) is None,
        },
{
    let ghost all = zone_views(zones@);
    let mut name: &str = record_name;
    loop
        invariant
            all == zone_views(zones@),
            most_specific_zone(all, record_name@) == most_specific_zone(all, name@),
        decreases name@.len(),
    {
        match find_zone_named(zones, name) {
            Some(k) => {
                return Some(zones[k].clone());
            },
            None => {},
        }
        match find_first_dot(name) {
            Some(i) => {
                let n = name.unicode_len();
                let rest = name.substring_char(i + 1, n);
                proof {
                    let c = choose|j: int| is_first_dot(name@, j);
                    assert(is_first_dot(name@, c));
                    assert(c == i);
                    assert(rest@ =~= name@.skip(i + 1));
                }
                name = rest;
            },
            None => {
                return None;
            },
        }
    }
}

proof fn lemma_first_zone_named(zones: Seq<ZoneView>, name: Seq<char>)
    ensures
        match first_zone_named(zones, name) {
            Some(z) => exists|k: int| 0 <= k < zones.len() && zones[k] == z && z.name == name,
            None => forall|k: int| 0 <= k < zones.len() ==> zones[k].name != name,
        },
    decreases zones.len(),
{
    if zones.len() > 0 && zones[0].name != name {
        lemma_first_zone_named(zones.skip(1), name);
        match first_zone_named(zones, name) {
            Some(z) => {
                let k = choose|k: int|
                    0 <= k < zones.skip(1).len() && zones.skip(1)[k] == z && z.name == name;
                assert(zones[k + 1] == z);
            },
            None => {
                assert forall|k: int| 0 <= k < zones.len() implies zones[k].name != name by {
                    if k > 0 {
                        assert(zones[k] == zones.skip(1)[k - 1]);
                    }
                }
            },
        }
    }
}

/// Past the first label, the label suffixes of a name are those of the rest.
proof fn lemma_label_suffix_step(t: Seq<char>, name: Seq<char>, i: int)
    requires
        is_first_dot(name, i),
    ensures
        is_label_suffix(t, name) <==> (t == name || is_label_suffix(t, name.skip(i + 1))),
{
    let rest = name.skip(i + 1);
    if is_label_suffix(t, name) && t != name {
        if t.len() == name.len() {
            assert(t =~= name.skip(0));
            assert(name.skip(0) =~= name);
        }
        let d = name.len() - t.len() - 1;
        assert(name[d] == '.');
        assert(i <= d);
        assert(rest.skip(rest.len() - t.len()) =~= name.skip(name.len() - t.len()));
        if t.len() < rest.len() {
            assert(rest[rest.len() - t.len() - 1] == name[d]);
        }
    }
    if is_label_suffix(t, rest) {
        assert(rest.skip(rest.len() - t.len()) =~= name.skip(name.len() - t.len()));
        if t.len() < rest.len() {
            assert(rest[rest.len() - t.len() - 1] == name[name.len() - t.len() - 1]);
        }
    }
    if t == name {
        assert(name.skip(0) =~= name);
    }
}

/// A name without dots has no label suffix but itself.
proof fn lemma_label_suffix_no_dot(t: Seq<char>, name: Seq<char>)
    requires
        forall|j: int| 0 <= j < name.len() ==> name[j] != '.',
    ensures
        is_label_suffix(t, name) <==> t == name,
{
    if is_label_suffix(t, name) && t.len() == name.len() {
        assert(t =~= name.skip(0));
        assert(name.skip(0) =~= name);
    }
    if t == name {
        assert(name.skip(0) =~= name);
    }
}

/// Where a name has a dot, it has a first one.
proof fn lemma_first_dot_exists(s: Seq<char>, j: int)
    requires
        0 <= j < s.len(),
        s[j] == '.',
    ensures
        exists|i: int| is_first_dot(s, i),
    decreases j,
{
    if exists|g: int| 0 <= g < j && s[g] == '.' {
        let g = choose|g: int| 0 <= g < j && s[g] == '.';
        lemma_first_dot_exists(s, g);
    } else {
        assert(is_first_dot(s, j));
    }
}

/// The statement of `lemma_most_specific_zone`.
pub open spec fn chooses_most_specific(zones: Seq<ZoneView>, name: Seq<char>, r: Option<ZoneView>) -> bool {
    &&& r is None <==> (forall|k: int|
        0 <= k < zones.len() ==> !is_label_suffix(#[trigger] zones[k].name, name))
    &&& r matches Some(z) ==> {
        &&& exists|k: int| 0 <= k < zones.len() && zones[k] == z
        &&& is_label_suffix(z.name, name)
        &&& forall|k: int|
            0 <= k < zones.len() && is_label_suffix(#[trigger] zones[k].name, name)
                ==> zones[k].name.len() <= z.name.len()
    }
}

proof fn lemma_most_specific_zone_named(zones: Seq<ZoneView>, name: Seq<char>)
    requires
        first_zone_named(zones, name) is Some,
    ensures
        chooses_most_specific(zones, name, most_specific_zone(zones, name)),
{
    lemma_first_zone_named(zones, name);
    let z = first_zone_named(zones, name)->Some_0;
    assert(name.skip(0) =~= name);
    assert(is_label_suffix(z.name, name));
}

proof fn lemma_most_specific_zone_undotted(zones: Seq<ZoneView>, name: Seq<char>)
    requires
        first_zone_named(zones, name) is None,
        !exists|i: int| is_first_dot(name, i),
    ensures
        chooses_most_specific(zones, name, most_specific_zone(zones, name)),
{
    lemma_first_zone_named(zones, name);
    assert forall|j: int| 0 <= j < name.len() implies name[j] != '.' by {
        if name[j] == '.' {
            lemma_first_dot_exists(name, j);
        }
    }
    assert forall|k: int| 0 <= k < zones.len() implies !is_label_suffix(
        #[trigger] zones[k].name,
        name,
    ) by {
        lemma_label_suffix_no_dot(zones[k].name, name);
    }
}

proof fn lemma_most_specific_zone_dotted(zones: Seq<ZoneView>, name: Seq<char>, i: int)
    requires
        first_zone_named(zones, name) is None,
        is_first_dot(name, i),
        chooses_most_specific(zones, name.skip(i + 1), most_specific_zone(zones, name.skip(i + 1))),
    ensures
        chooses_most_specific(zones, name, most_specific_zone(zones, name.skip(i + 1))),
{
    lemma_first_zone_named(zones, name);
    let rest = name.skip(i + 1);
    assert forall|k: int| 0 <= k < zones.len() implies is_label_suffix(
        #[trigger] zones[k].name,
        name,
    ) == is_label_suffix(zones[k].name, rest) by {
        lemma_label_suffix_step(zones[k].name, name, i);
    }
}

/// The zone chosen for a record is the most specific one: it is one of the
/// zones, its name is the record name with zero or more leading labels
/// dropped, and no zone whose name is such a suffix is longer. No zone is
/// chosen exactly when no zone name is a label suffix of the record name.
pub proof fn lemma_most_specific_zone(zones: Seq<ZoneView>, name: Seq<char>)
    ensures
        chooses_most_specific(zones, name, most_specific_zone(zones, name)),
    decreases name.len(),
{
    if first_zone_named(zones, name) is Some {
        lemma_most_specific_zone_named(zones, name);
    } else if exists|i: int| is_first_dot(name, i) {
        let i = choose|i: int| is_first_dot(name, i);
        lemma_most_specific_zone(zones, name.skip(i + 1));
        lemma_most_specific_zone_dotted(zones, name, i);
    } else {
        lemma_most_specific_zone_undotted(zones, name);
    }
}

/// The names that the zone search looks up, in order: the record name, then
/// the name with its first label dropped, and so on while a dot is left.
pub open spec fn zone_search_names(name: Seq<char>) -> Seq<Seq<char>>
    decreases name.len(),
{
    if exists|i: int| is_first_dot(name, i) {
        let i = choose|i: int| is_first_dot(name, i);
        seq![name] + zone_search_names(name.skip(i + 1))
    } else {
        seq![name]
    }
}

/// The first zone named like one of `names`, trying the names in order.
pub open spec fn first_zone_among(zones: Seq<ZoneView>, names: Seq<Seq<char>>) -> Option<ZoneView>
    decreases names.len(),
{
    if names.len() == 0 {
        None
    } else {
        match first_zone_named(zones, names[0]) {
            Some(z) => Some(z),
            None => first_zone_among(zones, names.skip(1)),
        }
    }
}

/// Dots from `j` on: the one at the first dot `i`, and those after it.
proof fn lemma_count_dots_to_first(s: Seq<char>, j: int, i: int)
    requires
        0 <= j <= i < s.len(),
        s[i] == '.',
        forall|k: int| j <= k < i ==> s[k] != '.',
    ensures
        count_dots(s.skip(j)) == 1 + count_dots(s.skip(i + 1)),
    decreases i - j,
{
    assert(s.skip(j)[0] == s[j]);
    assert(s.skip(j).skip(1) =~= s.skip(j + 1));
    if j < i {
        lemma_count_dots_to_first(s, j + 1, i);
    }
}

/// A text without dots from `j` on counts none there.
proof fn lemma_count_dots_none(s: Seq<char>, j: int)
    requires
        0 <= j <= s.len(),
        forall|k: int| j <= k < s.len() ==> s[k] != '.',
    ensures
        count_dots(s.skip(j)) == 0,
    decreases s.len() - j,
{
    if j < s.len() {
        assert(s.skip(j)[0] == s[j]);
        assert(s.skip(j).skip(1) =~= s.skip(j + 1));
        lemma_count_dots_none(s, j + 1);
    }
}

/// The zone search is bounded: it looks up one name more than the record
/// name has dots, the first being the record name and each later one a
/// strictly shorter label suffix of it; the zone chosen is the first zone
/// named like the first of these names that names any zone.
pub proof fn lemma_zone_search_names(zones: Seq<ZoneView>, name: Seq<char>)
    ensures
        zone_search_names(name).len() == count_dots(name) + 1,
        zone_search_names(name)[0] == name,
        forall|k: int|
            0 <= k < zone_search_names(name).len() ==> is_label_suffix(
                #[trigger] zone_search_names(name)[k],
                name,
            ),
        forall|k: int|
            0 < k < zone_search_names(name).len() ==> (#[trigger] zone_search_names(name)[k]).len()
                < zone_search_names(name)[k - 1].len(),
        most_specific_zone(zones, name) == first_zone_among(zones, zone_search_names(name)),
    decreases name.len(),
{
    let names = zone_search_names(name);
    assert(name.skip(0) =~= name);
    if exists|i: int| is_first_dot(name, i) {
        let i = choose|i: int| is_first_dot(name, i);
        let rest = name.skip(i + 1);
        lemma_zone_search_names(zones, rest);
        let tail = zone_search_names(rest);
        assert(names == seq![name] + tail);
        assert(names.skip(1) =~= tail);
        assert(names[0] == name);
        assert(first_zone_among(zones, names) == match first_zone_named(zones, name) {
            Some(z) => Some(z),
            None => first_zone_among(zones, tail),
        });
        lemma_count_dots_to_first(name, 0, i);
        assert forall|k: int| 0 <= k < names.len() implies is_label_suffix(
            #[trigger] names[k],
            name,
        ) by {
            lemma_label_suffix_step(names[k], name, i);
            if k > 0 {
                assert(names[k] == tail[k - 1]);
            }
        }
        assert forall|k: int| 0 < k < names.len() implies (#[trigger] names[k]).len()
            < names[k - 1].len() by {
            assert(names[k] == tail[k - 1]);
            if k > 1 {
                assert(names[k - 1] == tail[k - 2]);
            } else {
                assert(tail[0] == rest);
            }
        }
    } else {
        assert forall|j: int| 0 <= j < name.len() implies name[j] != '.' by {
            if name[j] == '.' {
                lemma_first_dot_exists(name, j);
            }
        }
        lemma_count_dots_none(name, 0);
        assert(names.skip(1) =~= Seq::<Seq<char>>::empty());
        assert(first_zone_among(zones, Seq::<Seq<char>>::empty()) is None);
        assert(first_zone_among(zones, names) == match first_zone_named(zones, name) {
            Some(z) => Some(z),
            None => first_zone_among(zones, names.skip(1)),
        });
    }
}

} // verus!
