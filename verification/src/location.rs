//! Places a persona can be met at, read from lines of the form
//! `label::display::scene`.
use vstd::prelude::*;

use crate::keyed::Keyed;
use crate::text::{lemma_split_nonempty, split, split_spec, texts};

verus! {

/// A place: its key, the name shown for it, and the scene it sets.
#[derive(Debug, Clone)]
pub struct Location {
    pub label: String,
    pub display: String,
    pub scene: String,
}

/// A place by its three texts.
pub struct LocationView {
    pub label: Seq<char>,
    pub display: Seq<char>,
    pub scene: Seq<char>,
}

impl View for Location {
    type V = LocationView;

    open spec fn view(&self) -> LocationView {
        LocationView { label: self.label@, display: self.display@, scene: self.scene@ }
    }
}

/// The place that a line describes: the pieces of the line between `::`
/// marks are the label, the display name and the scene; a missing display
/// name or scene is the label.
pub open spec fn location_of(line: Seq<char>) -> LocationView {
    let parts = split_spec(line, seq![':', ':']);
    LocationView {
        label: parts[0],
        display: if parts.len() > 1 { parts[1] } else { parts[0] },
        scene: if parts.len() > 2 { parts[2] } else { parts[0] },
    }
}

/// The places of a table, by label.
pub open spec fn location_views(m: Map<Seq<char>, Location>) -> Map<Seq<char>, LocationView> {
    Map::new(|k: Seq<char>| m.dom().contains(k), |k: Seq<char>| m[k]@)
}

/// `base` with the place of each line added in turn, a later line replacing an
/// earlier place of the same label.
pub open spec fn explore_spec(base: Map<Seq<char>, LocationView>, lines: Seq<Seq<char>>) -> Map<
    Seq<char>,
    LocationView,
>
    decreases lines.len(),
{
    if lines.len() == 0 {
        base
    } else {
        let l = location_of(lines.last());
        explore_spec(base, lines.drop_last()).insert(l.label, l)
    }
}

impl Location {
    /// The place described by `line`.
    pub fn new(line: &str) -> (res: Location)
        ensures
            res@ == location_of(line@),
    {
        proof {
            reveal_strlit("::");
            assert("::"@ =~= seq![':', ':']);
            lemma_split_nonempty(line@, seq![':', ':'], 0);
        }
        let parts = split(line, "::");
        let label = parts[0].clone();
        let display = if parts.len() > 1 { parts[1].clone() } else { parts[0].clone() };
        let scene = if parts.len() > 2 { parts[2].clone() } else { parts[0].clone() };
        proof {
            assert(texts(parts@)[0] == parts@[0]@);
            if parts.len() > 1 { assert(texts(parts@)[1] == parts@[1]@); }
            if parts.len() > 2 { assert(texts(parts@)[2] == parts@[2]@); }
        }
        Location { label, display, scene }
    }

    /// A copy of this place.
    pub fn duplicate(&self) -> (res: Location)
        ensures
            res@ == self@,
    {
        Location { label: self.label.clone(), display: self.display.clone(), scene: self.scene.clone() }
    }

    /// The standard places: those of `list`.
    pub fn defaults(list: &[String]) -> (res: Keyed<Location>)
        ensures
            res.wf(),
            location_views(res.view_map()) == explore_spec(Map::empty(), texts(list@)),
    {
        Self::explore(None, list)
    }

    /// The places of `existing` (none where it is `None`) with the place of
    /// each line of `lines` added in turn.
    pub fn explore(existing: Option<&Keyed<Location>>, lines: &[String]) -> (res: Keyed<Location>)
        requires
            existing matches Some(e) ==> e.wf(),
        ensures
            res.wf(),
            location_views(res.view_map()) == explore_spec(
                match existing {
                    Some(e) => location_views(e.view_map()),
                    None => Map::empty(),
                },
                texts(lines@),
            ),
    {
        let mut locations: Keyed<Location> = match existing {
            Some(e) => copy_locations(e),
            None => Keyed::new(),
        };
        let ghost base = location_views(locations.view_map());
        assert(base =~= match existing {
            Some(e) => location_views(e.view_map()),
            None => Map::empty(),
        });
        let mut i: usize = 0;
        while i < lines.len()
            invariant
                i <= lines@.len(),
                locations.wf(),
                location_views(locations.view_map()) == explore_spec(base, texts(lines@).take(i as int)),
            decreases lines@.len() - i,
        {
            let location = Self::new(lines[i].as_str());
            let label = location.label.clone();
            let ghost pre = locations.view_map();
            let ghost lv = location@;
            locations.insert(label, location);
            proof {
                assert(texts(lines@).take(i + 1).drop_last() =~= texts(lines@).take(i as int));
                assert(texts(lines@).take(i + 1).last() == lines@[i as int]@);
                assert(location_views(locations.view_map()) =~= location_views(pre).insert(lv.label, lv));
            }
            i = i + 1;
        }
        assert(texts(lines@).take(lines@.len() as int) =~= texts(lines@));
        locations
    }
}

/// A copy of a table of places.
pub fn copy_locations(e: &Keyed<Location>) -> (res: Keyed<Location>)
    requires
        e.wf(),
    ensures
        res.wf(),
        res.keys() == e.keys(),
        location_views(res.view_map()) == location_views(e.view_map()),
{
    let mut entries: Vec<(String, Location)> = Vec::new();
    let mut i: usize = 0;
    while i < e.entries.len()
        invariant
            e.wf(),
            i <= e.entries@.len(),
            entries@.len() == i,
            forall|k: int| 0 <= k < i ==> #[trigger] entries@[k].0@ == e.entries@[k].0@ && entries@[k].1@ == e.entries@[k].1@,
        decreases e.entries@.len() - i,
    {
        let key = e.entries[i].0.clone();
        let loc = e.entries[i].1.duplicate();
        entries.push((key, loc));
        i = i + 1;
    }
    let res = Keyed { entries };
    proof {
        assert(res.wf()) by {
            assert forall|a: int, b: int| 0 <= a < b < res.entries@.len() implies #[trigger] res.entries@[a].0@
                != #[trigger] res.entries@[b].0@ by {
                assert(e.entries@[a].0@ != e.entries@[b].0@);
            }
        }
        assert(res.keys() =~= e.keys());
        assert forall|q: Seq<char>| #[trigger] res.has(q) == e.has(q) by {
            if res.has(q) {
                let m = choose|m: int| 0 <= m < res.entries@.len() && #[trigger] res.entries@[m].0@ == q;
                assert(e.entries@[m].0@ == q);
            }
            if e.has(q) {
                let m = choose|m: int| 0 <= m < e.entries@.len() && #[trigger] e.entries@[m].0@ == q;
                assert(res.entries@[m].0@ == q);
            }
        }
        assert forall|q: Seq<char>| #[trigger] res.has(q) implies res.at(q)@ == e.at(q)@ by {
            let m = res.index_of(q);
            res.lemma_index_of(m);
            e.lemma_index_of(m);
        }
        assert(location_views(res.view_map()) =~= location_views(e.view_map()));
    }
    res
}

} // verus!
