//! Personas: the built-in ones, and those read from bundles (zstd-compressed
//! tar archives of a persona's files).
use vstd::prelude::*;
use vstd::utf8::{decode_utf8, valid_utf8};

use crate::defaults::{
    COMMONER_DISMISSAL, COMMONER_EMOJI, COMMONER_FULL_IMAGE, COMMONER_GREETING, COMMONER_TEXT_IMAGE, DEFAULT_PERSONA,
    GROMRIK_DISMISSAL, GROMRIK_EMOJI, GROMRIK_GREETING, LYRANIS_DISMISSAL, LYRANIS_EMOJI, LYRANIS_GREETING,
    PERSONA_LIST,
};
use crate::keyed::{insert_all, Keyed};
use crate::location::{copy_locations, explore_spec, location_views, Location, LocationView};
use crate::text::{
    all_ascii, ascii_lower, lemma_split_nonempty, lowercase_of, split, split_spec, text_eq, texts, to_lowercase,
    trim, trim_spec,
};

verus! {

/// A persona: who the model plays, how it greets and dismisses, where it is
/// met, and how it is drawn.
#[derive(Clone)]
pub struct Persona {
    pub label: String,
    pub name: String,
    pub prompt: String,
    pub scene: String,
    pub location: String,
    pub locations: Keyed<Location>,
    pub greeting: String,
    pub dismissal: String,
    pub emoji: String,
    pub text_image: String,
    pub full_image: Vec<u8>,
}

/// A persona by its texts.
pub struct PersonaView {
    pub label: Seq<char>,
    pub name: Seq<char>,
    pub prompt: Seq<char>,
    pub scene: Seq<char>,
    pub location: Seq<char>,
    pub locations: Map<Seq<char>, LocationView>,
    pub greeting: Seq<char>,
    pub dismissal: Seq<char>,
    pub emoji: Seq<char>,
    pub text_image: Seq<char>,
    pub full_image: Seq<u8>,
}

impl View for Persona {
    type V = PersonaView;

    open spec fn view(&self) -> PersonaView {
        PersonaView {
            label: self.label@,
            name: self.name@,
            prompt: self.prompt@,
            scene: self.scene@,
            location: self.location@,
            locations: location_views(self.locations.view_map()),
            greeting: self.greeting@,
            dismissal: self.dismissal@,
            emoji: self.emoji@,
            text_image: self.text_image@,
            full_image: self.full_image@,
        }
    }
}

/// What a built-in persona takes from the program's resources.
pub struct PersonaAssets {
    pub prompt: String,
    pub scene: String,
    pub location: String,
    /// Lines `label::display::scene` of the places where the persona is met.
    pub locations: Vec<String>,
    pub text_image: String,
    pub full_image: Vec<u8>,
}

/// The program's resources for the built-in personas.
pub struct Assets {
    /// Lines of the places every persona knows.
    pub location_list: Vec<String>,
    pub gromrik: PersonaAssets,
    pub lyranis: PersonaAssets,
    pub commoner_prompt: String,
    pub commoner_location: String,
}

/// The built-in personas.
#[derive(Debug, Clone, Copy, PartialEq, Eq, Structural)]
pub enum PersonaKind {
    Gromrik,
    Lyranis,
    Commoner,
}

/// The built-in persona that a lower-cased label names.
pub open spec fn kind_named(l: Seq<char>) -> Option<PersonaKind> {
    if l == seq!['g', 'r', 'o', 'm', 'r', 'i', 'k'] {
        Some(PersonaKind::Gromrik)
    } else if l == seq!['l', 'y', 'r', 'a', 'n', 'i', 's'] {
        Some(PersonaKind::Lyranis)
    } else if l == seq!['c', 'o', 'm', 'm', 'o', 'n', 'e', 'r'] {
        Some(PersonaKind::Commoner)
    } else {
        None
    }
}

/// The built-in persona that a label selects, whatever its case; the
/// default persona (Gromrik) for any other label.
pub open spec fn persona_kind(label: Seq<char>) -> PersonaKind {
    match kind_named(lowercase_of(label)) {
        Some(k) => k,
        None => PersonaKind::Gromrik,
    }
}

/// The places of the resources, by their texts.
pub open spec fn default_places(a: &Assets) -> Map<Seq<char>, LocationView> {
    explore_spec(Map::empty(), texts(a.location_list@))
}

/// A built-in persona made from the resources.
pub open spec fn builtin_spec(kind: PersonaKind, a: &Assets) -> PersonaView {
    match kind {
        PersonaKind::Gromrik => PersonaView {
            label: seq!['g', 'r', 'o', 'm', 'r', 'i', 'k'],
            name: seq!['G', 'r', 'o', 'm', 'r', 'i', 'k'],
            prompt: a.gromrik.prompt@,
            scene: a.gromrik.scene@,
            location: a.gromrik.location@,
            locations: explore_spec(default_places(a), texts(a.gromrik.locations@)),
            greeting: GROMRIK_GREETING@,
            dismissal: GROMRIK_DISMISSAL@,
            emoji: GROMRIK_EMOJI@,
            text_image: a.gromrik.text_image@,
            full_image: a.gromrik.full_image@,
        },
        PersonaKind::Lyranis => PersonaView {
            label: seq!['l', 'y', 'r', 'a', 'n', 'i', 's'],
            name: seq!['L', 'y', 'r', 'a', 'n', 'i', 's'],
            prompt: a.lyranis.prompt@,
            scene: a.lyranis.scene@,
            location: a.lyranis.location@,
            locations: explore_spec(default_places(a), texts(a.lyranis.locations@)),
            greeting: LYRANIS_GREETING@,
            dismissal: LYRANIS_DISMISSAL@,
            emoji: LYRANIS_EMOJI@,
            text_image: a.lyranis.text_image@,
            full_image: a.lyranis.full_image@,
        },
        PersonaKind::Commoner => PersonaView {
            label: seq!['c', 'o', 'm', 'm', 'o', 'n', 'e', 'r'],
            name: seq!['C', 'o', 'm', 'm', 'o', 'n', 'e', 'r'],
            prompt: a.commoner_prompt@,
            scene: Seq::empty(),
            location: a.commoner_location@,
            locations: default_places(a),
            greeting: COMMONER_GREETING@,
            dismissal: COMMONER_DISMISSAL@,
            emoji: COMMONER_EMOJI@,
            text_image: COMMONER_TEXT_IMAGE@,
            full_image: COMMONER_FULL_IMAGE@,
        },
    }
}

/// The labels of the built-in personas, as listed.
pub open spec fn builtin_labels() -> Seq<Seq<char>> {
    split_spec(PERSONA_LIST@, seq![',']).map_values(|l: Seq<char>| trim_spec(l))
}

/// Labels with the persona each selects.
pub open spec fn builtin_pairs(labels: Seq<Seq<char>>, a: &Assets) -> Seq<(Seq<char>, PersonaView)> {
    labels.map_values(|l: Seq<char>| (l, builtin_spec(persona_kind(l), a)))
}

/// Personas by their texts.
pub open spec fn persona_views(m: Map<Seq<char>, Persona>) -> Map<Seq<char>, PersonaView> {
    Map::new(|k: Seq<char>| m.dom().contains(k), |k: Seq<char>| m[k]@)
}

/// The label of each loaded persona with its view.
pub open spec fn loaded_pairs(v: Seq<(String, Persona)>) -> Seq<(Seq<char>, PersonaView)> {
    v.map_values(|p: (String, Persona)| (p.0@, p.1@))
}

/// The text of `l` where it is one of the names, by its characters.
proof fn lemma_kind_names()
    ensures
        seq!['g', 'r', 'o', 'm', 'r', 'i', 'k'] != seq!['l', 'y', 'r', 'a', 'n', 'i', 's'],
        seq!['g', 'r', 'o', 'm', 'r', 'i', 'k'] != seq!['c', 'o', 'm', 'm', 'o', 'n', 'e', 'r'],
        seq!['l', 'y', 'r', 'a', 'n', 'i', 's'] != seq!['c', 'o', 'm', 'm', 'o', 'n', 'e', 'r'],
{
    assert(seq!['g', 'r', 'o', 'm', 'r', 'i', 'k'][0] != seq!['l', 'y', 'r', 'a', 'n', 'i', 's'][0]);
    assert(seq!['g', 'r', 'o', 'm', 'r', 'i', 'k'].len() != seq!['c', 'o', 'm', 'm', 'o', 'n', 'e', 'r'].len());
    assert(seq!['l', 'y', 'r', 'a', 'n', 'i', 's'].len() != seq!['c', 'o', 'm', 'm', 'o', 'n', 'e', 'r'].len());
}

/// A built-in persona is made from its own resources: the label that names
/// Lyranis (in any case) gives Lyranis's prompt, scene, place and images; the
/// label that names the commoner gives the commoner's prompt and place; and
/// the label that names Gromrik, or names no built-in persona, gives
/// Gromrik's.
pub proof fn law_persona_takes_its_own_resources(label: Seq<char>, a: &Assets)
    ensures
        lowercase_of(label) == seq!['l', 'y', 'r', 'a', 'n', 'i', 's'] ==> {
            let p = builtin_spec(persona_kind(label), a);
            &&& p.label == seq!['l', 'y', 'r', 'a', 'n', 'i', 's']
            &&& p.prompt == a.lyranis.prompt@
            &&& p.scene == a.lyranis.scene@
            &&& p.location == a.lyranis.location@
            &&& p.text_image == a.lyranis.text_image@
            &&& p.full_image == a.lyranis.full_image@
        },
        (lowercase_of(label) == seq!['g', 'r', 'o', 'm', 'r', 'i', 'k'] || kind_named(lowercase_of(label)) is None)
            ==> {
            let p = builtin_spec(persona_kind(label), a);
            &&& p.label == seq!['g', 'r', 'o', 'm', 'r', 'i', 'k']
            &&& p.prompt == a.gromrik.prompt@
            &&& p.scene == a.gromrik.scene@
            &&& p.location == a.gromrik.location@
            &&& p.text_image == a.gromrik.text_image@
            &&& p.full_image == a.gromrik.full_image@
        },
        lowercase_of(label) == seq!['c', 'o', 'm', 'm', 'o', 'n', 'e', 'r'] ==> {
            let p = builtin_spec(persona_kind(label), a);
            &&& p.label == seq!['c', 'o', 'm', 'm', 'o', 'n', 'e', 'r']
            &&& p.prompt == a.commoner_prompt@
            &&& p.location == a.commoner_location@
        },
{
    lemma_kind_names();
}

/// Lyranis does not depend on Gromrik's resources, nor Gromrik on
/// Lyranis's: two sets of resources that agree on the shared places and on
/// one persona's own resources give that persona alike.
pub proof fn law_persona_ignores_the_others(kind: PersonaKind, a: &Assets, b: &Assets)
    requires
        a.location_list@ == b.location_list@,
        kind == PersonaKind::Lyranis ==> {
            &&& a.lyranis.prompt@ == b.lyranis.prompt@
            &&& a.lyranis.scene@ == b.lyranis.scene@
            &&& a.lyranis.location@ == b.lyranis.location@
            &&& a.lyranis.locations@ == b.lyranis.locations@
            &&& a.lyranis.text_image@ == b.lyranis.text_image@
            &&& a.lyranis.full_image@ == b.lyranis.full_image@
        },
        kind == PersonaKind::Gromrik ==> {
            &&& a.gromrik.prompt@ == b.gromrik.prompt@
            &&& a.gromrik.scene@ == b.gromrik.scene@
            &&& a.gromrik.location@ == b.gromrik.location@
            &&& a.gromrik.locations@ == b.gromrik.locations@
            &&& a.gromrik.text_image@ == b.gromrik.text_image@
            &&& a.gromrik.full_image@ == b.gromrik.full_image@
        },
        kind == PersonaKind::Commoner ==> a.commoner_prompt@ == b.commoner_prompt@ && a.commoner_location@
            == b.commoner_location@,
    ensures
        builtin_spec(kind, a) == builtin_spec(kind, b),
{
}

/// The built-in persona that a label selects.
pub fn kind_of(label: &str) -> (res: PersonaKind)
    ensures
        res == persona_kind(label@),
{
    let l = to_lowercase(label);
    proof {
        reveal_strlit("gromrik");
        reveal_strlit("lyranis");
        reveal_strlit("commoner");
        assert("gromrik"@ =~= seq!['g', 'r', 'o', 'm', 'r', 'i', 'k']);
        assert("lyranis"@ =~= seq!['l', 'y', 'r', 'a', 'n', 'i', 's']);
        assert("commoner"@ =~= seq!['c', 'o', 'm', 'm', 'o', 'n', 'e', 'r']);
        lemma_kind_names();
    }
    if text_eq(l.as_str(), "gromrik") {
        PersonaKind::Gromrik
    } else if text_eq(l.as_str(), "lyranis") {
        PersonaKind::Lyranis
    } else if text_eq(l.as_str(), "commoner") {
        PersonaKind::Commoner
    } else {
        PersonaKind::Gromrik
    }
}

/// Whether a persona's name is the commoner's, whose name and story the
/// model is asked to make up.
pub fn is_commoner(name: &str) -> (res: bool)
    ensures
        res == (name@ == seq!['C', 'o', 'm', 'm', 'o', 'n', 'e', 'r']),
{
    proof {
        reveal_strlit("Commoner");
        assert("Commoner"@ =~= seq!['C', 'o', 'm', 'm', 'o', 'n', 'e', 'r']);
    }
    text_eq(name, "Commoner")
}

/// A copy of a list of bytes.
fn copy_bytes(v: &Vec<u8>) -> (res: Vec<u8>)
    ensures
        res@ == v@,
{
    let mut r: Vec<u8> = Vec::new();
    let mut i: usize = 0;
    while i < v.len()
        invariant
            i <= v@.len(),
            r@ == v@.take(i as int),
        decreases v@.len() - i,
    {
        r.push(v[i]);
        assert(v@.take(i + 1) =~= v@.take(i as int).push(v@[i as int]));
        i = i + 1;
    }
    assert(v@.take(v@.len() as int) =~= v@);
    r
}

impl Persona {
    /// The built-in persona that `label` selects, whatever its case (the
    /// default persona for any other label).
    pub fn new(label: &str, assets: &Assets) -> (res: Persona)
        ensures
            res.locations.wf(),
            res@ == builtin_spec(persona_kind(label@), assets),
    {
        match kind_of(label) {
            PersonaKind::Gromrik => Self::gromrik(assets),
            PersonaKind::Lyranis => Self::lyranis(assets),
            PersonaKind::Commoner => Self::commoner(assets),
        }
    }

    /// The commoner, whose name and story the model makes up.
    pub fn commoner(assets: &Assets) -> (res: Persona)
        ensures
            res.locations.wf(),
            res@ == builtin_spec(PersonaKind::Commoner, assets),
            res.prompt@ == assets.commoner_prompt@,
            res.location@ == assets.commoner_location@,
    {
        let locations = Location::defaults(assets.location_list.as_slice());
        let mut image: Vec<u8> = Vec::new();
        let mut i: usize = 0;
        while i < 67
            invariant
                i <= 67,
                image@ == COMMONER_FULL_IMAGE@.take(i as int),
            decreases 67 - i,
        {
            image.push(COMMONER_FULL_IMAGE[i]);
            assert(COMMONER_FULL_IMAGE@.take(i + 1) =~= COMMONER_FULL_IMAGE@.take(i as int).push(COMMONER_FULL_IMAGE@[i as int]));
            i = i + 1;
        }
        assert(COMMONER_FULL_IMAGE@.take(67) =~= COMMONER_FULL_IMAGE@);
        let res = Persona {
            label: String::from_str("commoner"),
            name: String::from_str("Commoner"),
            prompt: assets.commoner_prompt.clone(),
            scene: String::new(),
            location: assets.commoner_location.clone(),
            locations,
            greeting: String::from_str(COMMONER_GREETING),
            dismissal: String::from_str(COMMONER_DISMISSAL),
            emoji: String::from_str(COMMONER_EMOJI),
            text_image: String::from_str(COMMONER_TEXT_IMAGE),
            full_image: image,
        };
        proof {
            reveal_strlit("commoner");
            reveal_strlit("Commoner");
            assert(res@.label =~= seq!['c', 'o', 'm', 'm', 'o', 'n', 'e', 'r']);
            assert(res@.name =~= seq!['C', 'o', 'm', 'm', 'o', 'n', 'e', 'r']);
        }
        res
    }

    /// Gromrik, the surly dwarf.
    pub fn gromrik(assets: &Assets) -> (res: Persona)
        ensures
            res.locations.wf(),
            res@ == builtin_spec(PersonaKind::Gromrik, assets),
            res.prompt@ == assets.gromrik.prompt@,
            res.scene@ == assets.gromrik.scene@,
            res.location@ == assets.gromrik.location@,
            res.text_image@ == assets.gromrik.text_image@,
            res.full_image@ == assets.gromrik.full_image@,
    {
        let defaults = Location::defaults(assets.location_list.as_slice());
        let locations = Location::explore(Some(&defaults), assets.gromrik.locations.as_slice());
        let res = Persona {
            label: String::from_str("gromrik"),
            name: String::from_str("Gromrik"),
            prompt: assets.gromrik.prompt.clone(),
            scene: assets.gromrik.scene.clone(),
            location: assets.gromrik.location.clone(),
            locations,
            greeting: String::from_str(GROMRIK_GREETING),
            dismissal: String::from_str(GROMRIK_DISMISSAL),
            emoji: String::from_str(GROMRIK_EMOJI),
            text_image: assets.gromrik.text_image.clone(),
            full_image: copy_bytes(&assets.gromrik.full_image),
        };
        proof {
            reveal_strlit("gromrik");
            reveal_strlit("Gromrik");
            assert(res@.label =~= seq!['g', 'r', 'o', 'm', 'r', 'i', 'k']);
            assert(res@.name =~= seq!['G', 'r', 'o', 'm', 'r', 'i', 'k']);
        }
        res
    }

    /// Lyranis, the elven illusionist.
    pub fn lyranis(assets: &Assets) -> (res: Persona)
        ensures
            res.locations.wf(),
            res@ == builtin_spec(PersonaKind::Lyranis, assets),
            res.prompt@ == assets.lyranis.prompt@,
            res.scene@ == assets.lyranis.scene@,
            res.location@ == assets.lyranis.location@,
            res.text_image@ == assets.lyranis.text_image@,
            res.full_image@ == assets.lyranis.full_image@,
    {
        let defaults = Location::defaults(assets.location_list.as_slice());
        let locations = Location::explore(Some(&defaults), assets.lyranis.locations.as_slice());
        let res = Persona {
            label: String::from_str("lyranis"),
            name: String::from_str("Lyranis"),
            prompt: assets.lyranis.prompt.clone(),
            scene: assets.lyranis.scene.clone(),
            location: assets.lyranis.location.clone(),
            locations,
            greeting: String::from_str(LYRANIS_GREETING),
            dismissal: String::from_str(LYRANIS_DISMISSAL),
            emoji: String::from_str(LYRANIS_EMOJI),
            text_image: assets.lyranis.text_image.clone(),
            full_image: copy_bytes(&assets.lyranis.full_image),
        };
        proof {
            reveal_strlit("lyranis");
            reveal_strlit("Lyranis");
            assert(res@.label =~= seq!['l', 'y', 'r', 'a', 'n', 'i', 's']);
            assert(res@.name =~= seq!['L', 'y', 'r', 'a', 'n', 'i', 's']);
        }
        res
    }

    /// The built-in personas by label, then each loaded persona under its
    /// label (replacing one of the same label).
    pub fn gather(assets: &Assets, loaded: Vec<(String, Persona)>) -> (res: Keyed<Persona>)
        ensures
            res.wf(),
            persona_views(res.view_map()) == insert_all(
                Map::empty(),
                builtin_pairs(builtin_labels(), assets) + loaded_pairs(loaded@),
            ),
    {
        proof {
            reveal_strlit(",");
            assert(","@ =~= seq![',']);
            lemma_split_nonempty(PERSONA_LIST@, seq![','], 0);
        }
        let pieces = split(PERSONA_LIST, ",");
        let ghost labels = builtin_labels();
        let ghost all = builtin_pairs(labels, assets) + loaded_pairs(loaded@);
        let mut personas: Keyed<Persona> = Keyed::new();
        let mut i: usize = 0;
        while i < pieces.len()
            invariant
                labels == texts(pieces@).map_values(|l: Seq<char>| trim_spec(l)),
                all == builtin_pairs(labels, assets) + loaded_pairs(loaded@),
                i <= pieces@.len(),
                personas.wf(),
                persona_views(personas.view_map()) == insert_all(Map::empty(), all.take(i as int)),
            decreases pieces@.len() - i,
        {
            let label = trim(pieces[i].as_str());
            let persona = Self::new(label.as_str(), assets);
            let ghost pre = personas.view_map();
            let ghost pv = persona@;
            personas.insert(label, persona);
            proof {
                assert(all[i as int] == (labels[i as int], pv));
                assert(all.take(i + 1).drop_last() =~= all.take(i as int));
                assert(persona_views(personas.view_map()) =~= persona_views(pre).insert(labels[i as int], pv));
            }
            i = i + 1;
        }
        let n = pieces.len();
        let mut rest = loaded;
        let ghost lp = loaded_pairs(rest@);
        let mut j: usize = 0;
        assert(lp.skip(0) =~= lp);
        assert(lp.len() == rest@.len());
        assert(rest@.len() == rest.len());
        assert(lp.len() <= usize::MAX);
        while rest.len() > 0
            invariant
                n == labels.len(),
                labels.len() == builtin_pairs(labels, assets).len(),
                all == builtin_pairs(labels, assets) + lp,
                personas.wf(),
                j + rest@.len() == lp.len(),
                lp.len() <= usize::MAX,
                loaded_pairs(rest@) == lp.skip(j as int),
                persona_views(personas.view_map()) == insert_all(Map::empty(), all.take(n + j)),
            decreases rest@.len(),
        {
            let ghost before = rest@;
            let p = rest.remove(0);
            let ghost pre = personas.view_map();
            assert(loaded_pairs(before)[0] == (p.0@, p.1@));
            assert(lp.skip(j as int)[0] == lp[j as int]);
            personas.insert(p.0, p.1);
            proof {
                assert(all[n + j] == lp[j as int]);
                assert(all.take(n + j + 1).drop_last() =~= all.take(n + j));
                assert(persona_views(personas.view_map()) =~= persona_views(pre).insert(lp[j as int].0, lp[j as int].1));
                assert(rest@ =~= before.skip(1));
                assert(loaded_pairs(rest@) =~= loaded_pairs(before).skip(1));
                assert(loaded_pairs(rest@) =~= lp.skip(j + 1));
            }
            j = j + 1;
        }
        assert(all.take(n + j) =~= all);
        personas
    }
}

// ---------------------------------------------------------------------------
// Bundles
// ---------------------------------------------------------------------------

/// The fields of a bundle's `metadata.json`.
pub struct PersonaMetadata {
    pub label: String,
    pub name: String,
    pub scene: String,
    pub location: String,
    pub greeting: String,
    pub dismissal: String,
    pub emoji: String,
}

/// The files of a bundle that make a persona, each the content of all the
/// archive's entries of that name one after the other.
pub struct BundleFiles {
    pub metadata: Vec<u8>,
    pub prompt: String,
    pub text_image: String,
    pub full_image: Vec<u8>,
    pub dimensions: Vec<u8>,
    pub locations: Vec<u8>,
}

pub const METADATA_FILE: &'static str = "metadata.json";
pub const PROMPT_FILE: &'static str = "prompt.tpl";
pub const TEXT_IMAGE_FILE: &'static str = "text_image.txt";
pub const FULL_IMAGE_FILE: &'static str = "full_image.png";
pub const DIMENSIONS_FILE: &'static str = "dimensions.json";
pub const LOCATIONS_FILE: &'static str = "locations.json";

/// The entries of the tar archive in a zstd-compressed bundle, as the `tar`
/// crate reads them through a `zstd` stream decoder: each entry's file name
/// (empty where it has none that is text) and content, decompressing only as
/// far as the archive's end; `None` where decompressing or reading fails.
pub uninterp spec fn bundle_archive(data: Seq<u8>) -> Option<Seq<(Seq<char>, Seq<u8>)>>;

/// What `serde_json::from_slice::<Vec<&str>>` gives for some bytes.
pub uninterp spec fn json_strings(data: Seq<u8>) -> Option<Seq<Seq<char>>>;

/// Entries of a file list by their texts.
pub open spec fn entry_views(v: Seq<(String, Vec<u8>)>) -> Seq<(Seq<char>, Seq<u8>)> {
    v.map_values(|e: (String, Vec<u8>)| (e.0@, e.1@))
}

/// Reads the entries of the tar archive in a zstd-compressed bundle with
/// `tar::Archive::entries` over a `zstd::stream::read::Decoder` of the bytes:
/// each entry's file name and content. The decoder only turns the bytes into
/// the reader that the archive reads, so the stream is decompressed as far as
/// the archive is read. The result is named `bundle_archive`, a function of
/// the bytes alone.
#[verifier::external_body]
fn bundle_entries(data: &[u8]) -> (res: Option<Vec<(String, Vec<u8>)>>)
    ensures
        match res {
            Some(v) => bundle_archive(data@) == Some(entry_views(v@)),
            None => bundle_archive(data@) is None,
        },
{
    let decoder = zstd::stream::read::Decoder::new(std::io::Cursor::new(data)).ok()?;
    let mut archive = tar::Archive::new(decoder);
    let mut files: Vec<(String, Vec<u8>)> = Vec::new();
    for entry in archive.entries().ok()? {
        let mut entry = entry.ok()?;
        let name = entry.path().ok()?.file_name().and_then(|s| s.to_str()).unwrap_or("").to_string();
        let mut bytes: Vec<u8> = Vec::new();
        std::io::Read::read_to_end(&mut entry, &mut bytes).ok()?;
        files.push((name, bytes));
    }
    Some(files)
}

/// Reads a JSON list of strings with `serde_json::from_slice::<Vec<&str>>`
/// (strings with escapes do not read that way). The result is named
/// `json_strings`, a function of the bytes alone.
#[verifier::external_body]
fn json_string_list(data: &[u8]) -> (res: Option<Vec<String>>)
    ensures
        match res {
            Some(v) => json_strings(data@) == Some(texts(v@)),
            None => json_strings(data@) is None,
        },
{
    serde_json::from_slice::<Vec<&str>>(data).ok().map(|v| v.into_iter().map(String::from).collect())
}

/// Text from UTF-8 bytes (std's `str::from_utf8`): the decoded text where
/// the bytes are valid UTF-8.
#[verifier::external_body]
fn utf8_text(data: &[u8]) -> (res: Option<String>)
    ensures
        res is Some <==> valid_utf8(data@),
        res matches Some(s) ==> s@ == decode_utf8(data@),
{
    match std::str::from_utf8(data) {
        Ok(s) => Some(s.to_string()),
        Err(_) => None,
    }
}

/// The contents of the entries named `name`, one after the other.
pub open spec fn entry_bytes(entries: Seq<(Seq<char>, Seq<u8>)>, name: Seq<char>) -> Seq<u8>
    decreases entries.len(),
{
    if entries.len() == 0 {
        Seq::empty()
    } else {
        let rest = entry_bytes(entries.drop_last(), name);
        if entries.last().0 == name { rest + entries.last().1 } else { rest }
    }
}

/// The decoded texts of the entries named `name`, one after the other.
pub open spec fn entry_text(entries: Seq<(Seq<char>, Seq<u8>)>, name: Seq<char>) -> Seq<char>
    decreases entries.len(),
{
    if entries.len() == 0 {
        Seq::empty()
    } else {
        let rest = entry_text(entries.drop_last(), name);
        if entries.last().0 == name { rest + decode_utf8(entries.last().1) } else { rest }
    }
}

/// Every entry read as text (the prompt and the text image) is valid UTF-8.
pub open spec fn texts_valid(entries: Seq<(Seq<char>, Seq<u8>)>) -> bool {
    forall|i: int|
        0 <= i < entries.len() && (entries[i].0 == PROMPT_FILE@ || entries[i].0 == TEXT_IMAGE_FILE@) ==> valid_utf8(
            #[trigger] entries[i].1,
        )
}

/// The bundle files that the entries make.
pub open spec fn bundle_files_match(f: BundleFiles, entries: Seq<(Seq<char>, Seq<u8>)>) -> bool {
    &&& f.metadata@ == entry_bytes(entries, METADATA_FILE@)
    &&& f.prompt@ == entry_text(entries, PROMPT_FILE@)
    &&& f.text_image@ == entry_text(entries, TEXT_IMAGE_FILE@)
    &&& f.full_image@ == entry_bytes(entries, FULL_IMAGE_FILE@)
    &&& f.dimensions@ == entry_bytes(entries, DIMENSIONS_FILE@)
    &&& f.locations@ == entry_bytes(entries, LOCATIONS_FILE@)
}

/// Appends `b` to `a`.
fn append_bytes(a: &mut Vec<u8>, b: &Vec<u8>)
    ensures
        final(a)@ == old(a)@ + b@,
{
    let mut i: usize = 0;
    let ghost start = a@;
    while i < b.len()
        invariant
            i <= b@.len(),
            a@ == start + b@.take(i as int),
        decreases b@.len() - i,
    {
        a.push(b[i]);
        assert(b@.take(i + 1) =~= b@.take(i as int).push(b@[i as int]));
        assert(a@ =~= start + b@.take(i + 1));
        i = i + 1;
    }
    assert(b@.take(b@.len() as int) =~= b@);
}

/// Whether every entry read as text is valid UTF-8.
pub fn check_texts(entries: &Vec<(String, Vec<u8>)>) -> (res: bool)
    ensures
        res == texts_valid(entry_views(entries@)),
{
    let ghost ev = entry_views(entries@);
    let mut i: usize = 0;
    while i < entries.len()
        invariant
            ev == entry_views(entries@),
            i <= ev.len(),
            forall|k: int|
                0 <= k < i && (ev[k].0 == PROMPT_FILE@ || ev[k].0 == TEXT_IMAGE_FILE@) ==> valid_utf8(#[trigger] ev[k].1),
        decreases ev.len() - i,
    {
        let name = entries[i].0.as_str();
        if text_eq(name, PROMPT_FILE) || text_eq(name, TEXT_IMAGE_FILE) {
            match utf8_text(entries[i].1.as_slice()) {
                Some(_) => {},
                None => {
                    assert(ev[i as int].1 == entries@[i as int].1@);
                    return false;
                },
            }
        }
        i = i + 1;
    }
    true
}

/// The files of a bundle, from its archive's entries.
pub fn select_bundle_files(entries: &Vec<(String, Vec<u8>)>) -> (res: BundleFiles)
    requires
        texts_valid(entry_views(entries@)),
    ensures
        bundle_files_match(res, entry_views(entries@)),
{
    let ghost ev = entry_views(entries@);
    let mut f = BundleFiles {
        metadata: Vec::new(),
        prompt: String::new(),
        text_image: String::new(),
        full_image: Vec::new(),
        dimensions: Vec::new(),
        locations: Vec::new(),
    };
    let mut i: usize = 0;
    assert(ev.take(0) =~= Seq::<(Seq<char>, Seq<u8>)>::empty());
    while i < entries.len()
        invariant
            ev == entry_views(entries@),
            texts_valid(ev),
            i <= ev.len(),
            bundle_files_match(f, ev.take(i as int)),
        decreases ev.len() - i,
    {
        let ghost pre = ev.take(i as int);
        assert(ev.take(i + 1).drop_last() =~= pre);
        assert(ev.take(i + 1).last() == ev[i as int]);
        assert(ev[i as int] == (entries@[i as int].0@, entries@[i as int].1@));
        let name = entries[i].0.as_str();
        let bytes = &entries[i].1;
        if text_eq(name, METADATA_FILE) {
            append_bytes(&mut f.metadata, bytes);
        } else if text_eq(name, PROMPT_FILE) {
            match utf8_text(bytes.as_slice()) {
                Some(t) => f.prompt.append(t.as_str()),
                None => {},
            }
        } else if text_eq(name, TEXT_IMAGE_FILE) {
            match utf8_text(bytes.as_slice()) {
                Some(t) => f.text_image.append(t.as_str()),
                None => {},
            }
        } else if text_eq(name, FULL_IMAGE_FILE) {
            append_bytes(&mut f.full_image, bytes);
        } else if text_eq(name, DIMENSIONS_FILE) {
            append_bytes(&mut f.dimensions, bytes);
        } else if text_eq(name, LOCATIONS_FILE) {
            append_bytes(&mut f.locations, bytes);
        }
        proof {
            lemma_names_distinct();
        }
        i = i + 1;
    }
    assert(ev.take(ev.len() as int) =~= ev);
    f
}

/// The six file names differ.
proof fn lemma_names_distinct()
    ensures
        METADATA_FILE@ != PROMPT_FILE@,
        METADATA_FILE@ != TEXT_IMAGE_FILE@,
        METADATA_FILE@ != FULL_IMAGE_FILE@,
        METADATA_FILE@ != DIMENSIONS_FILE@,
        METADATA_FILE@ != LOCATIONS_FILE@,
        PROMPT_FILE@ != TEXT_IMAGE_FILE@,
        PROMPT_FILE@ != FULL_IMAGE_FILE@,
        PROMPT_FILE@ != DIMENSIONS_FILE@,
        PROMPT_FILE@ != LOCATIONS_FILE@,
        TEXT_IMAGE_FILE@ != FULL_IMAGE_FILE@,
        TEXT_IMAGE_FILE@ != DIMENSIONS_FILE@,
        TEXT_IMAGE_FILE@ != LOCATIONS_FILE@,
        FULL_IMAGE_FILE@ != DIMENSIONS_FILE@,
        FULL_IMAGE_FILE@ != LOCATIONS_FILE@,
        DIMENSIONS_FILE@ != LOCATIONS_FILE@,
{
    reveal_strlit("metadata.json");
    reveal_strlit("prompt.tpl");
    reveal_strlit("text_image.txt");
    reveal_strlit("full_image.png");
    reveal_strlit("dimensions.json");
    reveal_strlit("locations.json");
    assert(METADATA_FILE@[0] != PROMPT_FILE@[0]);
    assert(METADATA_FILE@[0] != TEXT_IMAGE_FILE@[0]);
    assert(METADATA_FILE@[0] != FULL_IMAGE_FILE@[0]);
    assert(METADATA_FILE@[0] != DIMENSIONS_FILE@[0]);
    assert(METADATA_FILE@[0] != LOCATIONS_FILE@[0]);
    assert(PROMPT_FILE@[0] != TEXT_IMAGE_FILE@[0]);
    assert(PROMPT_FILE@[0] != FULL_IMAGE_FILE@[0]);
    assert(PROMPT_FILE@[0] != DIMENSIONS_FILE@[0]);
    assert(PROMPT_FILE@[0] != LOCATIONS_FILE@[0]);
    assert(TEXT_IMAGE_FILE@[0] != FULL_IMAGE_FILE@[0]);
    assert(TEXT_IMAGE_FILE@[0] != DIMENSIONS_FILE@[0]);
    assert(TEXT_IMAGE_FILE@[0] != LOCATIONS_FILE@[0]);
    assert(FULL_IMAGE_FILE@[0] != DIMENSIONS_FILE@[0]);
    assert(FULL_IMAGE_FILE@[0] != LOCATIONS_FILE@[0]);
    assert(DIMENSIONS_FILE@[0] != LOCATIONS_FILE@[0]);
}

/// What unpacking a bundle gives: its files, where it decompresses, reads as
/// a tar archive and every text entry is valid UTF-8; else nothing.
pub open spec fn unpack_spec(bundle: Seq<u8>) -> Option<Seq<(Seq<char>, Seq<u8>)>> {
    match bundle_archive(bundle) {
        None => None,
        Some(es) => if texts_valid(es) { Some(es) } else { None },
    }
}

/// The persona that a bundle's metadata and files make.
pub open spec fn bundle_persona(meta: &PersonaMetadata, f: &BundleFiles, defaults: Map<Seq<char>, LocationView>) -> PersonaView {
    PersonaView {
        label: meta.label@,
        name: meta.name@,
        prompt: f.prompt@,
        scene: meta.scene@,
        location: meta.location@,
        locations: explore_spec(
            defaults,
            match json_strings(f.locations@) {
                Some(l) => l,
                None => Seq::empty(),
            },
        ),
        greeting: meta.greeting@,
        dismissal: meta.dismissal@,
        emoji: meta.emoji@,
        text_image: f.text_image@,
        full_image: f.full_image@,
    }
}

impl Persona {
    /// The files of a persona bundle: `None` where the bundle does not
    /// decompress, does not read as a tar archive, or holds a prompt or text
    /// image that is not UTF-8.
    pub fn unpack(bundle: &[u8]) -> (res: Option<BundleFiles>)
        ensures
            match unpack_spec(bundle@) {
                Some(es) => res matches Some(f) && bundle_files_match(f, es),
                None => res is None,
            },
    {
        let entries = match bundle_entries(bundle) {
            Some(e) => e,
            None => return None,
        };
        if !check_texts(&entries) {
            return None;
        }
        Some(select_bundle_files(&entries))
    }

    /// The persona of a bundle, from its metadata and files; its places are
    /// `defaults` and those of `locations.json` (none where that is not a
    /// JSON list of strings).
    pub fn from_bundle(meta: PersonaMetadata, files: BundleFiles, defaults: &Keyed<Location>) -> (res: Persona)
        requires
            defaults.wf(),
        ensures
            res.locations.wf(),
            res@ == bundle_persona(&meta, &files, location_views(defaults.view_map())),
    {
        let list = match json_string_list(files.locations.as_slice()) {
            Some(l) => l,
            None => Vec::new(),
        };
        assert(texts(list@) == match json_strings(files.locations@) {
            Some(l) => l,
            None => Seq::<Seq<char>>::empty(),
        }) by {
            if json_strings(files.locations@) is None {
                assert(texts(list@) =~= Seq::<Seq<char>>::empty());
            }
        }
        let locations = Location::explore(Some(defaults), list.as_slice());
        Persona {
            label: meta.label,
            name: meta.name,
            prompt: files.prompt,
            scene: meta.scene,
            location: meta.location,
            locations,
            greeting: meta.greeting,
            dismissal: meta.dismissal,
            emoji: meta.emoji,
            text_image: files.text_image,
            full_image: files.full_image,
        }
    }
}

} // verus!
