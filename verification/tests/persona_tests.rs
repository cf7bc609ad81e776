use gromrik::keyed::Keyed;
use gromrik::location::Location;
use gromrik::persona::{kind_of, select_bundle_files, check_texts, Assets, Persona, PersonaAssets, PersonaKind, PersonaMetadata};

fn assets() -> Assets {
    Assets {
        location_list: vec!["tavern::The Tavern::A smoky tavern".to_string(), "market".to_string()],
        gromrik: PersonaAssets {
            prompt: "You are Gromrik.".to_string(),
            scene: "A forge.".to_string(),
            location: "forge".to_string(),
            locations: vec!["forge::The Forge".to_string(), "tavern::Dwarf Tavern".to_string()],
            text_image: "G".to_string(),
            full_image: vec![1, 2, 3],
        },
        lyranis: PersonaAssets {
            prompt: "You are Lyranis.".to_string(),
            scene: "A tower.".to_string(),
            location: "tower".to_string(),
            locations: vec!["tower".to_string()],
            text_image: "L".to_string(),
            full_image: vec![4],
        },
        commoner_prompt: "You are {{NAME}}: {{BACKSTORY}}".to_string(),
        commoner_location: "market".to_string(),
    }
}

fn bundle(files: &[(&str, &[u8])]) -> Vec<u8> {
    let mut builder = tar::Builder::new(Vec::new());
    for (name, data) in files {
        let mut header = tar::Header::new_gnu();
        header.set_size(data.len() as u64);
        header.set_mode(0o644);
        header.set_cksum();
        builder.append_data(&mut header, format!("bundle/{}", name), *data).unwrap();
    }
    let archive = builder.into_inner().unwrap();
    zstd::stream::encode_all(archive.as_slice(), 3).unwrap()
}

#[test]
fn labels_select_builtin_personas() {
    assert_eq!(kind_of("GROMRIK"), PersonaKind::Gromrik);
    assert_eq!(kind_of("Lyranis"), PersonaKind::Lyranis);
    assert_eq!(kind_of("commoner"), PersonaKind::Commoner);
    assert_eq!(kind_of("nobody"), PersonaKind::Gromrik);
}

#[test]
fn gromrik_is_built_from_the_resources() {
    let a = assets();
    let p = Persona::new("gromrik", &a);
    assert_eq!(p.label, "gromrik");
    assert_eq!(p.name, "Gromrik");
    assert_eq!(p.prompt, "You are Gromrik.");
    assert_eq!(p.greeting, "Bah! Why are you bothering me?");
    assert_eq!(p.dismissal, "Go away!");
    assert_eq!(p.full_image, vec![1, 2, 3]);
    assert_eq!(p.locations.len(), 3);
    assert_eq!(p.locations.get("tavern").unwrap().display, "Dwarf Tavern");
    assert_eq!(p.locations.get("market").unwrap().scene, "market");
    let unknown = Persona::new("Zed", &a);
    assert_eq!(unknown.name, "Gromrik");
}

#[test]
fn commoner_has_the_standard_places() {
    let a = assets();
    let p = Persona::new("COMMONER", &a);
    assert_eq!(p.name, "Commoner");
    assert_eq!(p.scene, "");
    assert_eq!(p.location, "market");
    assert_eq!(p.locations.len(), 2);
    assert_eq!(p.greeting, "Hello.");
    assert_eq!(p.full_image.len(), 67);
    assert_eq!(&p.full_image[1..4], b"PNG");
}

#[test]
fn gather_lists_builtins_then_loaded() {
    let a = assets();
    let mut extra = Persona::new("lyranis", &a);
    extra.name = "Lyra".to_string();
    let all = Persona::gather(&a, vec![("lyranis".to_string(), extra), ("grom".to_string(), Persona::new("x", &a))]);
    assert_eq!(all.key_list(), vec!["gromrik".to_string(), "lyranis".to_string(), "commoner".to_string(), "grom".to_string()]);
    assert_eq!(all.get("lyranis").unwrap().name, "Lyra");
    assert_eq!(all.get("grom").unwrap().name, "Gromrik");
}

#[test]
fn a_bundle_unpacks_into_its_files() {
    let data = bundle(&[
        ("metadata.json", b"{\"label\":\"elf\"}"),
        ("prompt.tpl", "You are an elf \u{2728}.".as_bytes()),
        ("text_image.txt", b"E"),
        ("full_image.png", &[9, 8]),
        ("locations.json", b"[\"glade::The Glade\", \"tavern\"]"),
        ("notes.md", b"ignored"),
    ]);
    let files = Persona::unpack(&data).unwrap();
    assert_eq!(files.metadata, b"{\"label\":\"elf\"}".to_vec());
    assert_eq!(files.prompt, "You are an elf \u{2728}.");
    assert_eq!(files.text_image, "E");
    assert_eq!(files.full_image, vec![9, 8]);
    assert!(files.dimensions.is_empty());
    let meta = PersonaMetadata {
        label: "elf".to_string(),
        name: "Elf".to_string(),
        scene: "A glade.".to_string(),
        location: "glade".to_string(),
        greeting: "Hail.".to_string(),
        dismissal: "Farewell.".to_string(),
        emoji: "E".to_string(),
    };
    let defaults = Location::defaults(&["tavern::Inn".to_string(), "market".to_string()]);
    let p = Persona::from_bundle(meta, files, &defaults);
    assert_eq!(p.name, "Elf");
    assert_eq!(p.prompt, "You are an elf \u{2728}.");
    assert_eq!(p.locations.len(), 3);
    assert_eq!(p.locations.get("glade").unwrap().display, "The Glade");
    assert_eq!(p.locations.get("tavern").unwrap().display, "tavern");
}

#[test]
fn broken_bundles_give_nothing() {
    assert!(Persona::unpack(b"not zstd").is_none());
    let not_tar = zstd::stream::encode_all(&b"hello, this is no archive at all"[..], 3).unwrap();
    assert!(Persona::unpack(&not_tar).is_none());
    let bad_text = bundle(&[("prompt.tpl", &[0xff, 0xfe])]);
    assert!(Persona::unpack(&bad_text).is_none());
    let bad_image = bundle(&[("full_image.png", &[0xff, 0xfe])]);
    assert_eq!(Persona::unpack(&bad_image).unwrap().full_image, vec![0xff, 0xfe]);
}

#[test]
fn repeated_entries_are_joined() {
    let entries = vec![
        ("prompt.tpl".to_string(), b"one ".to_vec()),
        ("locations.json".to_string(), b"[".to_vec()),
        ("prompt.tpl".to_string(), b"two".to_vec()),
        ("locations.json".to_string(), b"]".to_vec()),
    ];
    assert!(check_texts(&entries));
    let f = select_bundle_files(&entries);
    assert_eq!(f.prompt, "one two");
    assert_eq!(f.locations, b"[]".to_vec());
    assert!(!check_texts(&vec![("text_image.txt".to_string(), vec![0xc3])]));
}

#[test]
fn bad_location_lists_add_no_places() {
    let defaults: Keyed<Location> = Location::defaults(&["market".to_string()]);
    let meta = PersonaMetadata {
        label: "x".to_string(),
        name: "X".to_string(),
        scene: String::new(),
        location: String::new(),
        greeting: String::new(),
        dismissal: String::new(),
        emoji: String::new(),
    };
    let files = gromrik::persona::BundleFiles {
        metadata: vec![],
        prompt: String::new(),
        text_image: String::new(),
        full_image: vec![],
        dimensions: vec![],
        locations: b"{\"not\": \"a list\"}".to_vec(),
    };
    let p = Persona::from_bundle(meta, files, &defaults);
    assert_eq!(p.locations.key_list(), vec!["market".to_string()]);
}

#[test]
fn only_the_commoner_is_made_up() {
    assert!(gromrik::persona::is_commoner("Commoner"));
    assert!(!gromrik::persona::is_commoner("commoner"));
    assert!(!gromrik::persona::is_commoner("Gromrik"));
    let a = assets();
    assert!(gromrik::persona::is_commoner(&Persona::new("commoner", &a).name));
}

#[test]
fn damage_after_the_archive_is_not_read() {
    let mut data = bundle(&[("prompt.tpl", b"You are an elf.")]);
    data.extend_from_slice(b"damaged trailing bytes");
    assert!(zstd::stream::decode_all(data.as_slice()).is_err());
    let files = Persona::unpack(&data).unwrap();
    assert_eq!(files.prompt, "You are an elf.");
}
