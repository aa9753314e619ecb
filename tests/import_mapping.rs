use anki_sound_adder::archive::{
    classify_entry, is_safe_file_name, medias_from_manifest, plan_import, select_database,
    ArchiveEntry, EntryKind,
};
use anki_sound_adder::database::{map_cur_conf, note_from_row, stored_fields, Conf, Fld, Model, Tmpl};
use anki_sound_adder::error::Error;

fn entry(name: &str, data: &[u8]) -> ArchiveEntry {
    ArchiveEntry { name: Some(name.to_string()), data: data.to_vec() }
}

fn model(id: i64, name: &str) -> Model {
    Model {
        id,
        name: name.to_string(),
        tmpls: vec![Tmpl {
            name: "Card 1".to_string(),
            ord: 0,
            qfmt: "{{Front}}".to_string(),
            afmt: "{{Back}}".to_string(),
        }],
        flds: vec![Fld { name: "Front".to_string(), ord: 0, font: "Arial".to_string(), size: 20 }],
    }
}

#[test]
fn entries_classified_by_name() {
    assert_eq!(classify_entry("collection.anki2"), EntryKind::LegacyDatabase);
    assert_eq!(classify_entry("collection.anki21"), EntryKind::Database);
    assert_eq!(classify_entry("media"), EntryKind::Manifest);
    assert_eq!(classify_entry("0"), EntryKind::Other);
}

#[test]
fn only_legacy_database_is_selected() {
    let es = vec![entry("0", b"x"), entry("collection.anki2", b"db")];
    assert_eq!(select_database(&es), Some(1));
}

#[test]
fn current_database_wins_in_either_order() {
    let a = vec![entry("collection.anki2", b"old"), entry("collection.anki21", b"new")];
    assert_eq!(select_database(&a), Some(1));
    let b = vec![entry("collection.anki21", b"new"), entry("collection.anki2", b"old")];
    assert_eq!(select_database(&b), Some(0));
    let c = vec![entry("a.anki21", b"1"), entry("b.anki2", b"2"), entry("c.anki21", b"3")];
    assert_eq!(select_database(&c), Some(2));
    let d = vec![entry("a.anki2", b"1"), entry("b.anki2", b"2")];
    assert_eq!(select_database(&d), Some(0));
}

#[test]
fn no_database_is_an_error() {
    let es = vec![entry("media", b"{}"), entry("0", b"x")];
    assert_eq!(select_database(&es), None);
    assert_eq!(plan_import("/tmp/work", &es), Err(Error::NoDatabaseFound));
}

#[test]
fn traversal_names_are_skipped() {
    assert!(!is_safe_file_name("../evil"));
    assert!(!is_safe_file_name(".."));
    assert!(!is_safe_file_name(""));
    assert!(is_safe_file_name("collection.anki21"));
    let es = vec![
        entry("../evil", b"bad"),
        ArchiveEntry { name: None, data: b"unnamed".to_vec() },
        entry("collection.anki21", b"db"),
    ];
    let plan = plan_import("/tmp/work", &es).unwrap();
    assert_eq!(plan.files, vec![("/tmp/work/collection.anki21".to_string(), 2)]);
    assert_eq!(plan.database, "/tmp/work/collection.anki21");
}

#[test]
fn traversal_database_name_is_not_chosen() {
    let es = vec![entry("../collection.anki21", b"db")];
    assert_eq!(plan_import("/tmp/work", &es), Err(Error::NoDatabaseFound));
}

#[test]
fn import_plan_reads_manifest_and_files() {
    let es = vec![
        entry("collection.anki2", b"db"),
        entry("media", b"{\"1\": \"b.mp3\", \"0\": \"a.mp3\"}"),
        entry("0", b"A"),
        entry("1", b"B"),
    ];
    let plan = plan_import("/w", &es).unwrap();
    assert_eq!(plan.database, "/w/collection.anki2");
    let written: Vec<usize> = plan.files.iter().map(|f| f.1).collect();
    assert_eq!(written, vec![0, 1, 2, 3]);
    assert_eq!(plan.files[1].0, "/w/media");
    assert_eq!(plan.medias.len(), 2);
    assert_eq!(plan.medias[0].name, "a.mp3");
    assert_eq!(plan.medias[0].path, "/w/0");
    assert_eq!(plan.medias[1].name, "b.mp3");
    assert_eq!(plan.medias[1].path, "/w/1");
}

#[test]
fn malformed_manifest_gives_no_media() {
    let es = vec![entry("collection.anki21", b"db"), entry("media", b"{oops")];
    let plan = plan_import("/w", &es).unwrap();
    assert!(plan.medias.is_empty());
    assert_eq!(plan.files.len(), 2);
}

#[test]
fn medias_follow_manifest_index_order() {
    let members = vec![
        ("10".to_string(), "k.mp3".to_string()),
        ("2".to_string(), "c.mp3".to_string()),
    ];
    let ms = medias_from_manifest("/w", members);
    assert_eq!(ms[0].name, "k.mp3");
    assert_eq!(ms[1].path, "/w/2");
}

#[test]
fn current_model_resolved_by_id() {
    let models = vec![
        ("1".to_string(), model(1, "Other")),
        ("1342697561419".to_string(), model(1342697561419, "Basic")),
    ];
    let conf = map_cur_conf(&Conf { cur_model: 1342697561419 }, &models).unwrap();
    let nt = conf.get_cur_model();
    assert_eq!(nt.id, "1342697561419");
    assert_eq!(nt.name, "Basic");
    assert_eq!(nt.tmpls[0].qfmt, "{{Front}}");
    assert_eq!(nt.flds[0].font, "Arial");
    assert_eq!(nt.flds[0].size, 20);
}

#[test]
fn missing_current_model_is_mapping_error() {
    let models = vec![("1".to_string(), model(1, "Other"))];
    let r = map_cur_conf(&Conf { cur_model: 2 }, &models);
    assert!(matches!(r, Err(Error::Mapping(_))));
    let r2 = map_cur_conf(&Conf { cur_model: 2 }, &Vec::new());
    assert!(matches!(r2, Err(Error::Mapping(_))));
}

#[test]
fn note_rows_round_trip() {
    let n = note_from_row(-7, "a\u{1f}b", "a".to_string());
    assert_eq!(n.id, "-7");
    assert_eq!(n.fields, vec!["a", "b"]);
    assert_eq!(stored_fields(&n), "a\u{1f}b");
}

#[test]
fn import_then_manifest_round_trip() {
    let es = vec![
        entry("collection.anki21", b"SQLite format 3\0"),
        entry("media", b"{\"0\": \"a.mp3\", \"1\": \"b.mp3\"}"),
        entry("0", b"A"),
        entry("1", b"B"),
    ];
    let plan = plan_import("/w", &es).unwrap();
    for (path, idx) in plan.files.iter() {
        let name = path.strip_prefix("/w/").unwrap();
        assert_eq!(es[*idx].name.as_deref(), Some(name));
    }
    let col = anki_sound_adder::domains::Collection::new(
        "/w".to_string(),
        anki_sound_adder::domains::Conf::default(),
        Vec::new(),
        plan.medias,
    );
    assert_eq!(col.build_media_meta().unwrap(), "{\"0\":\"a.mp3\",\"1\":\"b.mp3\"}");
}
