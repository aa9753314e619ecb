use anki_sound_adder::domains::{
    normalize_fields, sound_marker, sound_media, Collection, Conf, Media, Note, NoteField,
    NoteType,
};
use anki_sound_adder::error::Error;

fn note(id: &str, sfld: &str, fields: &[&str]) -> Note {
    Note {
        id: id.to_string(),
        sfld: sfld.to_string(),
        fields: fields.iter().map(|f| f.to_string()).collect(),
    }
}

fn media(name: &str) -> Media {
    Media { name: name.to_string(), path: format!("/voices/{}", name) }
}

fn collection(notes: Vec<Note>) -> Collection {
    Collection::new("/tmp/work".to_string(), Conf::default(), notes, Vec::new())
}

#[test]
fn marker_is_built_from_sort_field() {
    assert_eq!(sound_marker("hello"), "[sound:hello.mp3]");
}

#[test]
fn single_field_insertion_shifts_later_fields() {
    let mut n = note("1", "cat", &["cat", "a small animal"]);
    assert_eq!(n.add_sound(1), Ok(()));
    assert_eq!(n.fields, vec!["cat", "[sound:cat.mp3]", "a small animal"]);
}

#[test]
fn single_field_insertion_at_end() {
    let mut n = note("1", "cat", &["cat"]);
    n.add_sound(1).unwrap();
    assert_eq!(n.fields, vec!["cat", "[sound:cat.mp3]"]);
}

#[test]
fn single_field_insertion_twice_is_idempotent() {
    let mut n = note("1", "dog", &["dog", "[sound:old.mp3]", "x"]);
    n.add_sound(1).unwrap();
    let after_first = n.fields.clone();
    assert_eq!(after_first, vec!["dog", "[sound:old.mp3]", "x"]);
    n.add_sound(1).unwrap();
    assert_eq!(n.fields, after_first);

    let mut m = note("2", "dog", &["dog", "x"]);
    m.add_sound(1).unwrap();
    let once = m.fields.clone();
    m.add_sound(1).unwrap();
    assert_eq!(m.fields, once);
}

#[test]
fn collection_normalizes_sound_markers() {
    let mut col = collection(vec![
        note("1", "hello", &["hello", "[sound:old.mp3]"]),
        note("2", "bye", &["bye", "plain"]),
    ]);
    assert_eq!(col.add_sound(), Ok(()));
    assert_eq!(col.notes[0].fields, vec!["hello", "[sound:hello.mp3]"]);
    assert_eq!(col.notes[1].fields, vec!["bye", "plain"]);
    assert_eq!(col.notes[0].id, "1");
}

#[test]
fn normalize_fields_rewrites_only_markers() {
    let fields = vec!["[sound:a.mp3]".to_string(), "[sou".to_string()];
    assert_eq!(normalize_fields(&fields, "w"), vec!["[sound:w.mp3]", "[sou"]);
}

#[test]
fn media_index_consistency_after_attachments() {
    let mut col = collection(Vec::new());
    for name in ["a.mp3", "b.mp3", "c.mp3"] {
        let target = col.next_media_path();
        assert_eq!(target, format!("/tmp/work/{}", col.medias.len()));
        assert_eq!(col.add_media(media(name), Ok(())), Ok(()));
    }
    let manifest = col.media_manifest();
    assert_eq!(
        manifest,
        vec![
            ("0".to_string(), "a.mp3".to_string()),
            ("1".to_string(), "b.mp3".to_string()),
            ("2".to_string(), "c.mp3".to_string()),
        ]
    );
    assert_eq!(
        col.build_media_meta().unwrap(),
        "{\"0\":\"a.mp3\",\"1\":\"b.mp3\",\"2\":\"c.mp3\"}"
    );
}

#[test]
fn failed_copy_leaves_media_list_unchanged() {
    let mut col = collection(Vec::new());
    let r = col.add_media(media("a.mp3"), Err(Error::Copy("no such file".to_string())));
    assert_eq!(r, Err(Error::Copy("no such file".to_string())));
    assert!(col.medias.is_empty());
    assert_eq!(col.next_media_path(), "/tmp/work/0");
}

#[test]
fn file_path_inside_work_dir() {
    let col = collection(Vec::new());
    assert_eq!(col.get_file_path("media"), "/tmp/work/media");
}

#[test]
fn sound_media_uses_first_character_bucket() {
    let m = sound_media("/voices", "hello").unwrap();
    assert_eq!(m.name, "hello.mp3");
    assert_eq!(m.path, "/voices/h/hello.mp3");
    assert_eq!(sound_media("/voices", ""), None);
}

#[test]
fn sound_field_found_by_name() {
    let field = |name: &str, ord: i32| NoteField {
        name: name.to_string(),
        ord,
        font: "Arial".to_string(),
        size: 20,
    };
    let nt = NoteType {
        id: "1".to_string(),
        name: "Basic".to_string(),
        tmpls: Vec::new(),
        flds: vec![field("Front", 0), field("发音", 1), field("发音", 2)],
    };
    assert_eq!(nt.find_sound_field().map(|f| f.ord), Some(1));
    let conf = Conf::new(nt.clone());
    assert_eq!(conf.get_cur_model(), &nt);
    let none = NoteType { flds: vec![field("Front", 0)], ..nt };
    assert_eq!(none.find_sound_field(), None);
}

#[test]
fn summary_names_model_and_counts() {
    let mut col = collection(vec![note("1", "a", &["a"])]);
    col.conf.cur_model.name = "Basic".to_string();
    col.add_media(media("a.mp3"), Ok(())).unwrap();
    assert_eq!(col.summary(), "name: Basic, notes: 1, medias: 1");
}

#[test]
fn file_path_with_empty_work_dir_is_relative() {
    let col = Collection::new(String::new(), Conf::default(), Vec::new(), Vec::new());
    assert_eq!(col.get_file_path("a"), "a");
    assert_eq!(col.next_media_path(), "0");
}
