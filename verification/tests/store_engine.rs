use prompt_library::get_tags;
use prompt_library::AdvancedParams;
use prompt_library::Prompt;
use prompt_library::PromptStructure;
use prompt_library::StoreEngine;
use prompt_library::StoreError;
use prompt_library::TagCatalog;
use prompt_library::ValidationError;

fn structure(objective: &str, voice: &str, mood: &str) -> PromptStructure {
    PromptStructure {
        objective: objective.to_string(),
        voice: voice.to_string(),
        mood: mood.to_string(),
        tempo: None,
        duration: None,
    }
}

fn prompt(id: &str, name: &str, tags: &[&str]) -> Prompt {
    Prompt {
        id: id.to_string(),
        name: name.to_string(),
        created_at: 0,
        updated_at: 0,
        style: "piano ballad".to_string(),
        lyrics: "la la la".to_string(),
        tags: tags.iter().map(|t| t.to_string()).collect(),
        structure: structure("relax", "soft", "calm"),
        advanced: None,
        template: None,
        favorite: None,
        notes: None,
    }
}

fn catalog() -> TagCatalog {
    TagCatalog::try_new(get_tags()).expect("bundled dataset has unique ids")
}

#[test]
fn save_empty_id_generates_and_roundtrips() {
    let cat = catalog();
    let mut store = StoreEngine::new();
    let p = prompt("", "Ballad", &["pop"]);
    let id = store.save(&p, &cat, 1000).expect("valid prompt saves");
    assert!(!id.is_empty());
    let loaded = store.load(&id).expect("saved prompt loads");
    assert_eq!(loaded.id, id);
    assert_eq!(loaded.name, "Ballad");
    assert_eq!(loaded.style, "piano ballad");
    assert_eq!(loaded.lyrics, "la la la");
    assert_eq!(loaded.tags, vec!["pop".to_string()]);
    assert_eq!(loaded.structure.objective, "relax");
    assert_eq!(loaded.structure.voice, "soft");
    assert_eq!(loaded.structure.mood, "calm");
    assert_eq!(loaded.created_at, 1000);
    assert_eq!(loaded.updated_at, 1000);
    assert_eq!(loaded.created_at, loaded.updated_at);
}

#[test]
fn generated_ids_are_distinct_and_avoid_taken_ones() {
    let cat = catalog();
    let mut store = StoreEngine::new();
    let taken = store.save(&prompt("0", "Explicit", &[]), &cat, 10).unwrap();
    assert_eq!(taken, "0");
    let a = store.save(&prompt("", "A", &[]), &cat, 20).unwrap();
    let b = store.save(&prompt("", "B", &[]), &cat, 30).unwrap();
    assert_ne!(a, "0");
    assert_ne!(b, "0");
    assert_ne!(a, b);
    assert!(store.load(&a).is_ok());
    assert!(store.load(&b).is_ok());
    assert_eq!(store.len(), 3);
}

#[test]
fn duplicate_tag_rejected_and_nothing_persisted() {
    let cat = catalog();
    let mut store = StoreEngine::new();
    let p = prompt("", "Dup", &["pop", "pop"]);
    let err = store.save(&p, &cat, 5).unwrap_err();
    assert_eq!(err, StoreError::Validation(ValidationError::DuplicateTag));
    assert_eq!(store.list().len(), 0);
}

#[test]
fn unknown_tag_rejected() {
    let cat = catalog();
    let mut store = StoreEngine::new();
    let p = prompt("", "Rocky", &["rock"]);
    let err = store.save(&p, &cat, 5).unwrap_err();
    assert_eq!(err, StoreError::Validation(ValidationError::UnknownTag));
    assert_eq!(store.list().len(), 0);
}

#[test]
fn out_of_range_weirdness_rejected_store_unchanged() {
    let cat = catalog();
    let mut store = StoreEngine::new();
    let mut p = prompt("", "Weird", &["pop"]);
    p.advanced = Some(AdvancedParams {
        weirdness: Some(1500),
        style_influence: None,
        vocal_gender: None,
        exclude_styles: None,
    });
    let err = store.save(&p, &cat, 5).unwrap_err();
    assert_eq!(err, StoreError::Validation(ValidationError::OutOfRange));
    assert_eq!(store.list().len(), 0);
}

#[test]
fn missing_structure_field_rejected() {
    let cat = catalog();
    let mut store = StoreEngine::new();
    let mut p = prompt("", "NoMood", &[]);
    p.structure.mood = String::new();
    let err = store.save(&p, &cat, 5).unwrap_err();
    assert_eq!(err, StoreError::Validation(ValidationError::MissingField));
    assert_eq!(store.list().len(), 0);
}

#[test]
fn load_missing_is_not_found() {
    let store = StoreEngine::new();
    assert_eq!(store.load("nope").unwrap_err(), StoreError::NotFound);
}

#[test]
fn delete_twice_fails_second_time() {
    let cat = catalog();
    let mut store = StoreEngine::new();
    let id = store.save(&prompt("song", "S", &[]), &cat, 5).unwrap();
    assert_eq!(id, "song");
    assert!(store.delete(&id).is_ok());
    assert_eq!(store.delete(&id).unwrap_err(), StoreError::NotFound);
    assert_eq!(store.load(&id).unwrap_err(), StoreError::NotFound);
}

#[test]
fn list_orders_by_recency_most_recent_first() {
    let cat = catalog();
    let mut store = StoreEngine::new();
    let a = store.save(&prompt("", "A", &[]), &cat, 100).unwrap();
    let b = store.save(&prompt("", "B", &[]), &cat, 200).unwrap();
    let listing = store.list();
    assert_eq!(listing.len(), 2);
    assert_eq!(listing[0].id, b);
    assert_eq!(listing[1].id, a);
    // Updating A makes it the most recent again.
    let mut pa = prompt(&a, "A2", &[]);
    pa.id = a.clone();
    store.save(&pa, &cat, 300).unwrap();
    let listing = store.list();
    assert_eq!(listing[0].id, a);
    assert_eq!(listing[0].name, "A2");
    assert_eq!(listing[1].id, b);
}

#[test]
fn list_breaks_ties_by_id_ascending() {
    // restore preserves persisted timestamps, so two prompts can share an
    // update instant.
    let mut pa = prompt("b", "Second", &[]);
    pa.created_at = 50;
    pa.updated_at = 70;
    let mut pb = prompt("a", "First", &[]);
    pb.created_at = 60;
    pb.updated_at = 70;
    let store = StoreEngine::restore(vec![pa, pb]);
    let listing = store.list();
    assert_eq!(listing.len(), 2);
    assert_eq!(listing[0].id, "a");
    assert_eq!(listing[1].id, "b");
}

#[test]
fn update_preserves_created_at_and_bumps_updated_at() {
    let cat = catalog();
    let mut store = StoreEngine::new();
    store.save(&prompt("x", "Old", &[]), &cat, 100).unwrap();
    let before = store.load("x").unwrap();
    assert_eq!(before.created_at, 100);
    assert_eq!(before.updated_at, 100);
    let renamed = prompt("x", "New", &[]);
    store.save(&renamed, &cat, 200).unwrap();
    let after = store.load("x").unwrap();
    assert_eq!(after.name, "New");
    assert_eq!(after.created_at, 100);
    assert_eq!(after.updated_at, 200);
    assert!(after.updated_at > before.updated_at);
}

#[test]
fn update_with_stale_clock_still_moves_forward() {
    let cat = catalog();
    let mut store = StoreEngine::new();
    store.save(&prompt("x", "Old", &[]), &cat, 100).unwrap();
    store.save(&prompt("x", "New", &[]), &cat, 50).unwrap();
    let after = store.load("x").unwrap();
    assert_eq!(after.created_at, 100);
    assert_eq!(after.updated_at, 101);
}

#[test]
fn create_with_explicit_id_uses_caller_timestamps_not_at_all() {
    let cat = catalog();
    let mut store = StoreEngine::new();
    let mut p = prompt("y", "Stamps", &[]);
    p.created_at = 77;
    p.updated_at = 88;
    store.save(&p, &cat, 5).unwrap();
    let loaded = store.load("y").unwrap();
    assert_eq!(loaded.created_at, 5);
    assert_eq!(loaded.updated_at, 5);
}

#[test]
fn restore_skips_bad_entries_and_keeps_the_rest() {
    let mut good = prompt("keep", "Good", &[]);
    good.created_at = 10;
    good.updated_at = 20;
    let mut broken = prompt("bad", "Broken", &[]);
    broken.structure.objective = String::new();
    broken.created_at = 1;
    broken.updated_at = 2;
    let mut inverted = prompt("late", "Inverted", &[]);
    inverted.created_at = 30;
    inverted.updated_at = 20;
    let mut dup = prompt("keep", "Shadowed", &[]);
    dup.created_at = 1;
    dup.updated_at = 99;
    let store = StoreEngine::restore(vec![good, broken, inverted, dup]);
    let listing = store.list();
    assert_eq!(listing.len(), 1);
    assert_eq!(listing[0].id, "keep");
    let kept = store.load("keep").unwrap();
    assert_eq!(kept.name, "Good");
    assert_eq!(kept.created_at, 10);
    assert_eq!(kept.updated_at, 20);
    assert_eq!(store.load("bad").unwrap_err(), StoreError::NotFound);
}

#[test]
fn save_keeps_optional_fields() {
    let cat = catalog();
    let mut store = StoreEngine::new();
    let mut p = prompt("opt", "Full", &["pop"]);
    p.structure.tempo = Some("slow".to_string());
    p.structure.duration = Some("3:30".to_string());
    p.advanced = Some(AdvancedParams {
        weirdness: Some(250),
        style_influence: Some(1000),
        vocal_gender: Some("female".to_string()),
        exclude_styles: Some(vec!["metal".to_string()]),
    });
    p.template = Some(true);
    p.favorite = Some(false);
    p.notes = Some("a note".to_string());
    store.save(&p, &cat, 7).unwrap();
    let loaded = store.load("opt").unwrap();
    assert_eq!(loaded.structure.tempo.as_deref(), Some("slow"));
    assert_eq!(loaded.structure.duration.as_deref(), Some("3:30"));
    let adv = loaded.advanced.expect("advanced kept");
    assert_eq!(adv.weirdness, Some(250));
    assert_eq!(adv.style_influence, Some(1000));
    assert_eq!(adv.vocal_gender.as_deref(), Some("female"));
    assert_eq!(adv.exclude_styles, Some(vec!["metal".to_string()]));
    assert_eq!(loaded.template, Some(true));
    assert_eq!(loaded.favorite, Some(false));
    assert_eq!(loaded.notes.as_deref(), Some("a note"));
}

#[test]
fn exclude_styles_may_reference_unknown_tags() {
    let cat = catalog();
    let mut store = StoreEngine::new();
    let mut p = prompt("ex", "Excludes", &["pop"]);
    p.advanced = Some(AdvancedParams {
        weirdness: None,
        style_influence: None,
        vocal_gender: None,
        exclude_styles: Some(vec!["long-gone-tag".to_string()]),
    });
    assert!(store.save(&p, &cat, 7).is_ok());
}
