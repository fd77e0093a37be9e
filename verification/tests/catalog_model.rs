use prompt_library::get_tags;
use prompt_library::greet;
use prompt_library::validate;
use prompt_library::AdvancedParams;
use prompt_library::CoOccurrence;
use prompt_library::Prompt;
use prompt_library::PromptStructure;
use prompt_library::Tag;
use prompt_library::TagCatalog;
use prompt_library::ValidationError;

fn plain_tag(id: &str, category: &str, usage: &str) -> Tag {
    Tag {
        id: id.to_string(),
        name: id.to_string(),
        category: category.to_string(),
        description: String::new(),
        usage: usage.to_string(),
        synonyms: None,
        examples: None,
        co_occurrence: None,
        metadata: None,
    }
}

fn valid_prompt() -> Prompt {
    Prompt {
        id: String::new(),
        name: "P".to_string(),
        created_at: 0,
        updated_at: 0,
        style: "style".to_string(),
        lyrics: "words".to_string(),
        tags: vec![],
        structure: PromptStructure {
            objective: "relax".to_string(),
            voice: "soft".to_string(),
            mood: "calm".to_string(),
            tempo: None,
            duration: None,
        },
        advanced: None,
        template: None,
        favorite: None,
        notes: None,
    }
}

#[test]
fn bundled_dataset_has_the_pop_tag() {
    let tags = get_tags();
    assert_eq!(tags.len(), 1);
    let tag = &tags[0];
    assert_eq!(tag.id, "pop");
    assert_eq!(tag.name, "Pop");
    assert_eq!(tag.category, "genre");
    assert_eq!(tag.description, "Popular music genre with catchy melodies");
    assert_eq!(tag.usage, "style");
    assert_eq!(tag.synonyms, Some(vec!["pop music".to_string()]));
    assert!(tag.examples.is_none());
    assert!(tag.co_occurrence.is_none());
    assert!(tag.metadata.is_none());
}

#[test]
fn catalog_lookup_and_existence() {
    let cat = TagCatalog::try_new(get_tags()).unwrap();
    assert!(cat.has_tag("pop"));
    assert!(!cat.has_tag("rock"));
    let tag = cat.get("pop").expect("pop exists");
    assert_eq!(tag.name, "Pop");
    assert!(cat.get("rock").is_none());
}

#[test]
fn catalog_rejects_duplicate_identifiers() {
    let tags = vec![plain_tag("a", "genre", "style"), plain_tag("a", "mood", "both")];
    assert!(TagCatalog::try_new(tags).is_none());
}

#[test]
fn filter_by_category_and_usage_keeps_declaration_order() {
    let tags = vec![
        plain_tag("a", "genre", "style"),
        plain_tag("b", "mood", "both"),
        plain_tag("c", "genre", "lyrics"),
    ];
    let cat = TagCatalog::try_new(tags).unwrap();
    let all = cat.filter(None, None);
    assert_eq!(all.len(), 3);
    assert_eq!(all[0].id, "a");
    assert_eq!(all[1].id, "b");
    assert_eq!(all[2].id, "c");
    let genres = cat.filter(Some("genre"), None);
    assert_eq!(genres.len(), 2);
    assert_eq!(genres[0].id, "a");
    assert_eq!(genres[1].id, "c");
    let genre_lyrics = cat.filter(Some("genre"), Some("lyrics"));
    assert_eq!(genre_lyrics.len(), 1);
    assert_eq!(genre_lyrics[0].id, "c");
    assert_eq!(cat.filter(Some("tempo"), None).len(), 0);
}

#[test]
fn co_occurrence_hints_surface_the_dataset() {
    let mut with_hints = plain_tag("jazz", "genre", "style");
    with_hints.co_occurrence = Some(CoOccurrence {
        strong: vec!["swing".to_string()],
        avoid: vec!["metal".to_string()],
    });
    let tags = vec![with_hints, plain_tag("swing", "genre", "style")];
    let cat = TagCatalog::try_new(tags).unwrap();
    let hints = cat.co_occurrence_hints("jazz").expect("hints stored");
    assert_eq!(hints.strong, vec!["swing".to_string()]);
    assert_eq!(hints.avoid, vec!["metal".to_string()]);
    assert!(cat.co_occurrence_hints("swing").is_none());
    assert!(cat.co_occurrence_hints("missing").is_none());
}

#[test]
fn validate_accepts_a_proper_prompt() {
    assert!(validate(&valid_prompt()).is_ok());
}

#[test]
fn validate_rejects_empty_required_fields() {
    let mut p = valid_prompt();
    p.structure.objective = String::new();
    assert_eq!(validate(&p).unwrap_err(), ValidationError::MissingField);
    let mut p = valid_prompt();
    p.structure.voice = String::new();
    assert_eq!(validate(&p).unwrap_err(), ValidationError::MissingField);
    let mut p = valid_prompt();
    p.structure.mood = String::new();
    assert_eq!(validate(&p).unwrap_err(), ValidationError::MissingField);
}

#[test]
fn validate_checks_numeric_ranges_inclusive() {
    let mut p = valid_prompt();
    p.advanced = Some(AdvancedParams {
        weirdness: Some(1000),
        style_influence: Some(0),
        vocal_gender: None,
        exclude_styles: None,
    });
    assert!(validate(&p).is_ok());
    let mut p = valid_prompt();
    p.advanced = Some(AdvancedParams {
        weirdness: None,
        style_influence: Some(1001),
        vocal_gender: None,
        exclude_styles: None,
    });
    assert_eq!(validate(&p).unwrap_err(), ValidationError::OutOfRange);
}

#[test]
fn validate_reports_duplicate_tags() {
    let mut p = valid_prompt();
    p.tags = vec!["x".to_string(), "y".to_string(), "x".to_string()];
    assert_eq!(validate(&p).unwrap_err(), ValidationError::DuplicateTag);
}

#[test]
fn validate_reports_missing_field_before_other_faults() {
    let mut p = valid_prompt();
    p.structure.mood = String::new();
    p.tags = vec!["x".to_string(), "x".to_string()];
    assert_eq!(validate(&p).unwrap_err(), ValidationError::MissingField);
}

#[test]
fn greet_formats_the_welcome_line() {
    assert_eq!(greet("Ada"), "Hello, Ada! Welcome to Suno Prompt Architect!");
    assert_eq!(greet(""), "Hello, ! Welcome to Suno Prompt Architect!");
}
