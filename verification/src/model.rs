//! Entity model: the data types a prompt library works with, their
//! mathematical views, and the validation rules a prompt must satisfy before
//! it may be persisted.

use vstd::prelude::*;

verus! {

/// Fixed-point scale for the advanced numeric parameters: a stored value `v`
/// stands for the fraction `v / PARAM_SCALE` of the unit interval, so the
/// admissible range `[0.0, 1.0]` is exactly `0 ..= PARAM_SCALE`.
pub const PARAM_SCALE: u32 = 1000;

/// Advisory pairing hints for a tag: identifiers of tags commonly combined
/// with it (`strong`) and of tags that conflict with it (`avoid`).
#[derive(Debug)]
pub struct CoOccurrence {
    pub strong: Vec<String>,
    pub avoid: Vec<String>,
}

/// Mathematical view of [`CoOccurrence`].
pub struct CoOccurrenceV {
    pub strong: Seq<Seq<char>>,
    pub avoid: Seq<Seq<char>>,
}

impl View for CoOccurrence {
    type V = CoOccurrenceV;

    open spec fn view(&self) -> CoOccurrenceV {
        CoOccurrenceV { strong: self.strong.deep_view(), avoid: self.avoid.deep_view() }
    }
}

impl DeepView for CoOccurrence {
    type V = CoOccurrenceV;

    open spec fn deep_view(&self) -> CoOccurrenceV {
        self.view()
    }
}

/// One entry of the bundled tag taxonomy. Tags are immutable: they are loaded
/// once into a catalog and never changed at run time. The `metadata` field
/// keeps an open-ended mapping as key/value pairs of plain text, each value
/// being the structured-text rendering of whatever the dataset carries.
#[derive(Debug)]
pub struct Tag {
    pub id: String,
    pub name: String,
    pub category: String,
    pub description: String,
    /// Where the tag may be applied: `"style"`, `"lyrics"` or `"both"`.
    pub usage: String,
    pub synonyms: Option<Vec<String>>,
    pub examples: Option<Vec<String>>,
    pub co_occurrence: Option<CoOccurrence>,
    pub metadata: Option<Vec<(String, String)>>,
}

/// Mathematical view of [`Tag`].
pub struct TagV {
    pub id: Seq<char>,
    pub name: Seq<char>,
    pub category: Seq<char>,
    pub description: Seq<char>,
    pub usage: Seq<char>,
    pub synonyms: Option<Seq<Seq<char>>>,
    pub examples: Option<Seq<Seq<char>>>,
    pub co_occurrence: Option<CoOccurrenceV>,
    pub metadata: Option<Seq<(Seq<char>, Seq<char>)>>,
}

impl View for Tag {
    type V = TagV;

    open spec fn view(&self) -> TagV {
        TagV {
            id: self.id@,
            name: self.name@,
            category: self.category@,
            description: self.description@,
            usage: self.usage@,
            synonyms: self.synonyms.deep_view(),
            examples: self.examples.deep_view(),
            co_occurrence: self.co_occurrence.deep_view(),
            metadata: self.metadata.deep_view(),
        }
    }
}

impl DeepView for Tag {
    type V = TagV;

    open spec fn deep_view(&self) -> TagV {
        self.view()
    }
}

/// The required structural part of a prompt: `objective`, `voice` and `mood`
/// must all be non-empty; `tempo` and `duration` are optional.
#[derive(Debug)]
pub struct PromptStructure {
    pub objective: String,
    pub voice: String,
    pub mood: String,
    pub tempo: Option<String>,
    pub duration: Option<String>,
}

/// Mathematical view of [`PromptStructure`].
pub struct PromptStructureV {
    pub objective: Seq<char>,
    pub voice: Seq<char>,
    pub mood: Seq<char>,
    pub tempo: Option<Seq<char>>,
    pub duration: Option<Seq<char>>,
}

impl View for PromptStructure {
    type V = PromptStructureV;

    open spec fn view(&self) -> PromptStructureV {
        PromptStructureV {
            objective: self.objective@,
            voice: self.voice@,
            mood: self.mood@,
            tempo: self.tempo.deep_view(),
            duration: self.duration.deep_view(),
        }
    }
}

impl DeepView for PromptStructure {
    type V = PromptStructureV;

    open spec fn deep_view(&self) -> PromptStructureV {
        self.view()
    }
}

/// Optional fine-tuning parameters. `weirdness` and `style_influence` are
/// fixed-point fractions of the unit interval (see [`PARAM_SCALE`]); values
/// above `PARAM_SCALE` are out of range and rejected by validation, never
/// clamped. `exclude_styles` may name tags that no longer exist in the
/// catalog, so it is not checked against it.
#[derive(Debug)]
pub struct AdvancedParams {
    pub weirdness: Option<u32>,
    pub style_influence: Option<u32>,
    pub vocal_gender: Option<String>,
    pub exclude_styles: Option<Vec<String>>,
}

/// Mathematical view of [`AdvancedParams`].
pub struct AdvancedParamsV {
    pub weirdness: Option<u32>,
    pub style_influence: Option<u32>,
    pub vocal_gender: Option<Seq<char>>,
    pub exclude_styles: Option<Seq<Seq<char>>>,
}

impl View for AdvancedParams {
    type V = AdvancedParamsV;

    open spec fn view(&self) -> AdvancedParamsV {
        AdvancedParamsV {
            weirdness: self.weirdness,
            style_influence: self.style_influence,
            vocal_gender: self.vocal_gender.deep_view(),
            exclude_styles: self.exclude_styles.deep_view(),
        }
    }
}

impl DeepView for AdvancedParams {
    type V = AdvancedParamsV;

    open spec fn deep_view(&self) -> AdvancedParamsV {
        self.view()
    }
}

/// A user-authored unit of work. Timestamps are integral instants (for
/// example milliseconds since an epoch); the store engine owns them: it sets
/// `created_at` once on creation, refreshes `updated_at` on every successful
/// mutation, and never lets `updated_at` fall below `created_at`.
#[derive(Debug)]
pub struct Prompt {
    pub id: String,
    pub name: String,
    pub created_at: u64,
    pub updated_at: u64,
    pub style: String,
    pub lyrics: String,
    pub tags: Vec<String>,
    pub structure: PromptStructure,
    pub advanced: Option<AdvancedParams>,
    pub template: Option<bool>,
    pub favorite: Option<bool>,
    pub notes: Option<String>,
}

/// Mathematical view of [`Prompt`].
pub struct PromptV {
    pub id: Seq<char>,
    pub name: Seq<char>,
    pub created_at: u64,
    pub updated_at: u64,
    pub style: Seq<char>,
    pub lyrics: Seq<char>,
    pub tags: Seq<Seq<char>>,
    pub structure: PromptStructureV,
    pub advanced: Option<AdvancedParamsV>,
    pub template: Option<bool>,
    pub favorite: Option<bool>,
    pub notes: Option<Seq<char>>,
}

impl View for Prompt {
    type V = PromptV;

    open spec fn view(&self) -> PromptV {
        PromptV {
            id: self.id@,
            name: self.name@,
            created_at: self.created_at,
            updated_at: self.updated_at,
            style: self.style@,
            lyrics: self.lyrics@,
            tags: self.tags.deep_view(),
            structure: self.structure@,
            advanced: self.advanced.deep_view(),
            template: self.template,
            favorite: self.favorite,
            notes: self.notes.deep_view(),
        }
    }
}

impl DeepView for Prompt {
    type V = PromptV;

    open spec fn deep_view(&self) -> PromptV {
        self.view()
    }
}

/// What `list` reports of each stored prompt.
#[derive(Debug)]
pub struct PromptSummary {
    pub id: String,
    pub name: String,
    pub created_at: u64,
    pub updated_at: u64,
}

/// Mathematical view of [`PromptSummary`].
pub struct PromptSummaryV {
    pub id: Seq<char>,
    pub name: Seq<char>,
    pub created_at: u64,
    pub updated_at: u64,
}

impl View for PromptSummary {
    type V = PromptSummaryV;

    open spec fn view(&self) -> PromptSummaryV {
        PromptSummaryV {
            id: self.id@,
            name: self.name@,
            created_at: self.created_at,
            updated_at: self.updated_at,
        }
    }
}

impl DeepView for PromptSummary {
    type V = PromptSummaryV;

    open spec fn deep_view(&self) -> PromptSummaryV {
        self.view()
    }
}

/// The summary a stored prompt is reported as.
pub open spec fn summary_of(p: PromptV) -> PromptSummaryV {
    PromptSummaryV { id: p.id, name: p.name, created_at: p.created_at, updated_at: p.updated_at }
}

/// Why a prompt was rejected before anything was written.
#[derive(Debug, Clone, Copy, PartialEq, Eq, Structural)]
pub enum ValidationError {
    /// A required text field (`objective`, `voice` or `mood`) is empty.
    MissingField,
    /// A numeric advanced parameter lies outside `0 ..= PARAM_SCALE`.
    OutOfRange,
    /// The same tag identifier occurs twice in `tags`.
    DuplicateTag,
    /// A tag identifier does not resolve to any tag of the catalog.
    UnknownTag,
}

/// Every way a store operation can fail.
#[derive(Debug, Clone, Copy, PartialEq, Eq, Structural)]
pub enum StoreError {
    /// The prompt was rejected by validation; nothing was written.
    Validation(ValidationError),
    /// No prompt with the given identifier exists.
    NotFound,
    /// Reserved for future optimistic-concurrency checks; never produced yet.
    Conflict,
    /// A persisted entry could not be read back intact.
    Corrupt,
    /// The underlying storage medium failed.
    IoFailure,
}

/// All three required structure fields are present (non-empty).
pub open spec fn structure_complete(s: PromptStructureV) -> bool {
    s.objective.len() > 0 && s.voice.len() > 0 && s.mood.len() > 0
}

/// The numeric advanced parameters, where present, lie in the unit interval.
pub open spec fn advanced_in_range(a: AdvancedParamsV) -> bool {
    &&& (a.weirdness matches Some(w) ==> w <= PARAM_SCALE)
    &&& (a.style_influence matches Some(v) ==> v <= PARAM_SCALE)
}

/// No tag identifier occurs twice.
pub open spec fn tags_distinct(tags: Seq<Seq<char>>) -> bool {
    forall|i: int, j: int| 0 <= i < j < tags.len() ==> tags[i] != tags[j]
}

/// Everything the entity model alone can check of a prompt: complete
/// structure, ranged parameters, no duplicate tag. Tag existence is a
/// cross-component check owned by the store engine.
pub open spec fn prompt_well_formed(p: PromptV) -> bool {
    &&& structure_complete(p.structure)
    &&& (p.advanced matches Some(a) ==> advanced_in_range(a))
    &&& tags_distinct(p.tags)
}

/// Two prompts agree on every field except the timestamps.
pub open spec fn eq_except_times(a: PromptV, b: PromptV) -> bool {
    &&& a.id == b.id
    &&& a.name == b.name
    &&& a.style == b.style
    &&& a.lyrics == b.lyrics
    &&& a.tags == b.tags
    &&& a.structure == b.structure
    &&& a.advanced == b.advanced
    &&& a.template == b.template
    &&& a.favorite == b.favorite
    &&& a.notes == b.notes
}

/// True iff some tag identifier occurs twice in `tags`.
fn has_duplicate(tags: &Vec<String>) -> (dup: bool)
    ensures
        dup == !tags_distinct(tags.deep_view()),
{
    let n = tags.len();
    let mut i: usize = 0;
    while i < n
        invariant
            n == tags.len(),
            i <= n,
            forall|a: int, b: int| 0 <= a < b < n && a < i ==> tags.deep_view()[a] != tags.deep_view()[b],
        decreases n - i,
    {
        let mut j: usize = i + 1;
        while j < n
            invariant
                n == tags.len(),
                i < n,
                i < j <= n,
                forall|b: int| i < b < j ==> tags.deep_view()[i as int] != tags.deep_view()[b],
            decreases n - j,
        {
            if tags[i] == tags[j] {
                assert(tags.deep_view()[i as int] == tags.deep_view()[j as int]);
                return true;
            }
            j += 1;
        }
        i += 1;
    }
    false
}

/// Checks everything the entity model owns: field presence, numeric ranges,
/// duplicate tags. The checks run in that fixed order, so exactly one error
/// is reported when several conditions fail at once.
pub fn validate(p: &Prompt) -> (r: Result<(), ValidationError>)
    ensures
        r is Ok <==> prompt_well_formed(p@),
        r == Err::<(), ValidationError>(ValidationError::MissingField) <==> !structure_complete(
            p@.structure,
        ),
        r == Err::<(), ValidationError>(ValidationError::OutOfRange) <==> structure_complete(
            p@.structure,
        ) && !(p@.advanced matches Some(a) ==> advanced_in_range(a)),
        r == Err::<(), ValidationError>(ValidationError::DuplicateTag) <==> structure_complete(
            p@.structure,
        ) && (p@.advanced matches Some(a) ==> advanced_in_range(a)) && !tags_distinct(p@.tags),
{
    if p.structure.objective.as_str().is_empty() || p.structure.voice.as_str().is_empty()
        || p.structure.mood.as_str().is_empty() {
        return Err(ValidationError::MissingField);
    }
    if let Some(a) = &p.advanced {
        if let Some(w) = a.weirdness {
            if w > PARAM_SCALE {
                return Err(ValidationError::OutOfRange);
            }
        }
        if let Some(v) = a.style_influence {
            if v > PARAM_SCALE {
                return Err(ValidationError::OutOfRange);
            }
        }
    }
    if has_duplicate(&p.tags) {
        return Err(ValidationError::DuplicateTag);
    }
    Ok(())
}

/// Copies a vector of strings element by element.
fn clone_string_vec(v: &Vec<String>) -> (r: Vec<String>)
    ensures
        r.deep_view() == v.deep_view(),
{
    let mut r: Vec<String> = Vec::new();
    let mut i: usize = 0;
    while i < v.len()
        invariant
            i <= v.len(),
            r@.len() == i,
            forall|k: int| 0 <= k < i ==> r.deep_view()[k] == v.deep_view()[k],
        decreases v.len() - i,
    {
        let s = v[i].clone();
        assert(s@ == v.deep_view()[i as int]);
        r.push(s);
        i += 1;
    }
    proof {
        assert(r.deep_view() =~= v.deep_view());
    }
    r
}

/// Copies an optional vector of strings.
fn clone_opt_string_vec(v: &Option<Vec<String>>) -> (r: Option<Vec<String>>)
    ensures
        r.deep_view() == v.deep_view(),
{
    match v {
        Some(v) => Some(clone_string_vec(v)),
        None => None,
    }
}

/// Copies an optional string.
fn clone_opt_string(v: &Option<String>) -> (r: Option<String>)
    ensures
        r.deep_view() == v.deep_view(),
{
    match v {
        Some(s) => Some(s.clone()),
        None => None,
    }
}

impl Clone for CoOccurrence {
    fn clone(&self) -> (r: Self)
        ensures
            r@ == self@,
    {
        CoOccurrence { strong: clone_string_vec(&self.strong), avoid: clone_string_vec(&self.avoid) }
    }
}

impl Clone for Tag {
    fn clone(&self) -> (r: Self)
        ensures
            r@ == self@,
    {
        let metadata: Option<Vec<(String, String)>> = match &self.metadata {
            Some(pairs) => {
                let mut out: Vec<(String, String)> = Vec::new();
                let mut i: usize = 0;
                while i < pairs.len()
                    invariant
                        i <= pairs.len(),
                        out@.len() == i,
                        forall|k: int| 0 <= k < i ==> out.deep_view()[k] == pairs.deep_view()[k],
                    decreases pairs.len() - i,
                {
                    let entry = (pairs[i].0.clone(), pairs[i].1.clone());
                    assert(entry.deep_view() == pairs.deep_view()[i as int]);
                    out.push(entry);
                    i += 1;
                }
                proof {
                    assert(out.deep_view() =~= pairs.deep_view());
                }
                Some(out)
            },
            None => None,
        };
        let co_occurrence = match &self.co_occurrence {
            Some(c) => Some(c.clone()),
            None => None,
        };
        Tag {
            id: self.id.clone(),
            name: self.name.clone(),
            category: self.category.clone(),
            description: self.description.clone(),
            usage: self.usage.clone(),
            synonyms: clone_opt_string_vec(&self.synonyms),
            examples: clone_opt_string_vec(&self.examples),
            co_occurrence,
            metadata,
        }
    }
}

impl Clone for PromptStructure {
    fn clone(&self) -> (r: Self)
        ensures
            r@ == self@,
    {
        PromptStructure {
            objective: self.objective.clone(),
            voice: self.voice.clone(),
            mood: self.mood.clone(),
            tempo: clone_opt_string(&self.tempo),
            duration: clone_opt_string(&self.duration),
        }
    }
}

impl Clone for AdvancedParams {
    fn clone(&self) -> (r: Self)
        ensures
            r@ == self@,
    {
        AdvancedParams {
            weirdness: self.weirdness,
            style_influence: self.style_influence,
            vocal_gender: clone_opt_string(&self.vocal_gender),
            exclude_styles: clone_opt_string_vec(&self.exclude_styles),
        }
    }
}

impl Clone for Prompt {
    fn clone(&self) -> (r: Self)
        ensures
            r@ == self@,
    {
        let advanced = match &self.advanced {
            Some(a) => Some(a.clone()),
            None => None,
        };
        Prompt {
            id: self.id.clone(),
            name: self.name.clone(),
            created_at: self.created_at,
            updated_at: self.updated_at,
            style: self.style.clone(),
            lyrics: self.lyrics.clone(),
            tags: clone_string_vec(&self.tags),
            structure: self.structure.clone(),
            advanced,
            template: self.template,
            favorite: self.favorite,
            notes: clone_opt_string(&self.notes),
        }
    }
}

impl Clone for PromptSummary {
    fn clone(&self) -> (r: Self)
        ensures
            r@ == self@,
    {
        PromptSummary {
            id: self.id.clone(),
            name: self.name.clone(),
            created_at: self.created_at,
            updated_at: self.updated_at,
        }
    }
}

} // verus!
