//! Provenance for analysis components.

use vstd::prelude::*;

use super::value::{Confidence, UnitInterval};
use crate::text::{is_blank, same_text, spec_is_blank};

verus! {

/// Broad source category for a component: how a value was produced.
#[derive(Clone, Copy, Debug, PartialEq, Eq, Structural)]
pub enum AnalysisMethod {
    Classical,
    Neural,
    Hybrid,
    Derived,
    Imported,
    Unknown,
}

impl Default for AnalysisMethod {
    fn default() -> (r: Self)
        ensures
            r == AnalysisMethod::Unknown,
    {
        AnalysisMethod::Unknown
    }
}

impl AnalysisMethod {
    /// Every method is valid.
    pub fn validate(&self) -> (r: bool)
        ensures
            r,
    {
        true
    }
}

/// Stable identity of a model or algorithm implementation.
#[derive(Clone, Debug, PartialEq, Eq)]
pub struct ModelIdentity {
    pub id: String,
    pub version: String,
    pub revision: Option<String>,
}

impl Default for ModelIdentity {
    fn default() -> (r: Self)
        ensures
            r.id@.len() == 0,
            r.version@.len() == 0,
            r.revision is None,
    {
        ModelIdentity { id: String::new(), version: String::new(), revision: None }
    }
}

/// Whether an optional text is absent or says something.
pub open spec fn absent_or_told(text: Option<String>) -> bool {
    text matches Some(told) ==> !spec_is_blank(told@)
}

fn is_absent_or_told(text: &Option<String>) -> (r: bool)
    ensures
        r == absent_or_told(*text),
{
    match text {
        Some(told) => !is_blank(told.as_str()),
        None => true,
    }
}

impl ModelIdentity {
    /// Whether the identity names a model and a version.
    pub open spec fn wf(&self) -> bool {
        &&& !spec_is_blank(self.id@)
        &&& !spec_is_blank(self.version@)
        &&& absent_or_told(self.revision)
    }

    pub fn new(name: String, version: String) -> (r: Option<Self>)
        ensures
            r is Some <==> !spec_is_blank(name@) && !spec_is_blank(version@),
            r matches Some(identity) ==> identity == (ModelIdentity {
                id: name,
                version,
                revision: None,
            }) && identity.wf(),
    {
        if !is_blank(name.as_str()) && !is_blank(version.as_str()) {
            Some(ModelIdentity { id: name, version, revision: None })
        } else {
            None
        }
    }

    pub fn named(name: String) -> (r: Option<Self>)
        ensures
            r is Some <==> !spec_is_blank(name@),
            r matches Some(identity) ==> identity.id == name && identity.version@ == "unknown"@
                && identity.revision is None && identity.wf(),
    {
        if !is_blank(name.as_str()) {
            proof {
                reveal_strlit("unknown");
                assert(!crate::text::spec_is_white_space("unknown"@[0]));
            }
            Some(ModelIdentity { id: name, version: "unknown".to_owned(), revision: None })
        } else {
            None
        }
    }

    pub fn validate(&self) -> (r: bool)
        ensures
            r == self.wf(),
    {
        !is_blank(self.id.as_str()) && !is_blank(self.version.as_str()) && is_absent_or_told(
            &self.revision,
        )
    }
}

/// Provenance attached to one independently computed component.
#[derive(Clone, Debug, PartialEq)]
pub struct ComponentProvenance {
    pub component: String,
    pub method: AnalysisMethod,
    pub model: Option<ModelIdentity>,
    pub confidence: Option<Confidence>,
    pub notes: Option<String>,
}

impl Default for ComponentProvenance {
    fn default() -> (r: Self)
        ensures
            r.component@ == "unknown"@,
            r.method == AnalysisMethod::Unknown,
            r.model is None,
            r.confidence is None,
            r.notes is None,
    {
        ComponentProvenance {
            component: "unknown".to_owned(),
            method: AnalysisMethod::Unknown,
            model: None,
            confidence: None,
            notes: None,
        }
    }
}

impl ComponentProvenance {
    /// Whether the component has a name and everything that it tells is valid.
    pub open spec fn wf(&self) -> bool {
        &&& !spec_is_blank(self.component@)
        &&& self.model matches Some(model) ==> model.wf()
        &&& self.confidence matches Some(confidence) ==> confidence.wf()
        &&& absent_or_told(self.notes)
    }

    pub fn new(component: String, method: AnalysisMethod) -> (r: Option<Self>)
        ensures
            r is Some <==> !spec_is_blank(component@),
            r matches Some(provenance) ==> provenance == (ComponentProvenance {
                component,
                method,
                model: None,
                confidence: None,
                notes: None,
            }) && provenance.wf(),
    {
        if !is_blank(component.as_str()) {
            Some(
                ComponentProvenance {
                    component,
                    method,
                    model: None,
                    confidence: None,
                    notes: None,
                },
            )
        } else {
            None
        }
    }

    pub fn validate(&self) -> (r: bool)
        ensures
            r == self.wf(),
    {
        let model_valid: bool = match &self.model {
            Some(model) => model.validate(),
            None => true,
        };
        let confidence_valid: bool = match &self.confidence {
            Some(confidence) => confidence.validate(),
            None => true,
        };
        !is_blank(self.component.as_str()) && self.method.validate() && model_valid
            && confidence_valid && is_absent_or_told(&self.notes)
    }
}

/// Provenance envelope for a complete analysis.
///
/// Named slots keep the production shape explicit; the list remains for further
/// components.
#[derive(Clone, Debug, PartialEq)]
pub struct AnalysisProvenance {
    pub analyzer: String,
    pub schema_version: Option<String>,
    pub components: Vec<ComponentProvenance>,
    pub rhythm: Option<ComponentProvenance>,
    pub structure: Option<ComponentProvenance>,
    pub tonal: Option<ComponentProvenance>,
    pub vocal: Option<ComponentProvenance>,
    pub energy: Option<ComponentProvenance>,
    pub cue: Option<ComponentProvenance>,
    pub cues: Option<ComponentProvenance>,
    pub overall_confidence: Option<UnitInterval>,
}

impl Default for AnalysisProvenance {
    fn default() -> (r: Self)
        ensures
            r.analyzer@ == "unknown"@,
            r.is_bare(),
            r.wf(),
    {
        proof {
            reveal_strlit("unknown");
            assert(!crate::text::spec_is_white_space("unknown"@[0]));
        }
        AnalysisProvenance::bare("unknown".to_owned())
    }
}

/// Whether a named slot is empty or holds a valid component of that name.
pub open spec fn slot_is(slot: Option<ComponentProvenance>, name: Seq<char>) -> bool {
    slot matches Some(component) ==> component.wf() && component.component@ == name
}

/// Whether a cue slot is empty or holds a valid component of either cue name.
pub open spec fn cue_slot_is(slot: Option<ComponentProvenance>) -> bool {
    slot matches Some(component) ==> component.wf() && (component.component@ == "cue"@
        || component.component@ == "cues"@)
}

fn slot_holds(slot: &Option<ComponentProvenance>, name: &str) -> (r: bool)
    ensures
        r == slot_is(*slot, name@),
{
    match slot {
        Some(component) => component.validate() && same_text(component.component.as_str(), name),
        None => true,
    }
}

fn cue_slot_holds(slot: &Option<ComponentProvenance>) -> (r: bool)
    ensures
        r == cue_slot_is(*slot),
{
    slot_holds(slot, "cue") || slot_holds(slot, "cues")
}

impl AnalysisProvenance {
    /// Whether only the analyzer is told.
    pub open spec fn is_bare(&self) -> bool {
        &&& self.schema_version is None
        &&& self.components@.len() == 0
        &&& self.rhythm is None
        &&& self.structure is None
        &&& self.tonal is None
        &&& self.vocal is None
        &&& self.energy is None
        &&& self.cue is None
        &&& self.cues is None
        &&& self.overall_confidence is None
    }

    /// Whether the envelope is valid: everything in it is, each slot holds the
    /// component of its name, and no listed component occurs twice.
    pub open spec fn wf(&self) -> bool {
        &&& !spec_is_blank(self.analyzer@)
        &&& absent_or_told(self.schema_version)
        &&& forall|i: int|
            0 <= i < self.components@.len() ==> (#[trigger] self.components@[i]).wf()
        &&& slot_is(self.rhythm, "rhythm"@)
        &&& slot_is(self.structure, "structure"@)
        &&& slot_is(self.tonal, "tonal"@)
        &&& slot_is(self.vocal, "vocal"@)
        &&& slot_is(self.energy, "energy"@)
        &&& cue_slot_is(self.cue)
        &&& cue_slot_is(self.cues)
        &&& distinct_components(self.components@, self.components@.len() as int)
        &&& self.overall_confidence matches Some(confidence) ==> confidence.wf()
    }

    fn bare(analyzer: String) -> (r: Self)
        ensures
            r.analyzer == analyzer,
            r.is_bare(),
    {
        AnalysisProvenance {
            analyzer,
            schema_version: None,
            components: Vec::new(),
            rhythm: None,
            structure: None,
            tonal: None,
            vocal: None,
            energy: None,
            cue: None,
            cues: None,
            overall_confidence: None,
        }
    }

    pub fn new(analyzer: String) -> (r: Option<Self>)
        ensures
            r is Some <==> !spec_is_blank(analyzer@),
            r matches Some(provenance) ==> provenance.analyzer == analyzer && provenance.is_bare()
                && provenance.wf(),
    {
        if !is_blank(analyzer.as_str()) {
            Some(AnalysisProvenance::bare(analyzer))
        } else {
            None
        }
    }

    pub fn validate(&self) -> (r: bool)
        ensures
            r == self.wf(),
    {
        let confidence_valid: bool = match &self.overall_confidence {
            Some(confidence) => confidence.validate(),
            None => true,
        };
        !is_blank(self.analyzer.as_str()) && is_absent_or_told(&self.schema_version)
            && components_valid(&self.components) && slot_holds(&self.rhythm, "rhythm")
            && slot_holds(&self.structure, "structure") && slot_holds(&self.tonal, "tonal")
            && slot_holds(&self.vocal, "vocal") && slot_holds(&self.energy, "energy")
            && cue_slot_holds(&self.cue) && cue_slot_holds(&self.cues) && components_distinct(
            &self.components,
        ) && confidence_valid
    }
}

/// Whether no two of the first `n` components have one name.
pub open spec fn distinct_components(components: Seq<ComponentProvenance>, n: int) -> bool {
    forall|i: int, j: int|
        0 <= i < j < n ==> (#[trigger] components[i]).component@ != (
        #[trigger] components[j]).component@
}

fn components_valid(components: &Vec<ComponentProvenance>) -> (r: bool)
    ensures
        r == (forall|i: int| 0 <= i < components@.len() ==> (#[trigger] components@[i]).wf()),
{
    let mut i: usize = 0;
    while i < components.len()
        invariant
            i <= components@.len(),
            forall|j: int| 0 <= j < i ==> (#[trigger] components@[j]).wf(),
        decreases components@.len() - i,
    {
        if !components[i].validate() {
            return false;
        }
        i += 1;
    }
    true
}

fn components_distinct(components: &Vec<ComponentProvenance>) -> (r: bool)
    ensures
        r == distinct_components(components@, components@.len() as int),
{
    let mut j: usize = 0;
    while j < components.len()
        invariant
            j <= components@.len(),
            distinct_components(components@, j as int),
        decreases components@.len() - j,
    {
        let mut i: usize = 0;
        while i < j
            invariant
                i <= j < components@.len(),
                forall|k: int|
                    0 <= k < i ==> (#[trigger] components@[k]).component@
                        != components@[j as int].component@,
            decreases j - i,
        {
            if same_text(components[i].component.as_str(), components[j].component.as_str()) {
                return false;
            }
            i += 1;
        }
        j += 1;
    }
    true
}

/// Valid provenance names its analyzer, and each component in the slot of its own name, the
/// cues under either of two; no two components of the list have one name.
pub proof fn components_stand_in_their_own_slot(provenance: AnalysisProvenance)
    requires
        provenance.wf(),
    ensures
        !spec_is_blank(provenance.analyzer@),
        provenance.rhythm matches Some(part) ==> part.component@ == "rhythm"@,
        provenance.structure matches Some(part) ==> part.component@ == "structure"@,
        provenance.tonal matches Some(part) ==> part.component@ == "tonal"@,
        provenance.vocal matches Some(part) ==> part.component@ == "vocal"@,
        provenance.energy matches Some(part) ==> part.component@ == "energy"@,
        provenance.cue matches Some(part) ==> part.component@ == "cue"@ || part.component@
            == "cues"@,
        provenance.cues matches Some(part) ==> part.component@ == "cue"@ || part.component@
            == "cues"@,
        forall|i: int, j: int|
            0 <= i < j < provenance.components@.len() ==> (
            #[trigger] provenance.components@[i]).component@ != (
            #[trigger] provenance.components@[j]).component@,
{
}

} // verus!
