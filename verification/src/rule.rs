//! The compiled rule model: metadata, log-source selector, and the named
//! detection entries that the condition expression combines. The model is
//! pure data; matching lives in `urule`.

use vstd::prelude::*;
use crate::table::{assoc_lookup, assoc_unique, assoc_get, assoc_set};

verus! {

/// Why a rule was rejected at load time.
#[derive(Debug, Clone, Copy, PartialEq, Eq, Structural)]
pub enum SigmaError {
    /// The detection map has no `condition` entry.
    MissingCondition,
    /// The `condition` entry is not a `Condition` variant.
    InvalidConditionFormat,
    /// An aggregation clause names a function that needs an argument without
    /// one.
    InvalidAggregation,
    /// The condition text does not follow the condition grammar.
    InvalidCondition,
    /// The condition references a name that is not a usable selector.
    UnknownSelector,
    /// A quantifier pattern matches no selector.
    EmptyPattern,
}

/// An expected value inside a `Selection` entry. `Text(None)` marks a field
/// that must be absent or empty; a list applies its comparator element-wise.
#[derive(Debug)]
pub enum SigmaValues {
    Text(Option<String>),
    Int(i32),
    Array(Vec<SigmaValues>),
}

/// One named detection entry of a rule.
#[derive(Debug)]
pub enum SigmaRuleDetection {
    /// The boolean expression combining the other entries.
    Condition(String),
    /// Keywords matched against the raw message with OR semantics.
    Keywords(Vec<String>),
    /// Field requirements matched with AND semantics across all pairs.
    Selection(Vec<(String, SigmaValues)>),
}

/// The ordered map from selector name to detection entry, keys unique.
#[derive(Debug)]
pub struct DetectionMap {
    entries: Vec<(String, SigmaRuleDetection)>,
}

impl DetectionMap {
    /// The entries, in insertion order.
    pub closed spec fn entries(self) -> Seq<(String, SigmaRuleDetection)> {
        self.entries@
    }

    /// The entry bound to `name`, if any.
    pub open spec fn spec_get(self, name: Seq<char>) -> Option<SigmaRuleDetection> {
        assoc_lookup(self.entries(), name)
    }

    /// No selector name occurs twice.
    pub open spec fn wf(self) -> bool {
        assoc_unique(self.entries())
    }

    pub fn new() -> (r: DetectionMap)
        ensures
            r.wf(),
            r.entries() == Seq::<(String, SigmaRuleDetection)>::empty(),
    {
        DetectionMap { entries: Vec::new() }
    }

    /// Binds `name` to `entry`, replacing any previous binding.
    pub fn insert(&mut self, name: String, entry: SigmaRuleDetection)
        requires
            old(self).wf(),
        ensures
            final(self).wf(),
            final(self).spec_get(name@) == Option::Some(entry),
            forall|other: Seq<char>|
                other != name@ ==> final(self).spec_get(other) == old(self).spec_get(other),
            final(self).entries().len() == old(self).entries().len() + (if old(self).spec_get(
                name@,
            ) is None {
                1int
            } else {
                0int
            }),
    {
        assoc_set(&mut self.entries, name, entry);
    }

    /// The entry bound to `name`, if any.
    pub fn get(&self, name: &str) -> (r: Option<&SigmaRuleDetection>)
        ensures
            match r {
                Option::Some(e) => self.spec_get(name@) == Option::Some(*e),
                Option::None => self.spec_get(name@) is None,
            },
    {
        assoc_get(&self.entries, name)
    }

    /// How many entries the map holds.
    pub fn len(&self) -> (r: usize)
        ensures
            r == self.entries().len(),
    {
        self.entries.len()
    }

    /// The entry at a position, in insertion order.
    pub fn entry_at(&self, i: usize) -> (r: (&String, &SigmaRuleDetection))
        requires
            i < self.entries().len(),
        ensures
            *r.0 == self.entries()[i as int].0,
            *r.1 == self.entries()[i as int].1,
    {
        let pair = &self.entries[i];
        (&pair.0, &pair.1)
    }
}

/// The log-source selector: each part is optional, with the empty string
/// standing for an absent part.
#[derive(Debug, Clone)]
pub struct SigmaRuleLogSource {
    pub category: String,
    pub product: String,
    pub service: String,
    pub definition: String,
}

/// A detection rule: metadata, log source, named detection entries and the
/// condition text combining them.
#[derive(Debug)]
pub struct SigmaRule {
    /// A brief title for what the rule detects.
    pub title: String,
    /// A stable, globally unique identifier.
    pub id: String,
    /// A short description of the detected activity.
    pub description: String,
    /// Sources the rule was derived from.
    pub references: Vec<String>,
    /// One of `stable`, `test` or `experimental`.
    pub status: String,
    /// License of the rule.
    pub license: String,
    /// Creator of the rule.
    pub author: String,
    /// Creation date of the rule.
    pub date: String,
    /// The log data the detection applies to.
    pub logsource: SigmaRuleLogSource,
    /// The named search identifiers, one of which must be `condition`.
    pub detection: DetectionMap,
    /// Log fields of interest for further analysis.
    pub fields: Vec<String>,
    /// Known benign causes of matches.
    pub falsepositives: Vec<String>,
    /// Criticality of a match.
    pub level: String,
    /// Free-form labels.
    pub tags: Vec<String>,
    /// Free-form parameters, keys unique.
    pub parameters: Vec<(String, String)>,
}

impl SigmaRule {
    /// A rule with the given metadata, an empty condition entry, and every
    /// other part at its default.
    pub fn new(title: String, description: String, author: String, status: String) -> (r:
        SigmaRule)
        ensures
            r.title == title,
            r.description == description,
            r.author == author,
            r.status == status,
            r.id@ == Seq::<char>::empty(),
            r.detection.wf(),
            r.detection.entries().len() == 1,
            r.detection.spec_get("condition"@) matches Option::Some(e) && (e matches
                SigmaRuleDetection::Condition(t) && t@ == Seq::<char>::empty()),
            r.logsource.category@ == Seq::<char>::empty(),
            r.logsource.product@ == Seq::<char>::empty(),
            r.logsource.service@ == Seq::<char>::empty(),
            r.logsource.definition@ == Seq::<char>::empty(),
            r.license@ == Seq::<char>::empty(),
            r.date@ == Seq::<char>::empty(),
            r.level@ == Seq::<char>::empty(),
            r.references@ == Seq::<String>::empty(),
            r.fields@ == Seq::<String>::empty(),
            r.falsepositives@ == Seq::<String>::empty(),
            r.tags@ == Seq::<String>::empty(),
            r.parameters@ == Seq::<(String, String)>::empty(),
    {
        proof {
            reveal_strlit("");
            assert(""@ =~= Seq::<char>::empty());
        }
        let mut detection = DetectionMap::new();
        detection.insert("condition".to_owned(), SigmaRuleDetection::Condition("".to_owned()));
        SigmaRule {
            title,
            id: "".to_owned(),
            description,
            references: Vec::new(),
            license: String::new(),
            status,
            author,
            date: "".to_owned(),
            logsource: SigmaRuleLogSource {
                category: "".to_owned(),
                product: "".to_owned(),
                service: "".to_owned(),
                definition: "".to_owned(),
            },
            detection,
            fields: Vec::new(),
            falsepositives: Vec::new(),
            level: "".to_owned(),
            tags: Vec::new(),
            parameters: Vec::new(),
        }
    }
}

/// Default for free-text metadata fields: the empty string, which also
/// marks an absent log-source part.
pub fn default_string() -> (r: String)
    ensures
        r@ == Seq::<char>::empty(),
{
    String::new()
}

/// Default for list-valued fields.
pub fn default_vector() -> (r: Vec<String>)
    ensures
        r@ == Seq::<String>::empty(),
{
    Vec::new()
}

/// Default for the free-form parameter map.
pub fn default_string_tree() -> (r: Vec<(String, String)>)
    ensures
        r@ == Seq::<(String, String)>::empty(),
{
    Vec::new()
}

/// Default severity level.
pub fn default_level() -> (r: String)
    ensures
        r@ == "info"@,
{
    "info".to_owned()
}

/// Default rule status.
pub fn default_status() -> (r: String)
    ensures
        r@ == "experimental"@,
{
    "experimental".to_owned()
}

/// Default rule author: a free-text field, so the empty string.
pub fn default_author() -> (r: String)
    ensures
        r@ == Seq::<char>::empty(),
{
    String::new()
}

} // verus!
