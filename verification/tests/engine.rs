use std::sync::Arc;
use usiem_sigma::field::{SiemField, SiemLog};
use usiem_sigma::rule::{
    default_author, default_level, default_status, default_string, DetectionMap, SigmaError,
    SigmaRule, SigmaRuleDetection, SigmaRuleLogSource, SigmaValues,
};
use usiem_sigma::urule::agrupation::SigmaAgrupation;
use usiem_sigma::urule::SiemSigmaRule;

fn base_rule(condition: &str) -> SigmaRule {
    let mut rule = SigmaRule::new(
        "Test rule".to_owned(),
        "A rule for tests".to_owned(),
        "tester".to_owned(),
        "testing".to_owned(),
    );
    rule.detection.insert(
        "condition".to_owned(),
        SigmaRuleDetection::Condition(condition.to_owned()),
    );
    rule
}

fn selection(pairs: Vec<(&str, SigmaValues)>) -> SigmaRuleDetection {
    SigmaRuleDetection::Selection(
        pairs.into_iter().map(|(k, v)| (k.to_owned(), v)).collect(),
    )
}

fn text(s: &str) -> SigmaValues {
    SigmaValues::Text(Some(s.to_owned()))
}

#[test]
fn missing_condition_is_rejected() {
    let rule = SigmaRule {
        title: "t".to_owned(),
        id: "".to_owned(),
        description: "".to_owned(),
        references: Vec::new(),
        status: default_status(),
        license: "".to_owned(),
        author: default_author(),
        date: "".to_owned(),
        logsource: SigmaRuleLogSource {
            category: "".to_owned(),
            product: "".to_owned(),
            service: "".to_owned(),
            definition: "".to_owned(),
        },
        detection: DetectionMap::new(),
        fields: Vec::new(),
        falsepositives: Vec::new(),
        level: default_level(),
        tags: Vec::new(),
        parameters: Vec::new(),
    };
    match SiemSigmaRule::new(Arc::new(rule)) {
        Err(SigmaError::MissingCondition) => {}
        _ => panic!("a detection map without a condition entry must be rejected"),
    }
}

#[test]
fn wrong_condition_variant_is_rejected() {
    let mut rule = base_rule("selection");
    rule.detection.insert(
        "condition".to_owned(),
        SigmaRuleDetection::Keywords(vec!["x".to_owned()]),
    );
    match SiemSigmaRule::new(Arc::new(rule)) {
        Err(SigmaError::InvalidConditionFormat) => {}
        _ => panic!("a condition entry of the wrong variant must be rejected"),
    }
}

#[test]
fn unknown_selector_is_rejected() {
    let rule = base_rule("nosuch");
    match SiemSigmaRule::new(Arc::new(rule)) {
        Err(SigmaError::UnknownSelector) => {}
        _ => panic!("an unknown selector name must be rejected at load time"),
    }
}

#[test]
fn grammar_error_is_rejected() {
    let mut rule = base_rule("and and");
    rule.detection
        .insert("selection".to_owned(), selection(vec![("EventID", SigmaValues::Int(1))]));
    match SiemSigmaRule::new(Arc::new(rule)) {
        Err(SigmaError::InvalidCondition) => {}
        _ => panic!("a condition that breaks the grammar must be rejected"),
    }
}

#[test]
fn empty_quantifier_pattern_is_rejected() {
    let mut rule = base_rule("selection and 1 of filter*");
    rule.detection
        .insert("selection".to_owned(), selection(vec![("EventID", SigmaValues::Int(1))]));
    match SiemSigmaRule::new(Arc::new(rule)) {
        Err(SigmaError::EmptyPattern) => {}
        _ => panic!("a quantifier pattern covering no selector must be rejected"),
    }
}

#[test]
fn argumentless_average_is_rejected() {
    let mut rule = base_rule("selection | avg() by user");
    rule.detection
        .insert("selection".to_owned(), selection(vec![("EventID", SigmaValues::Int(1))]));
    match SiemSigmaRule::new(Arc::new(rule)) {
        Err(SigmaError::InvalidAggregation) => {}
        _ => panic!("an argumentless avg must be rejected"),
    }
}

#[test]
fn selection_and_semantics() {
    let mut rule = base_rule("selection");
    rule.detection.insert(
        "selection".to_owned(),
        selection(vec![("EventID", SigmaValues::Int(8)), ("EventLog", text("Security"))]),
    );
    let compiled = SiemSigmaRule::new(Arc::new(rule)).unwrap();

    let mut both = SiemLog::new("m".to_owned());
    both.add_field("EventID", SiemField::U32(8));
    both.add_field("EventLog", SiemField::Text("Security".to_owned()));
    assert!(compiled.clone().match_rule(&both));

    let mut one_off = SiemLog::new("m".to_owned());
    one_off.add_field("EventID", SiemField::U32(8));
    one_off.add_field("EventLog", SiemField::Text("System".to_owned()));
    assert!(!compiled.clone().match_rule(&one_off));
}

#[test]
fn keywords_or_semantics() {
    let mut rule = base_rule("keys");
    rule.detection.insert(
        "keys".to_owned(),
        SigmaRuleDetection::Keywords(vec![
            "mimikatz".to_owned(),
            "lsass".to_owned(),
            "dumper".to_owned(),
        ]),
    );
    let compiled = SiemSigmaRule::new(Arc::new(rule)).unwrap();

    let hit = SiemLog::new("remote thread in lsass observed".to_owned());
    assert!(compiled.clone().match_rule(&hit));

    let miss = SiemLog::new("nothing to see".to_owned());
    assert!(!compiled.clone().match_rule(&miss));
}

#[test]
fn end_to_end_filter_quantifier() {
    let mut rule = base_rule("selection and not 1 of filter*");
    rule.detection
        .insert("selection".to_owned(), selection(vec![("EventID", SigmaValues::Int(15))]));
    rule.detection.insert(
        "filter1".to_owned(),
        selection(vec![("Imphash", text("00000000000000000000000000000000"))]),
    );
    rule.detection
        .insert("filter2".to_owned(), selection(vec![("Imphash", SigmaValues::Text(None))]));
    let compiled = SiemSigmaRule::new(Arc::new(rule)).unwrap();

    let mut clean = SiemLog::new("m".to_owned());
    clean.add_field("EventID", SiemField::U32(15));
    clean.add_field("Imphash", SiemField::Text("1a2b3c".to_owned()));
    assert!(compiled.clone().match_rule(&clean));

    let mut filtered = SiemLog::new("m".to_owned());
    filtered.add_field("EventID", SiemField::U32(15));
    filtered.add_field(
        "Imphash",
        SiemField::Text("00000000000000000000000000000000".to_owned()),
    );
    assert!(!compiled.clone().match_rule(&filtered));
}

#[test]
fn condition_connectives_and_parentheses() {
    let mut rule = base_rule("(a or b) and not c");
    rule.detection.insert("a".to_owned(), selection(vec![("X", SigmaValues::Int(1))]));
    rule.detection.insert("b".to_owned(), selection(vec![("Y", SigmaValues::Int(2))]));
    rule.detection.insert("c".to_owned(), selection(vec![("Z", SigmaValues::Int(3))]));
    let compiled = SiemSigmaRule::new(Arc::new(rule)).unwrap();

    let mut log = SiemLog::new("m".to_owned());
    log.add_field("Y", SiemField::U32(2));
    assert!(compiled.clone().match_rule(&log));

    log.add_field("Z", SiemField::U32(3));
    assert!(!compiled.clone().match_rule(&log));
}

#[test]
fn all_of_quantifier() {
    let mut rule = base_rule("all of sel*");
    rule.detection.insert("sel1".to_owned(), selection(vec![("A", SigmaValues::Int(1))]));
    rule.detection.insert("sel2".to_owned(), selection(vec![("B", SigmaValues::Int(2))]));
    let compiled = SiemSigmaRule::new(Arc::new(rule)).unwrap();

    let mut log = SiemLog::new("m".to_owned());
    log.add_field("A", SiemField::U32(1));
    log.add_field("B", SiemField::U32(2));
    assert!(compiled.clone().match_rule(&log));

    let mut partial = SiemLog::new("m".to_owned());
    partial.add_field("A", SiemField::U32(1));
    assert!(!compiled.clone().match_rule(&partial));
}

#[test]
fn one_of_them_quantifier() {
    let mut rule = base_rule("1 of them");
    rule.detection.insert("sel1".to_owned(), selection(vec![("A", SigmaValues::Int(1))]));
    rule.detection.insert("sel2".to_owned(), selection(vec![("B", SigmaValues::Int(2))]));
    let compiled = SiemSigmaRule::new(Arc::new(rule)).unwrap();

    let mut log = SiemLog::new("m".to_owned());
    log.add_field("B", SiemField::U32(2));
    assert!(compiled.clone().match_rule(&log));

    let none = SiemLog::new("m".to_owned());
    assert!(!compiled.clone().match_rule(&none));
}

#[test]
fn cache_repeats_and_contexts_stay_independent() {
    let mut rule = base_rule("selection");
    rule.detection
        .insert("selection".to_owned(), selection(vec![("EventID", SigmaValues::Int(8))]));
    let compiled = SiemSigmaRule::new(Arc::new(rule)).unwrap();

    let mut hit = SiemLog::new("m".to_owned());
    hit.add_field("EventID", SiemField::U32(8));
    let miss = SiemLog::new("m".to_owned());

    // within one context, repeated resolution of one selector is stable
    let mut ctx = compiled.clone();
    let first = ctx.match_condition("selection", &hit);
    let second = ctx.match_condition("selection", &hit);
    assert!(first);
    assert_eq!(first, second);
    assert!(ctx.match_rule(&hit));

    // a fresh clone carries no cached results from another context
    let mut ctx_hit = compiled.clone();
    let mut ctx_miss = compiled.clone();
    assert!(ctx_hit.match_rule(&hit));
    assert!(!ctx_miss.match_rule(&miss));
    assert!(ctx_hit.clone().match_rule(&hit));
}

#[test]
fn logsource_getters_treat_empty_as_absent() {
    let mut rule = base_rule("selection");
    rule.detection
        .insert("selection".to_owned(), selection(vec![("EventID", SigmaValues::Int(1))]));
    rule.logsource.product = "windows".to_owned();
    rule.logsource.service = "sysmon".to_owned();
    let compiled = SiemSigmaRule::new(Arc::new(rule)).unwrap();
    assert_eq!(compiled.category(), None);
    assert_eq!(compiled.product(), Some("windows"));
    assert_eq!(compiled.service(), Some("sysmon"));
    match compiled.agrupation() {
        SigmaAgrupation::NoAgrupation => {}
        _ => panic!("no aggregation clause was given"),
    }
}

#[test]
fn defaults_table() {
    assert_eq!(default_string(), "");
    assert_eq!(default_status(), "experimental");
    assert_eq!(default_level(), "info");
    assert_eq!(default_author(), "");
}

#[test]
fn empty_condition_text_is_rejected() {
    let rule = SigmaRule::new(
        "t".to_owned(),
        "d".to_owned(),
        "a".to_owned(),
        "testing".to_owned(),
    );
    match SiemSigmaRule::new(Arc::new(rule)) {
        Err(SigmaError::InvalidCondition) => {}
        _ => panic!("an empty condition text fits no expression"),
    }
}

#[test]
fn counted_quantifier_threshold() {
    let mut rule = base_rule("2 of sel*");
    rule.detection.insert("sel1".to_owned(), selection(vec![("A", SigmaValues::Int(1))]));
    rule.detection.insert("sel2".to_owned(), selection(vec![("B", SigmaValues::Int(2))]));
    rule.detection.insert("sel3".to_owned(), selection(vec![("C", SigmaValues::Int(3))]));
    let compiled = SiemSigmaRule::new(Arc::new(rule)).unwrap();

    let mut two = SiemLog::new("m".to_owned());
    two.add_field("A", SiemField::U32(1));
    two.add_field("C", SiemField::U32(3));
    assert!(compiled.clone().match_rule(&two));

    let mut one = SiemLog::new("m".to_owned());
    one.add_field("A", SiemField::U32(1));
    assert!(!compiled.clone().match_rule(&one));
}
