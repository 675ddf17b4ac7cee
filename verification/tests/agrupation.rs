use usiem_sigma::rule::{SigmaRule, SigmaRuleDetection};
use usiem_sigma::urule::agrupation::{agrupation_from_rule, agrupation_of_condition, SigmaAgrupation};

fn test_rule() -> SigmaRule {
    SigmaRule::new(
        String::from("Test1"),
        String::from("Test1"),
        String::from("Test1"),
        String::from("testing"),
    )
}

#[test]
fn test_agrupation_count() {
    let mut rule = test_rule();
    let condition =
        SigmaRuleDetection::Condition(String::from("algo:true | count(username) by password"));
    rule.detection.insert(String::from("condition"), condition);

    let check = agrupation_from_rule(&rule).unwrap();
    match &check {
        SigmaAgrupation::CountParamBy(param, agr) => {
            assert_eq!(param, "username");
            assert_eq!(agr, "password");
        }
        _ => {
            panic!("Invalid agrupation")
        }
    };
}

#[test]
fn test_agrupation_count_empty() {
    let mut rule = test_rule();
    let condition = SigmaRuleDetection::Condition(String::from("algo:true | count() by password"));
    rule.detection.insert(String::from("condition"), condition);

    let check = agrupation_from_rule(&rule).unwrap();
    match &check {
        SigmaAgrupation::Count(agr) => {
            assert_eq!(agr, "password");
        }
        _ => {
            panic!("Invalid agrupation")
        }
    };
}

#[test]
fn test_agrupation_max() {
    let mut rule = test_rule();
    let condition = SigmaRuleDetection::Condition(String::from("algo:true | max(bytes) by username"));
    rule.detection.insert(String::from("condition"), condition);

    let check = agrupation_from_rule(&rule).unwrap();
    match &check {
        SigmaAgrupation::Max(param, agr) => {
            assert_eq!(param, "bytes");
            assert_eq!(agr, "username");
        }
        _ => {
            panic!("Invalid agrupation")
        }
    };
}

#[test]
fn test_agrupation_sum() {
    let mut rule = test_rule();
    let condition = SigmaRuleDetection::Condition(String::from("algo:true | sum(bytes) by username"));
    rule.detection.insert(String::from("condition"), condition);

    let check = agrupation_from_rule(&rule).unwrap();
    match &check {
        SigmaAgrupation::Sum(param, agr) => {
            assert_eq!(param, "bytes");
            assert_eq!(agr, "username");
        }
        _ => {
            panic!("Invalid agrupation")
        }
    };
}

#[test]
fn test_agrupation_avg() {
    let mut rule = test_rule();
    let condition = SigmaRuleDetection::Condition(String::from("algo:true | avg(bytes) by username"));
    rule.detection.insert(String::from("condition"), condition);

    let check = agrupation_from_rule(&rule).unwrap();
    match &check {
        SigmaAgrupation::Avg(param, agr) => {
            assert_eq!(param, "bytes");
            assert_eq!(agr, "username");
        }
        _ => {
            panic!("Invalid agrupation")
        }
    };
}

#[test]
fn test_agrupation_min() {
    let mut rule = test_rule();
    let condition = SigmaRuleDetection::Condition(String::from("algo:true | min(bytes) by username"));
    rule.detection.insert(String::from("condition"), condition);

    let check = agrupation_from_rule(&rule).unwrap();
    match &check {
        SigmaAgrupation::Min(param, agr) => {
            assert_eq!(param, "bytes");
            assert_eq!(agr, "username");
        }
        _ => {
            panic!("Invalid agrupation")
        }
    };
}

#[test]
fn agrupation_count_of_condition() {
    match agrupation_of_condition("selection | count() by dst_ip").unwrap() {
        SigmaAgrupation::Count(g) => assert_eq!(g, "dst_ip"),
        _ => panic!("expected a plain count"),
    }
}

#[test]
fn agrupation_count_distinct_of_condition() {
    match agrupation_of_condition("selection | count(src_user) by dst_ip").unwrap() {
        SigmaAgrupation::CountParamBy(p, g) => {
            assert_eq!(p, "src_user");
            assert_eq!(g, "dst_ip");
        }
        _ => panic!("expected a distinct count"),
    }
}

#[test]
fn agrupation_max_of_condition() {
    match agrupation_of_condition("selection | max(bytes) by username").unwrap() {
        SigmaAgrupation::Max(p, g) => {
            assert_eq!(p, "bytes");
            assert_eq!(g, "username");
        }
        _ => panic!("expected a maximum"),
    }
}

#[test]
fn agrupation_absent_without_by() {
    match agrupation_of_condition("selection").unwrap() {
        SigmaAgrupation::NoAgrupation => {}
        _ => panic!("a condition without ` by ` has no aggregation"),
    }
}

#[test]
fn agrupation_permissive_by_without_clause() {
    match agrupation_of_condition("selection_by_user and by_field").unwrap() {
        SigmaAgrupation::NoAgrupation => {}
        _ => panic!("a ` by ` that fits no clause is not an aggregation"),
    }
}

#[test]
fn agrupation_rejects_argumentless_max() {
    let mut rule = test_rule();
    let condition = SigmaRuleDetection::Condition(String::from("algo:true | max() by username"));
    rule.detection.insert(String::from("condition"), condition);
    assert!(agrupation_from_rule(&rule).is_err());
}

#[test]
fn agrupation_rejects_two_clauses() {
    assert!(agrupation_of_condition("selection | count() by a count() by b").is_err());
}
