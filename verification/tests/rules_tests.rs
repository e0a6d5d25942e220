use moesif_exproc::event::{BodyValue, RequestInfo, ResponseInfo};
use moesif_exproc::map::StringMap;
use moesif_exproc::rules::{
    check_regex, request_path_lookup, rule_body_templates, template,
    variable_map, BodyTemplate, GovernanceRule, GovernanceRulesResponse, RegexCondition,
    RegexConditionsAnd, ResponseOverride, ResponseOverrides, RuleTemplate, Variable,
};

fn rule(block: bool, status: i32, headers: Vec<(&str, &str)>, body: Option<&str>, groups: Vec<Vec<(&str, &str)>>) -> GovernanceRule {
    let mut hs = StringMap::new();
    for (k, v) in headers {
        hs.insert(k.to_string(), v.to_string());
    }
    GovernanceRule {
        id: "r1".to_string(),
        name: "rule".to_string(),
        type_field: "regex".to_string(),
        block,
        regex_config: groups
            .into_iter()
            .map(|g| RegexConditionsAnd {
                conditions: g
                    .into_iter()
                    .map(|(p, v)| RegexCondition { path: p.to_string(), value: v.to_string() })
                    .collect(),
            })
            .collect(),
        response: ResponseOverrides { body: body.map(|b| BodyTemplate(b.to_string())), headers: hs, status },
        variables: None,
        applied_to: "matching".to_string(),
        applied_to_unidentified: false,
        org_id: "o".to_string(),
        app_id: "a".to_string(),
        created_at: "2024-01-01".to_string(),
    }
}

fn request(uri: &str, verb: &str) -> RequestInfo {
    let mut r = RequestInfo::new();
    r.uri = uri.to_string();
    r.verb = verb.to_string();
    r
}

fn vars(pairs: Vec<(&str, &str)>) -> StringMap<String> {
    let mut m = StringMap::new();
    for (k, v) in pairs {
        m.insert(k.to_string(), v.to_string());
    }
    m
}

#[test]
fn template_fills_every_placeholder() {
    let v = vars(vec![("user", "alice"), ("plan", "gold")]);
    assert_eq!(template("hi {{user}} on {{plan}}, {{user}}!", &v), "hi alice on gold, alice!");
    assert_eq!(template("no placeholders", &v), "no placeholders");
    assert_eq!(template("{{missing}}", &v), "{{missing}}");
}

#[test]
fn template_override_fills_headers_and_body() {
    let t = RuleTemplate {
        rule: rule(true, 429, vec![("X-Reason", "limit for {{user}}")], Some("{\"msg\":\"{{user}}\"}"), vec![]),
        values: vars(vec![("user", "bob")]),
    };
    let o = t.template_override();
    assert!(o.block);
    assert_eq!(o.status, 429);
    assert_eq!(o.headers.get("X-Reason"), Some(&"limit for bob".to_string()));
    assert_eq!(o.body, Some(b"{\"msg\":\"bob\"}".to_vec()));
}

#[test]
fn overrides_merge_in_order() {
    let t1 = RuleTemplate { rule: rule(true, 403, vec![("A", "1"), ("B", "1")], Some("first"), vec![]), values: StringMap::new() };
    let t2 = RuleTemplate { rule: rule(false, 429, vec![("B", "2")], None, vec![]), values: StringMap::new() };
    let response = ResponseInfo { time: "t".to_string(), status: 200, headers: StringMap::new(), ip_address: None, body: BodyValue::Null };
    let o = ResponseOverride::new(response, vec![t1, t2]);
    assert!(o.override_values.block);
    assert_eq!(o.override_values.status, 429);
    assert_eq!(o.override_values.headers.get("A"), Some(&"1".to_string()));
    assert_eq!(o.override_values.headers.get("B"), Some(&"2".to_string()));
    assert_eq!(o.override_values.body, Some(b"first".to_vec()));
    assert!(!o.wrote_headers && !o.wrote_body);
    assert_eq!(o.response.status, 200);

    let none = ResponseOverride::new(
        ResponseInfo { time: String::new(), status: 0, headers: StringMap::new(), ip_address: None, body: BodyValue::Null },
        vec![],
    );
    assert!(!none.override_values.block);
    assert_eq!(none.override_values.status, 0);
    assert!(none.override_values.body.is_none());
}

#[test]
fn path_lookup_knows_uri_and_verb() {
    let r = request("/api/users", "GET");
    assert_eq!(request_path_lookup(&r, "request.uri"), "/api/users");
    assert_eq!(request_path_lookup(&r, "request.verb"), "GET");
    assert_eq!(request_path_lookup(&r, "request.headers.host"), "");
}

#[test]
fn regex_rules_need_one_group_fully_matching() {
    let r = request("/api/users", "POST");
    assert!(check_regex(&rule(false, 0, vec![], None, vec![]), &r));
    assert!(check_regex(&rule(false, 0, vec![], None, vec![vec![("request.uri", "^/api/"), ("request.verb", "POST")]]), &r));
    assert!(!check_regex(&rule(false, 0, vec![], None, vec![vec![("request.uri", "^/api/"), ("request.verb", "GET")]]), &r));
    assert!(check_regex(&rule(false, 0, vec![], None, vec![vec![("request.verb", "GET")], vec![("request.uri", "users$")]]), &r));
    assert!(!check_regex(&rule(false, 0, vec![], None, vec![vec![("request.uri", "(bad")]]), &r));
    assert!(check_regex(&rule(false, 0, vec![], None, vec![vec![]]), &r));
}

#[test]
fn rule_bodies_are_filled_from_variables() {
    let mut with_vars = rule(false, 0, vec![], Some("{\"path\":\"{{p}}\"}"), vec![]);
    with_vars.variables = Some(vec![
        Variable { name: "p".to_string(), path: "request.uri".to_string() },
        Variable { name: "p".to_string(), path: "request.verb".to_string() },
    ]);
    let no_vars = rule(false, 0, vec![], Some("{}"), vec![]);
    let out = rule_body_templates(&vec![no_vars, with_vars]);
    assert_eq!(out, vec!["{\"path\":\"request.verb\"}".to_string()]);
    let m = variable_map(&vec![Variable { name: "a".to_string(), path: "x".to_string() }]);
    assert_eq!(m.get("a"), Some(&"x".to_string()));
}

#[test]
fn rules_reply_is_tagged_with_its_entity_tag() {
    let r = GovernanceRulesResponse::from_reply(
        vec![rule(false, 0, vec![], None, vec![])],
        &vec![("X-MOESIF-CONFIG-ETAG".to_string(), "tag".to_string())],
    );
    assert_eq!(r.rules.len(), 1);
    assert_eq!(r.e_tag.as_deref(), Some("tag"));
}

#[test]
fn template_result_does_not_depend_on_variable_order() {
    let ab = vars(vec![("a", "x"), ("b", "y")]);
    let ba = vars(vec![("b", "y"), ("a", "x")]);
    let t = "{{a}} and {{b}}, {{a}}";
    assert_eq!(template(t, &ab), "x and y, x");
    assert_eq!(template(t, &ab), template(t, &ba));
}
