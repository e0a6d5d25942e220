//! Governance rules: matching requests against a rule's regex conditions,
//! filling response templates with variable values, and merging the
//! overrides of the rules that apply.

use vstd::prelude::*;
use crate::event::{RequestInfo, ResponseInfo};
use crate::headers::{find_header, get_header, pair_views};
use crate::external::{regex_compiles, regex_is_match, regex_search};
use crate::map::{insert_all, keys_distinct, StringMap};
use crate::text::{into_bytes, push_char, replace_all, replace_spec, str_eq};

verus! {

/// The governance rules served by the Moesif API, with their entity tag.
pub struct GovernanceRulesResponse {
    pub rules: Vec<GovernanceRule>,
    pub e_tag: Option<String>,
}

/// One governance rule.
pub struct GovernanceRule {
    pub id: String,
    pub name: String,
    pub type_field: String,
    pub block: bool,
    pub regex_config: Vec<RegexConditionsAnd>,
    pub response: ResponseOverrides,
    pub variables: Option<Vec<Variable>>,
    pub applied_to: String,
    pub applied_to_unidentified: bool,
    pub org_id: String,
    pub app_id: String,
    pub created_at: String,
}

/// Conditions that must all hold.
pub struct RegexConditionsAnd {
    pub conditions: Vec<RegexCondition>,
}

/// A request field and the regex its value must match.
pub struct RegexCondition {
    pub path: String,
    pub value: String,
}

/// What a rule changes in the HTTP response.
pub struct ResponseOverrides {
    pub body: Option<BodyTemplate>,
    pub headers: StringMap<String>,
    pub status: i32,
}

/// A variable usable in templates: its name and the request field it reads.
pub struct Variable {
    pub name: String,
    pub path: String,
}

/// A response body template: the JSON object text it was written as.
pub struct BodyTemplate(pub String);

/// The placeholder `{{name}}` a template writes for a variable.
pub open spec fn placeholder(name: Seq<char>) -> Seq<char> {
    seq!['{', '{'] + name + seq!['}', '}']
}

/// `t` with the placeholder of each variable replaced by its value, the
/// variables taken in order.
pub open spec fn template_spec(t: Seq<char>, vars: Seq<(Seq<char>, Seq<char>)>) -> Seq<char>
    decreases vars.len(),
{
    if vars.len() == 0 {
        t
    } else {
        template_spec(replace_spec(t, placeholder(vars[0].0), vars[0].1), vars.drop_first())
    }
}

fn placeholder_of(name: &String) -> (p: String)
    ensures
        p@ == placeholder(name@),
{
    let mut p = String::new();
    push_char(&mut p, '{');
    push_char(&mut p, '{');
    p.append(name.as_str());
    push_char(&mut p, '}');
    push_char(&mut p, '}');
    assert(p@ =~= placeholder(name@));
    p
}

/// Fills a template: every `{{name}}` is replaced by the variable's value,
/// the variables applied in the map's order.
pub fn template(t: &str, vars: &StringMap<String>) -> (r: String)
    ensures
        r@ == template_spec(t@, vars@),
{
    let mut s = t.to_owned();
    let mut i: usize = 0;
    assert(vars@.skip(0) =~= vars@);
    while i < vars.len()
        invariant
            i <= vars@.len(),
            template_spec(t@, vars@) == template_spec(s@, vars@.skip(i as int)),
        decreases vars@.len() - i,
    {
        assert(vars@.skip(i as int).drop_first() =~= vars@.skip(i + 1));
        assert(vars@.skip(i as int)[0] == vars@[i as int]);
        let p = placeholder_of(vars.key_at(i));
        s = replace_all(s.as_str(), p.as_str(), vars.value_at(i).as_str());
        i = i + 1;
    }
    assert(vars@.skip(i as int) =~= Seq::<(Seq<char>, Seq<char>)>::empty());
    s
}

/// A rule together with the values of its variables.
pub struct RuleTemplate {
    pub rule: GovernanceRule,
    pub values: StringMap<String>,
}

/// The response changes a rule makes once its templates are filled.
pub struct TemplatedOverrideValues {
    pub block: bool,
    pub headers: StringMap<String>,
    pub status: i32,
    pub body: Option<Vec<u8>>,
}

/// The model of filled response changes.
pub struct OverrideModel {
    pub block: bool,
    pub headers: Seq<(Seq<char>, Seq<char>)>,
    pub status: i32,
    pub body: Option<Seq<u8>>,
}

impl View for TemplatedOverrideValues {
    type V = OverrideModel;

    open spec fn view(&self) -> OverrideModel {
        OverrideModel {
            block: self.block,
            headers: self.headers@,
            status: self.status,
            body: match self.body {
                Some(b) => Some(b@),
                None => None,
            },
        }
    }
}

/// Each header value filled with the variables.
pub open spec fn templated_headers(
    hs: Seq<(Seq<char>, Seq<char>)>,
    vars: Seq<(Seq<char>, Seq<char>)>,
) -> Seq<(Seq<char>, Seq<char>)> {
    hs.map_values(|h: (Seq<char>, Seq<char>)| (h.0, template_spec(h.1, vars)))
}

/// The response changes of a rule with its variables filled in: the rule's
/// block flag and status, its headers with filled values, and its body, if
/// any, filled and UTF-8 encoded.
pub open spec fn override_spec(t: RuleTemplate) -> OverrideModel {
    OverrideModel {
        block: t.rule.block,
        headers: templated_headers(t.rule.response.headers@, t.values@),
        status: t.rule.response.status,
        body: match t.rule.response.body {
            Some(b) => Some(vstd::utf8::encode_utf8(template_spec(b.0@, t.values@))),
            None => None,
        },
    }
}

impl RuleTemplate {
    /// The rule's response changes with its templates filled.
    pub fn template_override(&self) -> (r: TemplatedOverrideValues)
        ensures
            r@ == override_spec(*self),
    {
        let src = &self.rule.response.headers;
        src.witness_keys_distinct();
        let ghost hs = templated_headers(src@, self.values@);
        let mut headers: StringMap<String> = StringMap::new();
        let mut i: usize = 0;
        while i < src.len()
            invariant
                i <= src@.len(),
                keys_distinct(src@),
                hs == templated_headers(src@, self.values@),
                headers@ == hs.take(i as int),
            decreases src@.len() - i,
        {
            let v = template(src.value_at(i).as_str(), &self.values);
            let k = src.key_at(i).clone();
            proof {
                crate::map::lemma_insert_skip(headers@, k@, v@, i as int);
                assert(headers@.skip(i as int) =~= Seq::<(Seq<char>, Seq<char>)>::empty());
                assert(headers@.take(i as int) =~= headers@);
            }
            headers.insert(k, v);
            assert(headers@ =~= hs.take(i + 1));
            i = i + 1;
        }
        assert(hs.take(src@.len() as int) =~= hs);
        let body = match &self.rule.response.body {
            Some(b) => Some(into_bytes(template(b.0.as_str(), &self.values))),
            None => None,
        };
        TemplatedOverrideValues {
            block: self.rule.block,
            headers,
            status: self.rule.response.status,
            body,
        }
    }
}

/// The changes after applying `t` on top of `acc`: blocking if either
/// blocks, `t`'s status, `t`'s headers over `acc`'s, and `t`'s body when it
/// has one.
pub open spec fn merge_override(acc: OverrideModel, t: OverrideModel) -> OverrideModel {
    OverrideModel {
        block: acc.block || t.block,
        headers: insert_all(acc.headers, t.headers),
        status: t.status,
        body: if t.body is Some {
            t.body
        } else {
            acc.body
        },
    }
}

/// The changes after applying `ts` in order on top of `acc`.
pub open spec fn merge_all(acc: OverrideModel, ts: Seq<OverrideModel>) -> OverrideModel
    decreases ts.len(),
{
    if ts.len() == 0 {
        acc
    } else {
        merge_all(merge_override(acc, ts[0]), ts.drop_first())
    }
}

/// No change: nothing blocked, status 0, no header, no body.
pub open spec fn no_override() -> OverrideModel {
    OverrideModel { block: false, headers: Seq::empty(), status: 0, body: None }
}

/// The changes of the templates of `ts`, in order.
pub open spec fn overrides_of(ts: Seq<RuleTemplate>) -> Seq<OverrideModel> {
    ts.map_values(|t: RuleTemplate| override_spec(t))
}

/// The response override of a set of applying rules, and the response it
/// applies to.
pub struct ResponseOverride {
    pub override_values: TemplatedOverrideValues,
    pub response: ResponseInfo,
    pub wrote_headers: bool,
    pub wrote_body: bool,
}

impl ResponseOverride {
    /// Merges the changes of the rules in order: the response is blocked if
    /// any rule blocks, the status is the last rule's, a later rule's header
    /// wins over an earlier one's, and the body is the last one given.
    pub fn new(response: ResponseInfo, templates: Vec<RuleTemplate>) -> (r: Self)
        ensures
            r.override_values@ == merge_all(no_override(), overrides_of(templates@)),
            r.response@ == response@,
            !r.wrote_headers,
            !r.wrote_body,
    {
        let ghost ts = overrides_of(templates@);
        let mut override_values = TemplatedOverrideValues {
            block: false,
            headers: StringMap::new(),
            status: 0,
            body: None,
        };
        assert(override_values@ == no_override());
        let mut i: usize = 0;
        assert(ts.skip(0) =~= ts);
        while i < templates.len()
            invariant
                i <= templates@.len(),
                ts == overrides_of(templates@),
                merge_all(no_override(), ts) == merge_all(override_values@, ts.skip(i as int)),
            decreases templates@.len() - i,
        {
            assert(ts.skip(i as int).drop_first() =~= ts.skip(i + 1));
            assert(ts.skip(i as int)[0] == override_spec(templates@[i as int]));
            let t = templates[i].template_override();
            let ghost before = override_values@;
            override_values.block = override_values.block || t.block;
            override_values.status = t.status;
            let mut j: usize = 0;
            assert(t.headers@.skip(0) =~= t.headers@);
            while j < t.headers.len()
                invariant
                    j <= t.headers@.len(),
                    insert_all(before.headers, t.headers@) == insert_all(
                        override_values.headers@,
                        t.headers@.skip(j as int),
                    ),
                    override_values.block == (before.block || t.block),
                    override_values.status == t.status,
                    override_values@.body == before.body,
                decreases t.headers@.len() - j,
            {
                assert(t.headers@.skip(j as int).drop_first() =~= t.headers@.skip(j + 1));
                assert(t.headers@.skip(j as int)[0] == t.headers@[j as int]);
                let k = t.headers.key_at(j).clone();
                let v = t.headers.value_at(j).clone();
                override_values.headers.insert(k, v);
                j = j + 1;
            }
            assert(t.headers@.skip(j as int) =~= Seq::<(Seq<char>, Seq<char>)>::empty());
            if let Some(body) = t.body {
                override_values.body = Some(body);
            }
            assert(override_values@ == merge_override(before, t@));
            i = i + 1;
        }
        assert(ts.skip(i as int) =~= Seq::<OverrideModel>::empty());
        ResponseOverride { override_values, response, wrote_headers: false, wrote_body: false }
    }
}

/// The request field a condition path names: the URI for `request.uri`,
/// the method for `request.verb`, empty text for any other path.
pub open spec fn path_value(req: RequestInfo, path: Seq<char>) -> Seq<char> {
    if path == "request.uri"@ {
        req.uri@
    } else if path == "request.verb"@ {
        req.verb@
    } else {
        Seq::empty()
    }
}

/// Looks up the request field a condition path names.
pub fn request_path_lookup(req: &RequestInfo, path: &str) -> (r: String)
    ensures
        r@ == path_value(*req, path@),
{
    if str_eq(path, "request.uri") {
        req.uri.clone()
    } else if str_eq(path, "request.verb") {
        req.verb.clone()
    } else {
        String::new()
    }
}

/// A condition holds when its regex compiles and matches the field's value.
pub open spec fn condition_holds(c: RegexCondition, req: RequestInfo) -> bool {
    regex_compiles(c.value@) && regex_is_match(c.value@, path_value(req, c.path@))
}

/// All conditions of a group hold.
pub open spec fn group_holds(cs: Seq<RegexCondition>, req: RequestInfo) -> bool {
    forall|i: int| 0 <= i < cs.len() ==> #[trigger] condition_holds(cs[i], req)
}

/// A rule applies to a request when it has no condition group, or when all
/// conditions of one of its groups hold.
pub open spec fn rule_matches(rule: GovernanceRule, req: RequestInfo) -> bool {
    rule.regex_config@.len() == 0 || exists|g: int|
        0 <= g < rule.regex_config@.len() && #[trigger] group_holds(
            rule.regex_config@[g].conditions@,
            req,
        )
}

/// Whether a request meets a rule's conditions: the rule has no condition
/// group, or every condition of one of its groups has a regex that compiles
/// and matches the named request field.
pub fn check_regex(rule: &GovernanceRule, req: &RequestInfo) -> (r: bool)
    ensures
        r == rule_matches(*rule, *req),
{
    if rule.regex_config.len() == 0 {
        return true;
    }
    let mut g: usize = 0;
    while g < rule.regex_config.len()
        invariant
            g <= rule.regex_config@.len(),
            forall|k: int| 0 <= k < g ==> !#[trigger] group_holds(rule.regex_config@[k].conditions@, *req),
        decreases rule.regex_config@.len() - g,
    {
        let conditions = &rule.regex_config[g].conditions;
        let mut all = true;
        let mut i: usize = 0;
        while i < conditions.len() && all
            invariant
                i <= conditions@.len(),
                conditions@ == rule.regex_config@[g as int].conditions@,
                all == forall|k: int| 0 <= k < i ==> #[trigger] condition_holds(conditions@[k], *req),
            decreases conditions@.len() - i,
        {
            let c = &conditions[i];
            let s = request_path_lookup(req, c.path.as_str());
            let holds = match regex_search(c.value.as_str(), s.as_str()) {
                Some(b) => b,
                None => false,
            };
            assert(condition_holds(conditions@[i as int], *req) == holds);
            all = holds;
            i = i + 1;
        }
        if all {
            assert(i == conditions@.len());
            assert(group_holds(rule.regex_config@[g as int].conditions@, *req));
            return true;
        }
        assert(!group_holds(rule.regex_config@[g as int].conditions@, *req));
        g = g + 1;
    }
    false
}

/// The variable map of a rule: each variable's name mapped to its path, a
/// later variable winning over an earlier one with the same name.
pub open spec fn variable_pairs(vs: Seq<Variable>) -> Seq<(Seq<char>, Seq<char>)> {
    vs.map_values(|v: Variable| (v.name@, v.path@))
}

/// The filled body template of each rule that has both a body and variables,
/// in rule order.
pub open spec fn rule_bodies(rules: Seq<GovernanceRule>) -> Seq<Seq<char>>
    decreases rules.len(),
{
    if rules.len() == 0 {
        Seq::empty()
    } else {
        let rest = rule_bodies(rules.drop_first());
        let r = rules[0];
        if r.response.body is Some && r.variables is Some {
            seq![
                template_spec(
                    (r.response.body->0).0@,
                    insert_all(Seq::empty(), variable_pairs(r.variables->0@)),
                ),
            ] + rest
        } else {
            rest
        }
    }
}

/// Fills the body template of each rule that has both a body and variables,
/// each variable standing for its path.
pub fn rule_body_templates(rules: &Vec<GovernanceRule>) -> (r: Vec<String>)
    ensures
        r@.map_values(|s: String| s@) == rule_bodies(rules@),
{
    let mut out: Vec<String> = Vec::new();
    let mut i: usize = rules.len();
    assert(rules@.skip(rules@.len() as int) =~= Seq::<GovernanceRule>::empty());
    // Walk from the back so that each body is put in front of the later ones.
    while i > 0
        invariant
            i <= rules@.len(),
            out@.map_values(|s: String| s@) == rule_bodies(rules@.skip(i as int)),
        decreases i,
    {
        i = i - 1;
        assert(rules@.skip(i as int).drop_first() =~= rules@.skip(i + 1));
        assert(rules@.skip(i as int)[0] == rules@[i as int]);
        let rule = &rules[i];
        match (&rule.response.body, &rule.variables) {
            (Some(body), Some(variables)) => {
                let vars = variable_map(variables);
                let filled = template(body.0.as_str(), &vars);
                let ghost before = out@.map_values(|s: String| s@);
                out.insert(0, filled);
                assert(out@.map_values(|s: String| s@) =~= seq![filled@] + before);
            },
            _ => {},
        }
    }
    assert(rules@.skip(0) =~= rules@);
    out
}

/// The map from each variable's name to its path.
pub fn variable_map(variables: &Vec<Variable>) -> (m: StringMap<String>)
    ensures
        m@ == insert_all(Seq::<(Seq<char>, Seq<char>)>::empty(), variable_pairs(variables@)),
{
    let ghost ps = variable_pairs(variables@);
    let mut m: StringMap<String> = StringMap::new();
    let mut i: usize = 0;
    assert(ps.skip(0) =~= ps);
    while i < variables.len()
        invariant
            i <= variables@.len(),
            ps == variable_pairs(variables@),
            insert_all(Seq::<(Seq<char>, Seq<char>)>::empty(), ps) == insert_all(m@, ps.skip(i as int)),
        decreases variables@.len() - i,
    {
        assert(ps.skip(i as int).drop_first() =~= ps.skip(i + 1));
        assert(ps.skip(i as int)[0] == ps[i as int]);
        m.insert(variables[i].name.clone(), variables[i].path.clone());
        i = i + 1;
    }
    assert(ps.skip(i as int) =~= Seq::<(Seq<char>, Seq<char>)>::empty());
    m
}

/// A condition on `request.uri` is matched against the request's URI as it
/// is, query string included, and one on `request.verb` against its method;
/// a condition on any other field sees empty text.
pub proof fn law_condition_fields(c: RegexCondition, req: RequestInfo)
    ensures
        c.path@ == "request.uri"@ ==> condition_holds(c, req) == (regex_compiles(c.value@)
            && regex_is_match(c.value@, req.uri@)),
        c.path@ == "request.verb"@ ==> condition_holds(c, req) == (regex_compiles(c.value@)
            && regex_is_match(c.value@, req.verb@)),
        c.path@ != "request.uri"@ && c.path@ != "request.verb"@ ==> condition_holds(c, req) == (
        regex_compiles(c.value@) && regex_is_match(c.value@, Seq::empty())),
        path_value(req, "request.uri"@) == req.uri@,
        path_value(req, "request.verb"@) == req.verb@,
{
    assert("request.uri"@ != "request.verb"@) by {
        reveal_strlit("request.uri");
        reveal_strlit("request.verb");
        assert("request.uri"@[8] != "request.verb"@[8]);
    }
}

/// Merging the overrides of rules applied in order: the response is blocked
/// exactly when some rule blocks; the status is the last rule's; the body is
/// the last rule's body when it has one, and there is no body when no rule
/// has one.
pub proof fn law_override_merge(ts: Seq<RuleTemplate>)
    requires
        ts.len() > 0,
    ensures
        ({
            let merged = merge_all(no_override(), overrides_of(ts));
            &&& merged.block == exists|i: int| 0 <= i < ts.len() && #[trigger] ts[i].rule.block
            &&& merged.status == ts.last().rule.response.status
            &&& override_spec(ts.last()).body is Some ==> merged.body == override_spec(ts.last()).body
            &&& (forall|i: int| 0 <= i < ts.len() ==> #[trigger] ts[i].rule.response.body is None)
                ==> merged.body is None
        }),
{
    lemma_merge_facts(no_override(), overrides_of(ts));
    let os = overrides_of(ts);
    assert(os.last() == override_spec(ts.last()));
    if merge_all(no_override(), os).block {
        let i = choose|i: int| 0 <= i < os.len() && os[i].block;
        assert(ts[i].rule.block);
    }
    if exists|i: int| 0 <= i < ts.len() && #[trigger] ts[i].rule.block {
        let i = choose|i: int| 0 <= i < ts.len() && #[trigger] ts[i].rule.block;
        assert(os[i].block);
    }
    if forall|i: int| 0 <= i < ts.len() ==> #[trigger] ts[i].rule.response.body is None {
        assert forall|i: int| 0 <= i < os.len() implies #[trigger] os[i].body is None by {
            assert(ts[i].rule.response.body is None);
        }
    }
}

proof fn lemma_merge_facts(acc: OverrideModel, os: Seq<OverrideModel>)
    ensures
        merge_all(acc, os).block == (acc.block || exists|i: int| 0 <= i < os.len() && #[trigger] os[i].block),
        os.len() > 0 ==> merge_all(acc, os).status == os.last().status,
        os.len() > 0 && os.last().body is Some ==> merge_all(acc, os).body == os.last().body,
        (forall|i: int| 0 <= i < os.len() ==> #[trigger] os[i].body is None) ==> merge_all(acc, os).body
            == acc.body,
    decreases os.len(),
{
    if os.len() > 0 {
        let rest = os.drop_first();
        lemma_merge_facts(merge_override(acc, os[0]), rest);
        if os.len() > 1 {
            assert(rest.last() == os.last());
        }
        if exists|i: int| 0 <= i < rest.len() && #[trigger] rest[i].block {
            let i = choose|i: int| 0 <= i < rest.len() && #[trigger] rest[i].block;
            assert(os[i + 1].block);
        }
        if exists|i: int| 0 <= i < os.len() && #[trigger] os[i].block {
            let i = choose|i: int| 0 <= i < os.len() && #[trigger] os[i].block;
            if i > 0 {
                assert(rest[i - 1].block);
            }
        }
        if forall|i: int| 0 <= i < os.len() ==> #[trigger] os[i].body is None {
            assert(os[0].body is None);
            assert forall|i: int| 0 <= i < rest.len() implies #[trigger] rest[i].body is None by {
                assert(os[i + 1].body is None);
            }
        }
    }
}

impl GovernanceRulesResponse {
    /// The rules the API's reply holds, tagged with the reply's
    /// `X-Moesif-Config-Etag` header (names compared up to ASCII case; no
    /// tag when the reply has none).
    pub fn from_reply(rules: Vec<GovernanceRule>, headers: &Vec<(String, String)>) -> (r: Self)
        ensures
            r.rules@ == rules@,
            r.e_tag.deep_view() == find_header(pair_views(headers@), "X-Moesif-Config-Etag"@),
    {
        GovernanceRulesResponse { rules, e_tag: get_header(headers, "X-Moesif-Config-Etag") }
    }
}

} // verus!
