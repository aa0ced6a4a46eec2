//! Evaluation of the allow/disallow rules that guard libraries and arguments.
use vstd::prelude::*;
use crate::models::{entry_views, lookup, spec_lookup, OsRule, Rule};
use crate::text::str_eq;
use crate::utils::{Platform, PlatformView};

verus! {

/// Whether an operating-system guard admits the platform: each of its name
/// and architecture, where given, must equal the platform's.
pub open spec fn spec_os_matches(os: Option<OsRule>, p: PlatformView) -> bool {
    match os {
        Some(o) => {
            &&& (o.name matches Some(n) ==> n@ == p.name)
            &&& (o.arch matches Some(a) ==> a@ == p.arch)
        },
        None => true,
    }
}

/// Whether a feature guard admits the enabled features: each feature it names
/// must be set, to the same value, among `features`.
pub open spec fn spec_features_match(
    guard: Option<Vec<(String, bool)>>,
    features: Seq<(Seq<char>, bool)>,
) -> bool {
    match guard {
        Some(g) => forall|i: int|
            0 <= i < g@.len() ==> spec_lookup(features, (#[trigger] g@[i]).0@) == Some(g@[i].1),
        None => true,
    }
}

/// Whether a rule applies on this platform with these features.
pub open spec fn spec_rule_applies(r: Rule, features: Seq<(Seq<char>, bool)>, p: PlatformView) -> bool {
    spec_os_matches(r.os, p) && spec_features_match(r.features, features)
}

/// The verdict of the first rule that applies: allowed exactly when its
/// action is `allow`; disallowed when no rule applies.
pub open spec fn spec_first_verdict(
    rules: Seq<Rule>,
    features: Seq<(Seq<char>, bool)>,
    p: PlatformView,
) -> bool
    decreases rules.len(),
{
    if rules.len() == 0 {
        false
    } else if spec_rule_applies(rules[0], features, p) {
        rules[0].action@ == "allow"@
    } else {
        spec_first_verdict(rules.skip(1), features, p)
    }
}

/// Whether a set of rules allows something: no rules allow everything,
/// otherwise the first rule that applies decides.
pub open spec fn spec_evaluate_rules(
    rules: Seq<Rule>,
    features: Seq<(Seq<char>, bool)>,
    p: PlatformView,
) -> bool {
    rules.len() == 0 || spec_first_verdict(rules, features, p)
}

fn os_matches(os: &Option<OsRule>, platform: &Platform) -> (r: bool)
    ensures
        r == spec_os_matches(*os, platform@),
{
    match os {
        Some(o) => {
            let name_ok = match &o.name {
                Some(n) => str_eq(n.as_str(), platform.name()),
                None => true,
            };
            let arch_ok = match &o.arch {
                Some(a) => str_eq(a.as_str(), platform.arch()),
                None => true,
            };
            name_ok && arch_ok
        },
        None => true,
    }
}

fn all_features_set(g: &Vec<(String, bool)>, features: &Vec<(String, bool)>) -> (r: bool)
    ensures
        r == forall|i: int|
            0 <= i < g@.len() ==> spec_lookup(entry_views(features@), (#[trigger] g@[i]).0@) == Some(g@[i].1),
{
    let mut i: usize = 0;
    while i < g.len()
        invariant
            i <= g@.len(),
            forall|j: int|
                0 <= j < i ==> spec_lookup(entry_views(features@), (#[trigger] g@[j]).0@) == Some(g@[j].1),
        decreases g.len() - i,
    {
        let found = lookup(features, &g[i].0);
        match found {
            Some(v) => {
                if *v != g[i].1 {
                    return false;
                }
            },
            None => {
                return false;
            },
        }
        i += 1;
    }
    true
}

fn features_match(guard: &Option<Vec<(String, bool)>>, features: &Vec<(String, bool)>) -> (r: bool)
    ensures
        r == spec_features_match(*guard, entry_views(features@)),
{
    match guard {
        Some(g) => all_features_set(g, features),
        None => true,
    }
}

/// Whether `rules` allow something on `platform` with `features` enabled.
pub fn evaluate_rules(rules: &Vec<Rule>, features: &Vec<(String, bool)>, platform: &Platform) -> (r:
    bool)
    ensures
        r == spec_evaluate_rules(rules@, entry_views(features@), platform@),
{
    if rules.len() == 0 {
        return true;
    }
    let mut i: usize = 0;
    assert(rules@.skip(0) =~= rules@);
    while i < rules.len()
        invariant
            i <= rules.len(),
            rules@.len() > 0,
            spec_first_verdict(rules@, entry_views(features@), platform@) == spec_first_verdict(
                rules@.skip(i as int),
                entry_views(features@),
                platform@,
            ),
        decreases rules.len() - i,
    {
        let rule = &rules[i];
        proof {
            assert(rules@.skip(i as int).skip(1) =~= rules@.skip(i + 1));
            assert(rules@.skip(i as int)[0] == rules@[i as int]);
        }
        if os_matches(&rule.os, platform) && features_match(&rule.features, features) {
            proof {
                reveal_strlit("allow");
            }
            return str_eq(rule.action.as_str(), "allow");
        }
        i += 1;
    }
    false
}

/// Without rules, everything is allowed.
pub proof fn law_no_rules_allow(features: Seq<(Seq<char>, bool)>, p: PlatformView)
    ensures
        spec_evaluate_rules(Seq::empty(), features, p),
{
}

/// Rules none of which allows anything allow nothing.
pub proof fn law_disallow_rules_never_allow(
    rules: Seq<Rule>,
    features: Seq<(Seq<char>, bool)>,
    p: PlatformView,
)
    requires
        rules.len() > 0,
        forall|i: int| 0 <= i < rules.len() ==> (#[trigger] rules[i]).action@ != "allow"@,
    ensures
        !spec_evaluate_rules(rules, features, p),
{
    lemma_first_verdict_needs_allow(rules, features, p);
}

proof fn lemma_first_verdict_needs_allow(
    rules: Seq<Rule>,
    features: Seq<(Seq<char>, bool)>,
    p: PlatformView,
)
    requires
        forall|i: int| 0 <= i < rules.len() ==> (#[trigger] rules[i]).action@ != "allow"@,
    ensures
        !spec_first_verdict(rules, features, p),
    decreases rules.len(),
{
    if rules.len() > 0 {
        assert(rules[0].action@ != "allow"@);
        assert forall|i: int| 0 <= i < rules.skip(1).len() implies (#[trigger] rules.skip(1)[i]).action@
            != "allow"@ by {
            assert(rules.skip(1)[i] == rules[i + 1]);
        }
        lemma_first_verdict_needs_allow(rules.skip(1), features, p);
    }
}

/// The first rule that applies decides: when rule `k` applies and none
/// before it does, the rules allow exactly when its action is `allow`,
/// whatever the later rules say; when no rule applies, a non-empty set of
/// rules allows nothing.
pub proof fn law_first_applying_rule_decides(
    rules: Seq<Rule>,
    features: Seq<(Seq<char>, bool)>,
    p: PlatformView,
)
    ensures
        forall|k: int|
            0 <= k < rules.len() && spec_rule_applies(#[trigger] rules[k], features, p) && (forall|
                m: int,
            | 0 <= m < k ==> !spec_rule_applies(#[trigger] rules[m], features, p))
                ==> spec_evaluate_rules(rules, features, p) == (rules[k].action@ == "allow"@),
        rules.len() > 0 && (forall|m: int|
            0 <= m < rules.len() ==> !spec_rule_applies(#[trigger] rules[m], features, p))
            ==> !spec_evaluate_rules(rules, features, p),
{
    assert forall|k: int|
        0 <= k < rules.len() && spec_rule_applies(#[trigger] rules[k], features, p) && (forall|
            m: int,
        | 0 <= m < k ==> !spec_rule_applies(#[trigger] rules[m], features, p))
            implies spec_evaluate_rules(rules, features, p) == (rules[k].action@ == "allow"@) by {
        lemma_first_verdict_at(rules, features, p, k);
    }
    if rules.len() > 0 && (forall|m: int|
        0 <= m < rules.len() ==> !spec_rule_applies(#[trigger] rules[m], features, p)) {
        lemma_no_rule_applies(rules, features, p);
    }
}

proof fn lemma_first_verdict_at(
    rules: Seq<Rule>,
    features: Seq<(Seq<char>, bool)>,
    p: PlatformView,
    k: int,
)
    requires
        0 <= k < rules.len(),
        spec_rule_applies(rules[k], features, p),
        forall|m: int| 0 <= m < k ==> !spec_rule_applies(#[trigger] rules[m], features, p),
    ensures
        spec_first_verdict(rules, features, p) == (rules[k].action@ == "allow"@),
    decreases k,
{
    if k > 0 {
        assert(!spec_rule_applies(rules[0], features, p));
        let rest = rules.skip(1);
        assert(rest[k - 1] == rules[k]);
        assert forall|m: int| 0 <= m < k - 1 implies !spec_rule_applies(
            #[trigger] rest[m],
            features,
            p,
        ) by {
            assert(rest[m] == rules[m + 1]);
        }
        lemma_first_verdict_at(rest, features, p, k - 1);
    }
}

proof fn lemma_no_rule_applies(rules: Seq<Rule>, features: Seq<(Seq<char>, bool)>, p: PlatformView)
    requires
        forall|m: int| 0 <= m < rules.len() ==> !spec_rule_applies(#[trigger] rules[m], features, p),
    ensures
        !spec_first_verdict(rules, features, p),
    decreases rules.len(),
{
    if rules.len() > 0 {
        assert(!spec_rule_applies(rules[0], features, p));
        let rest = rules.skip(1);
        assert forall|m: int| 0 <= m < rest.len() implies !spec_rule_applies(
            #[trigger] rest[m],
            features,
            p,
        ) by {
            assert(rest[m] == rules[m + 1]);
        }
        lemma_no_rule_applies(rest, features, p);
    }
}

/// A rule guarded by another operating system's name, or another
/// architecture, does not apply; nor does one requiring a feature that is
/// not enabled with the value it names.
pub proof fn law_guards_exclude(r: Rule, features: Seq<(Seq<char>, bool)>, p: PlatformView)
    ensures
        (r.os is Some && r.os->0.name is Some && r.os->0.name->0@ != p.name) ==> !spec_rule_applies(
            r,
            features,
            p,
        ),
        (r.os is Some && r.os->0.arch is Some && r.os->0.arch->0@ != p.arch) ==> !spec_rule_applies(
            r,
            features,
            p,
        ),
        (r.features is Some && exists|i: int|
            0 <= i < r.features->0@.len() && spec_lookup(features, (#[trigger] r.features->0@[i]).0@)
                != Some(r.features->0@[i].1)) ==> !spec_rule_applies(r, features, p),
{
}

/// A rule without guards decides by its own action, whatever follows it.
pub proof fn law_unguarded_first_rule_decides(
    rules: Seq<Rule>,
    features: Seq<(Seq<char>, bool)>,
    p: PlatformView,
)
    requires
        rules.len() > 0,
        rules[0].os is None,
        rules[0].features is None,
    ensures
        spec_evaluate_rules(rules, features, p) == (rules[0].action@ == "allow"@),
{
}

} // verus!
