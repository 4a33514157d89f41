//! Rules that say on which operating system a library is required.
use std::collections::HashMap;

use vstd::prelude::*;

verus! {

/// What a rule does where it applies.
#[derive(Debug, Clone, Copy, PartialEq, Eq, Structural)]
pub enum ActionType {
    Allow,
    Disallow,
}

/// An operating system that rules can name.
#[derive(Debug, Clone, Copy, PartialEq, Eq, Structural)]
pub enum OsName {
    Osx,
    Windows,
    Linux,
}

/// The operating system that the launcher was found to run on.
#[derive(Debug, Clone, Copy, PartialEq, Eq, Structural)]
pub enum DetectedOs {
    Linux,
    MacOs,
    Windows,
    Other,
}

/// The systems that a rule is about. Only the name is ever compared.
#[derive(Debug, PartialEq)]
pub struct Os {
    pub name: Option<OsName>,
    pub version: Option<String>,
    pub arch: Option<String>,
}

/// A rule.
#[derive(Debug, PartialEq)]
pub struct Rule {
    pub action: ActionType,
    pub features: Option<HashMap<String, bool>>,
    pub os: Option<Os>,
    pub value: Option<Vec<String>>,
}

/// The name under which a system is shown to a person.
pub open spec fn os_label(os: OsName) -> Seq<char> {
    match os {
        OsName::Osx => "Osx"@,
        OsName::Windows => "Windows"@,
        OsName::Linux => "Linux"@,
    }
}

/// The name that rules use for a detected system, where they have one.
pub open spec fn rule_name(detected: DetectedOs) -> Option<OsName> {
    match detected {
        DetectedOs::Linux => Some(OsName::Linux),
        DetectedOs::MacOs => Some(OsName::Osx),
        DetectedOs::Windows => Some(OsName::Windows),
        DetectedOs::Other => None,
    }
}

impl OsName {
    /// The name under which the system is shown to a person.
    pub fn to_string(&self) -> (label: String)
        ensures
            label@ == os_label(*self),
    {
        match self {
            OsName::Osx => "Osx".to_owned(),
            OsName::Windows => "Windows".to_owned(),
            OsName::Linux => "Linux".to_owned(),
        }
    }
}

/// The name that rules use for a detected system; `None` where the launcher does not support it.
pub fn supported_os(detected: DetectedOs) -> (name: Option<OsName>)
    ensures
        name == rule_name(detected),
{
    match detected {
        DetectedOs::Linux => Some(OsName::Linux),
        DetectedOs::MacOs => Some(OsName::Osx),
        DetectedOs::Windows => Some(OsName::Windows),
        DetectedOs::Other => None,
    }
}

/// Whether a rule names the system `os`. A rule that names no system applies to none.
pub open spec fn applies(rule: Rule, os: OsName) -> bool {
    rule.os is Some && rule.os->0.name == Some(os)
}

/// Whether the rule at `i` is the last one that names the system `os`.
pub open spec fn is_last_applying(rules: Seq<Rule>, os: OsName, i: int) -> bool {
    &&& 0 <= i < rules.len()
    &&& applies(rules[i], os)
    &&& forall|j: int| i < j < rules.len() ==> !applies(#[trigger] rules[j], os)
}

/// Whether a list of rules requires its owner on `os`: the last rule that names the system has the
/// say, and without one the owner is not required.
pub open spec fn list_allows(rules: Seq<Rule>, os: OsName) -> bool {
    exists|i: int| #[trigger]
        is_last_applying(rules, os, i) && rules[i].action == ActionType::Allow
}

/// Whether a library with these rules is required on `os`. One without a list of rules is required
/// everywhere.
pub open spec fn rules_allow(rules: Option<Vec<Rule>>, os: OsName) -> bool {
    match rules {
        Some(rules) => list_allows(rules@, os),
        None => true,
    }
}

/// Whether a library with these rules is required on `os`.
pub fn is_required(rules: &Option<Vec<Rule>>, os: OsName) -> (required: bool)
    ensures
        required == rules_allow(*rules, os),
{
    let rules = match rules {
        Some(rules) => rules,
        None => return true,
    };
    let mut required = false;
    for i in 0..rules.len()
        invariant
            required == list_allows(rules@.take(i as int), os),
    {
        let rule = &rules[i];
        let ghost seen = rules@.take(i as int);
        proof {
            law_last_rule_wins(seen, *rule, os);
            assert(rules@.take(i + 1) =~= seen.push(*rule));
        }
        if let Some(system) = &rule.os {
            if let Some(name) = system.name {
                if name == os {
                    required = match rule.action {
                        ActionType::Allow => true,
                        ActionType::Disallow => false,
                    };
                }
            }
        }
    }
    proof {
        assert(rules@.take(rules@.len() as int) =~= rules@);
    }
    required
}

/// A rule put at the end of a list decides where it names the system, and changes nothing where it
/// does not.
pub proof fn law_last_rule_wins(rules: Seq<Rule>, rule: Rule, os: OsName)
    ensures
        list_allows(rules.push(rule), os) == if applies(rule, os) {
            rule.action == ActionType::Allow
        } else {
            list_allows(rules, os)
        },
{
    let longer = rules.push(rule);
    assert(longer[rules.len() as int] == rule);
    if applies(rule, os) {
        assert(is_last_applying(longer, os, rules.len() as int));
    } else {
        assert forall|i: int|
            is_last_applying(rules, os, i) == #[trigger] is_last_applying(longer, os, i) by {
            if is_last_applying(longer, os, i) {
                assert(longer[i] == rules[i]);
                assert forall|j: int| i < j < rules.len() implies !applies(
                    #[trigger] rules[j],
                    os,
                ) by {
                    assert(longer[j] == rules[j]);
                }
            }
        }
        if list_allows(rules, os) {
            let i = choose|i: int| #[trigger]
                is_last_applying(rules, os, i) && rules[i].action == ActionType::Allow;
            assert(is_last_applying(longer, os, i));
        }
    }
}

/// A list in which no rule names the system requires nothing there; the empty list is one.
pub proof fn law_no_applying_rule_requires_nothing(rules: Seq<Rule>, os: OsName)
    requires
        forall|i: int| 0 <= i < rules.len() ==> !applies(#[trigger] rules[i], os),
    ensures
        !list_allows(rules, os),
{
}

/// The last rule that names the system has the say, whatever stands before and after it.
pub proof fn law_last_applying_rule_decides(rules: Seq<Rule>, os: OsName, i: int)
    requires
        is_last_applying(rules, os, i),
    ensures
        list_allows(rules, os) == (rules[i].action == ActionType::Allow),
{
    if list_allows(rules, os) {
        let k = choose|k: int| #[trigger]
            is_last_applying(rules, os, k) && rules[k].action == ActionType::Allow;
        assert(k == i) by {
            if k < i {
                assert(!applies(rules[i], os));
            } else if i < k {
                assert(!applies(rules[k], os));
            }
        }
    }
}

/// A rule that does not name the system can be taken out of the list, wherever it stands.
pub proof fn law_rules_for_other_systems_do_not_matter(rules: Seq<Rule>, k: int, os: OsName)
    requires
        0 <= k < rules.len(),
        !applies(rules[k], os),
    ensures
        list_allows(rules.remove(k), os) == list_allows(rules, os),
    decreases rules.len(),
{
    let last = rules.last();
    let front = rules.drop_last();
    assert(front.push(last) =~= rules);
    law_last_rule_wins(front, last, os);
    if k == rules.len() - 1 {
        assert(rules.remove(k) =~= front);
    } else {
        assert(front[k] == rules[k]);
        law_rules_for_other_systems_do_not_matter(front, k, os);
        law_last_rule_wins(front.remove(k), last, os);
        assert(rules.remove(k) =~= front.remove(k).push(last));
    }
}

/// Of a library's rules the last one that names the system decides, however many there are and
/// whatever else they say: the library is required exactly when that rule allows.
pub proof fn law_required_as_the_last_named_rule_says(rules: Vec<Rule>, os: OsName, i: int)
    requires
        0 <= i < rules@.len(),
        rules@[i].os matches Some(system) && system.name == Some(os),
        forall|j: int|
            i < j < rules@.len() ==> !((#[trigger] rules@[j]).os matches Some(system)
                && system.name == Some(os)),
    ensures
        rules_allow(Some(rules), os) <==> rules@[i].action is Allow,
{
    assert forall|j: int| i < j < rules@.len() implies !applies(#[trigger] rules@[j], os) by {}
    assert(is_last_applying(rules@, os, i));
    law_last_applying_rule_decides(rules@, os, i);
}

/// A library whose rules all leave the system unnamed is not required on it, and one that has no
/// list of rules is required on every system.
pub proof fn law_required_without_a_named_rule(rules: Vec<Rule>, os: OsName)
    ensures
        rules_allow(None, os),
        (forall|j: int|
            0 <= j < rules@.len() ==> !((#[trigger] rules@[j]).os matches Some(system)
                && system.name == Some(os))) ==> !rules_allow(Some(rules), os),
{
    if forall|j: int|
        0 <= j < rules@.len() ==> !((#[trigger] rules@[j]).os matches Some(system)
            && system.name == Some(os)) {
        assert forall|j: int| 0 <= j < rules@.len() implies !applies(#[trigger] rules@[j], os) by {}
    }
}

/// Two lists of rules that agree, rule by rule, on the action and on the name of the system require
/// the same: features, versions, architectures and values do not matter.
pub proof fn law_only_action_and_system_matter(left: Vec<Rule>, right: Vec<Rule>, os: OsName)
    requires
        left@.len() == right@.len(),
        forall|i: int|
            0 <= i < left@.len() ==> {
                &&& (#[trigger] left@[i]).action == right@[i].action
                &&& left@[i].os is Some == right@[i].os is Some
                &&& left@[i].os is Some ==> left@[i].os->0.name == right@[i].os->0.name
            },
    ensures
        rules_allow(Some(left), os) == rules_allow(Some(right), os),
{
    assert forall|i: int| is_last_applying(left@, os, i) == #[trigger] is_last_applying(
        right@,
        os,
        i,
    ) by {
        assert forall|j: int| 0 <= j < left@.len() implies #[trigger] applies(left@[j], os)
            == applies(right@[j], os) by {}
        if is_last_applying(left@, os, i) {
            assert forall|j: int| i < j < right@.len() implies !applies(#[trigger] right@[j], os) by {
                assert(!applies(left@[j], os));
            }
        }
        if is_last_applying(right@, os, i) {
            assert forall|j: int| i < j < left@.len() implies !applies(#[trigger] left@[j], os) by {
                assert(!applies(right@[j], os));
            }
        }
    }
    if list_allows(left@, os) {
        let i = choose|i: int| #[trigger]
            is_last_applying(left@, os, i) && left@[i].action == ActionType::Allow;
        assert(is_last_applying(right@, os, i));
        assert(left@[i].action == right@[i].action);
    }
    if list_allows(right@, os) {
        let i = choose|i: int| #[trigger]
            is_last_applying(right@, os, i) && right@[i].action == ActionType::Allow;
        assert(is_last_applying(left@, os, i));
        assert(left@[i].action == right@[i].action);
    }
}

/// Every system that rules can name is detected as exactly one, and shown under its own name.
pub proof fn law_systems_have_their_names(left: OsName, right: OsName)
    ensures
        os_label(OsName::Osx) == "Osx"@,
        os_label(OsName::Windows) == "Windows"@,
        os_label(OsName::Linux) == "Linux"@,
        os_label(left) == os_label(right) ==> left == right,
        rule_name(DetectedOs::MacOs) == Some(OsName::Osx),
        rule_name(DetectedOs::Windows) == Some(OsName::Windows),
        rule_name(DetectedOs::Linux) == Some(OsName::Linux),
        rule_name(DetectedOs::Other) is None,
{
    reveal_strlit("Osx");
    reveal_strlit("Windows");
    reveal_strlit("Linux");
    assert(os_label(left).len() == os_label(right).len() || os_label(left) != os_label(right));
    assert("Osx"@.len() == 3 && "Windows"@.len() == 7 && "Linux"@.len() == 5);
}

} // verus!
