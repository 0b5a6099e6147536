//! The binding document as it is written down, before its names are turned
//! into rule kinds and methods. Every field is text or a list: a decoder can
//! fill these records one for one.

use vstd::prelude::*;

verus! {

/// One header to match: its name and the value expected for it.
pub struct JSONHeaderMapping {
    pub key: String,
    pub value: String,
}

/// One rule as written: the kind and the method are still names, and the
/// protocol version is the decimal text of the number in the document.
pub struct JSONRule {
    pub kind: String,
    pub header_mappings: Vec<JSONHeaderMapping>,
    pub url_wildcard: String,
    pub method_enum: String,
    pub version_float: String,
}

/// The rules of one binding, by direction.
pub struct JSONRuleSet {
    pub egress: Vec<JSONRule>,
    pub ingress: Vec<JSONRule>,
}

/// One binding as written: a name, the address listened on and the address
/// forwarded to, both as `host:port`, and the rules.
pub struct JSONBinding {
    pub name: String,
    pub from: String,
    pub to: String,
    pub rules: JSONRuleSet,
}

/// The whole document.
pub struct JSONBindingSet {
    pub bindings: Vec<JSONBinding>,
}

impl Default for JSONRule {
    /// The rule that an empty object stands for: no kind, no headers, an
    /// empty pattern, no method, version zero.
    fn default() -> (rule: JSONRule)
        ensures
            rule.kind@ == Seq::<char>::empty(),
            rule.header_mappings@ == Seq::<JSONHeaderMapping>::empty(),
            rule.url_wildcard@ == Seq::<char>::empty(),
            rule.method_enum@ == Seq::<char>::empty(),
            rule.version_float@ == "0"@,
    {
        JSONRule {
            kind: String::new(),
            header_mappings: Vec::new(),
            url_wildcard: String::new(),
            method_enum: String::new(),
            version_float: "0".to_owned(),
        }
    }
}

impl Default for JSONRuleSet {
    /// No rule in either direction.
    fn default() -> (rules: JSONRuleSet)
        ensures
            rules.egress@ == Seq::<JSONRule>::empty(),
            rules.ingress@ == Seq::<JSONRule>::empty(),
    {
        JSONRuleSet { egress: Vec::new(), ingress: Vec::new() }
    }
}

impl Default for JSONBinding {
    /// Empty texts and no rules.
    fn default() -> (binding: JSONBinding)
        ensures
            binding.name@ == Seq::<char>::empty(),
            binding.from@ == Seq::<char>::empty(),
            binding.to@ == Seq::<char>::empty(),
            binding.rules.egress@ == Seq::<JSONRule>::empty(),
            binding.rules.ingress@ == Seq::<JSONRule>::empty(),
    {
        JSONBinding {
            name: String::new(),
            from: String::new(),
            to: String::new(),
            rules: JSONRuleSet::default(),
        }
    }
}

} // verus!
