//! Bindings and their rules, and the set of bindings that a proxy serves.
//!
//! Every type has a view made of sequences of characters, so that two values
//! are the same binding exactly when their views are equal. A set of bindings
//! keeps its members in the order in which they came and never holds the same
//! binding twice.

use crate::text::str_equal;
use crate::traffic::json_mappings::{JSONBinding, JSONBindingSet, JSONHeaderMapping, JSONRule};
use crate::unique::fresh_identifier;
use vstd::prelude::*;
use vstd::std_specs::cmp::PartialEqSpecImpl;

verus! {

// ---- Enums ----
/// What a rule looks at.
#[derive(PartialEq, Eq, Hash, Debug, Clone, Copy, Structural)]
pub enum RuleType {
    /// Matches on `header_mappings`.
    HEADER,
    /// Matches on `url_wildcard`, a regular expression.
    URL,
    /// Matches on `method_enum`.
    METHOD,
    /// Matches on `version_float`.
    VERSION,
}

/// The kind that a name stands for. A name that is none of the four kinds
/// stands for `URL`.
pub open spec fn rule_type_named(name: Seq<char>) -> RuleType {
    if name == "HEADER"@ {
        RuleType::HEADER
    } else if name == "URL"@ {
        RuleType::URL
    } else if name == "METHOD"@ {
        RuleType::METHOD
    } else if name == "VERSION"@ {
        RuleType::VERSION
    } else {
        RuleType::URL
    }
}

impl RuleType {
    /// Reads a kind from its name; never fails, see [`rule_type_named`].
    pub fn from_str(input: &str) -> (kind: Result<RuleType, ()>)
        ensures
            kind == Ok::<RuleType, ()>(rule_type_named(input@)),
    {
        if str_equal(input, "HEADER") {
            Ok(RuleType::HEADER)
        } else if str_equal(input, "URL") {
            Ok(RuleType::URL)
        } else if str_equal(input, "METHOD") {
            Ok(RuleType::METHOD)
        } else if str_equal(input, "VERSION") {
            Ok(RuleType::VERSION)
        } else {
            Ok(RuleType::URL)
        }
    }
}

/// The request methods that a rule can ask for.
#[derive(PartialEq, Eq, Hash, Debug, Clone, Copy, Structural)]
pub enum HttpMethod {
    GET,
    POST,
    DELETE,
    PATCH,
    PUT,
    OPTIONS,
}

/// The method that a name stands for. A name that is none of the six methods
/// stands for `GET`.
pub open spec fn http_method_named(name: Seq<char>) -> HttpMethod {
    if name == "GET"@ {
        HttpMethod::GET
    } else if name == "POST"@ {
        HttpMethod::POST
    } else if name == "DELETE"@ {
        HttpMethod::DELETE
    } else if name == "PATCH"@ {
        HttpMethod::PATCH
    } else if name == "PUT"@ {
        HttpMethod::PUT
    } else if name == "OPTIONS"@ {
        HttpMethod::OPTIONS
    } else {
        HttpMethod::GET
    }
}

impl HttpMethod {
    /// Reads a method from its name; never fails, see [`http_method_named`].
    pub fn from_str(input: &str) -> (method: Result<HttpMethod, ()>)
        ensures
            method == Ok::<HttpMethod, ()>(http_method_named(input@)),
    {
        if str_equal(input, "GET") {
            Ok(HttpMethod::GET)
        } else if str_equal(input, "POST") {
            Ok(HttpMethod::POST)
        } else if str_equal(input, "DELETE") {
            Ok(HttpMethod::DELETE)
        } else if str_equal(input, "PATCH") {
            Ok(HttpMethod::PATCH)
        } else if str_equal(input, "PUT") {
            Ok(HttpMethod::PUT)
        } else if str_equal(input, "OPTIONS") {
            Ok(HttpMethod::OPTIONS)
        } else {
            Ok(HttpMethod::GET)
        }
    }
}

// ---- HeaderMapping ----
/// One header to match: its name and the value expected for it.
#[derive(Eq, Hash, Debug)]
pub struct HeaderMapping {
    key: String,
    value: String,
}

/// A header mapping as two sequences of characters.
pub struct HeaderMappingView {
    pub key: Seq<char>,
    pub value: Seq<char>,
}

impl View for HeaderMapping {
    type V = HeaderMappingView;

    closed spec fn view(&self) -> HeaderMappingView {
        HeaderMappingView { key: self.key@, value: self.value@ }
    }
}

impl HeaderMapping {
    pub fn new(key: String, value: String) -> (mapping: HeaderMapping)
        ensures
            mapping@ == (HeaderMappingView { key: key@, value: value@ }),
    {
        HeaderMapping { key, value }
    }
}

impl PartialEq for HeaderMapping {
    fn eq(&self, other: &HeaderMapping) -> (same: bool) {
        self.key == other.key && self.value == other.value
    }
}

impl PartialEqSpecImpl for HeaderMapping {
    open spec fn obeys_eq_spec() -> bool {
        true
    }

    open spec fn eq_spec(&self, other: &HeaderMapping) -> bool {
        self@ == other@
    }
}

/// The views of a list of header mappings, in order.
pub open spec fn header_mapping_views(mappings: Seq<HeaderMapping>) -> Seq<HeaderMappingView> {
    Seq::new(mappings.len(), |i: int| mappings[i]@)
}

// ---- Rule ----
/// One rule. All four payloads are present; `kind` says which one counts.
#[derive(Eq, Hash, Debug)]
pub struct Rule {
    pub kind: RuleType,
    pub header_mappings: Vec<HeaderMapping>,
    pub url_wildcard: String,
    pub method_enum: HttpMethod,
    pub version_float: String,
}

/// A rule as plain values.
pub struct RuleView {
    pub kind: RuleType,
    pub header_mappings: Seq<HeaderMappingView>,
    pub url_wildcard: Seq<char>,
    pub method_enum: HttpMethod,
    pub version_float: Seq<char>,
}

impl View for Rule {
    type V = RuleView;

    open spec fn view(&self) -> RuleView {
        RuleView {
            kind: self.kind,
            header_mappings: header_mapping_views(self.header_mappings@),
            url_wildcard: self.url_wildcard@,
            method_enum: self.method_enum,
            version_float: self.version_float@,
        }
    }
}

impl Rule {
    /// A rule of the given kind with the payloads at their defaults: no
    /// header, the pattern `.`, the method `GET`, the version `1.1`.
    pub fn new(kind: RuleType) -> (rule: Rule)
        ensures
            rule@ == (RuleView {
                kind,
                header_mappings: Seq::empty(),
                url_wildcard: "."@,
                method_enum: HttpMethod::GET,
                version_float: "1.1"@,
            }),
    {
        let rule = Rule {
            kind,
            header_mappings: Vec::new(),
            url_wildcard: ".".to_owned(),
            method_enum: HttpMethod::GET,
            version_float: "1.1".to_owned(),
        };
        assert(rule@.header_mappings =~= Seq::empty());
        rule
    }

    /// Appends one header mapping.
    pub fn add_header_mapping(&mut self, mapping: HeaderMapping)
        ensures
            final(self)@ == (RuleView {
                header_mappings: old(self)@.header_mappings.push(mapping@),
                ..old(self)@
            }),
    {
        self.header_mappings.push(mapping);
        assert(self@.header_mappings =~= old(self)@.header_mappings.push(mapping@));
    }

    /// Replaces the header mappings by `mappings`.
    pub fn add_all_header_mappings(&mut self, mappings: Vec<HeaderMapping>)
        ensures
            final(self)@ == (RuleView {
                header_mappings: header_mapping_views(mappings@),
                ..old(self)@
            }),
    {
        self.header_mappings = mappings;
    }

    pub fn set_url_wildcard(&mut self, wildcard: String)
        ensures
            final(self)@ == (RuleView { url_wildcard: wildcard@, ..old(self)@ }),
    {
        self.url_wildcard = wildcard;
    }

    pub fn set_method_enum(&mut self, method: HttpMethod)
        ensures
            final(self)@ == (RuleView { method_enum: method, ..old(self)@ }),
    {
        self.method_enum = method;
    }

    pub fn st_version_float(&mut self, version: String)
        ensures
            final(self)@ == (RuleView { version_float: version@, ..old(self)@ }),
    {
        self.version_float = version;
    }
}

impl PartialEq for Rule {
    fn eq(&self, other: &Rule) -> (same: bool) {
        let same_mappings = self.header_mappings == other.header_mappings;
        proof {
            let left = header_mapping_views(self.header_mappings@);
            let right = header_mapping_views(other.header_mappings@);
            if same_mappings {
                assert(left =~= right);
            }
            if left == right {
                assert(self.header_mappings@.len() == left.len());
                assert(other.header_mappings@.len() == right.len());
                assert forall|i: int| 0 <= i < self.header_mappings@.len() implies (
                #[trigger] self.header_mappings@[i])@ == other.header_mappings@[i]@ by {
                    assert(left[i] == right[i]);
                }
            }
        }
        self.kind == other.kind && same_mappings && self.url_wildcard == other.url_wildcard
            && self.method_enum == other.method_enum && self.version_float == other.version_float
    }
}

impl PartialEqSpecImpl for Rule {
    open spec fn obeys_eq_spec() -> bool {
        true
    }

    open spec fn eq_spec(&self, other: &Rule) -> bool {
        self@ == other@
    }
}

// ---- RuleSet ----
/// The views of a list of rules, in order.
pub open spec fn rule_views(rules: Seq<Rule>) -> Seq<RuleView> {
    Seq::new(rules.len(), |i: int| rules[i]@)
}

/// The rules of one binding: those applied to what leaves towards the
/// upstream, and those applied to what comes back.
#[derive(Eq, Hash, Debug)]
pub struct RuleSet {
    pub egress: Vec<Rule>,
    pub ingress: Vec<Rule>,
}

/// A rule set as two sequences of rule views.
pub struct RuleSetView {
    pub egress: Seq<RuleView>,
    pub ingress: Seq<RuleView>,
}

impl View for RuleSet {
    type V = RuleSetView;

    open spec fn view(&self) -> RuleSetView {
        RuleSetView { egress: rule_views(self.egress@), ingress: rule_views(self.ingress@) }
    }
}

impl RuleSet {
    /// No rule in either direction.
    pub fn new() -> (rules: RuleSet)
        ensures
            rules@ == (RuleSetView { egress: Seq::empty(), ingress: Seq::empty() }),
    {
        let rules = RuleSet { egress: Vec::new(), ingress: Vec::new() };
        assert(rules@.egress =~= Seq::empty());
        assert(rules@.ingress =~= Seq::empty());
        rules
    }

    /// Appends a rule for the outgoing direction.
    pub fn add_egress_rule(&mut self, egress_rule: Rule)
        ensures
            final(self)@ == (RuleSetView {
                egress: old(self)@.egress.push(egress_rule@),
                ..old(self)@
            }),
    {
        self.egress.push(egress_rule);
        assert(self@.egress =~= old(self)@.egress.push(egress_rule@));
    }

    /// Appends a rule for the incoming direction.
    pub fn add_ingress_rule(&mut self, ingress_rule: Rule)
        ensures
            final(self)@ == (RuleSetView {
                ingress: old(self)@.ingress.push(ingress_rule@),
                ..old(self)@
            }),
    {
        self.ingress.push(ingress_rule);
        assert(self@.ingress =~= old(self)@.ingress.push(ingress_rule@));
    }
}

/// Two lists of rules have equal views exactly when they are as long as each
/// other and agree place by place.
proof fn lemma_rule_views_equal(left: Seq<Rule>, right: Seq<Rule>)
    ensures
        rule_views(left) == rule_views(right) <==> (left.len() == right.len() && forall|i: int|
            0 <= i < left.len() ==> (#[trigger] left[i])@ == right[i]@),
{
    let l = rule_views(left);
    let r = rule_views(right);
    if l == r {
        assert(left.len() == l.len());
        assert(right.len() == r.len());
        assert forall|i: int| 0 <= i < left.len() implies (#[trigger] left[i])@ == right[i]@ by {
            assert(l[i] == r[i]);
        }
    }
    if left.len() == right.len() && forall|i: int|
        0 <= i < left.len() ==> (#[trigger] left[i])@ == right[i]@ {
        assert(l =~= r);
    }
}

impl PartialEq for RuleSet {
    fn eq(&self, other: &RuleSet) -> (same: bool) {
        proof {
            lemma_rule_views_equal(self.egress@, other.egress@);
            lemma_rule_views_equal(self.ingress@, other.ingress@);
        }
        self.egress == other.egress && self.ingress == other.ingress
    }
}

impl PartialEqSpecImpl for RuleSet {
    open spec fn obeys_eq_spec() -> bool {
        true
    }

    open spec fn eq_spec(&self, other: &RuleSet) -> bool {
        self@ == other@
    }
}

// ---- BindingRule ----
/// One binding: connections accepted on `from` are forwarded to `to`.
///
/// Both addresses are kept as written, `host:port`; they are resolved to
/// endpoints when the listeners are started. Two bindings are the same
/// binding when all four fields agree.
#[derive(Eq, Hash, Debug)]
pub struct BindingRule {
    pub name: String,
    pub from: String,
    pub to: String,
    pub rules: RuleSet,
}

/// A binding as plain values.
pub struct BindingRuleView {
    pub name: Seq<char>,
    pub from: Seq<char>,
    pub to: Seq<char>,
    pub rules: RuleSetView,
}

impl View for BindingRule {
    type V = BindingRuleView;

    open spec fn view(&self) -> BindingRuleView {
        BindingRuleView { name: self.name@, from: self.from@, to: self.to@, rules: self.rules@ }
    }
}

impl BindingRule {
    pub fn new(name: String, from: String, to: String, rules: RuleSet) -> (binding: BindingRule)
        ensures
            binding@ == (BindingRuleView { name: name@, from: from@, to: to@, rules: rules@ }),
    {
        BindingRule { name, from, to, rules }
    }

    /// A binding between two addresses, without rules, under a fresh name.
    /// The name is a random identifier of 36 characters.
    pub fn from_to_string(from_str: String, to_str: String) -> (binding: BindingRule)
        ensures
            binding@.from == from_str@,
            binding@.to == to_str@,
            binding@.rules == (RuleSetView { egress: Seq::empty(), ingress: Seq::empty() }),
            binding@.name.len() == 36,
    {
        BindingRule::new(fresh_identifier(), from_str, to_str, RuleSet::new())
    }
}

impl PartialEq for BindingRule {
    fn eq(&self, other: &BindingRule) -> (same: bool) {
        self.name == other.name && self.from == other.from && self.to == other.to && self.rules
            == other.rules
    }
}

impl PartialEqSpecImpl for BindingRule {
    open spec fn obeys_eq_spec() -> bool {
        true
    }

    open spec fn eq_spec(&self, other: &BindingRule) -> bool {
        self@ == other@
    }
}

/// The views of a list of bindings, in order.
pub open spec fn binding_rule_views(rules: Seq<BindingRule>) -> Seq<BindingRuleView> {
    Seq::new(rules.len(), |i: int| rules[i]@)
}

// ---- Set semantics ----
/// `bindings` with `rule` added at the end, unless it is there already.
pub open spec fn insert_rule(bindings: Seq<BindingRuleView>, rule: BindingRuleView) -> Seq<
    BindingRuleView,
> {
    if bindings.contains(rule) {
        bindings
    } else {
        bindings.push(rule)
    }
}

/// `bindings` after the members of `rules` were added one after the other.
pub open spec fn insert_rules(bindings: Seq<BindingRuleView>, rules: Seq<BindingRuleView>) -> Seq<
    BindingRuleView,
>
    decreases rules.len(),
{
    if rules.len() == 0 {
        bindings
    } else {
        insert_rule(insert_rules(bindings, rules.drop_last()), rules.last())
    }
}

/// For each member of `rules`, whether adding it changed the set: whether it
/// was neither in `bindings` nor earlier in `rules`.
pub open spec fn insertions(bindings: Seq<BindingRuleView>, rules: Seq<BindingRuleView>) -> Seq<
    bool,
> {
    Seq::new(rules.len(), |i: int| !insert_rules(bindings, rules.take(i)).contains(rules[i]))
}

/// Adding bindings one after the other keeps the members distinct, and what
/// is held in the end is what was held before together with what was added.
pub proof fn lemma_insert_rules_is_union(
    bindings: Seq<BindingRuleView>,
    rules: Seq<BindingRuleView>,
)
    requires
        bindings.no_duplicates(),
    ensures
        insert_rules(bindings, rules).no_duplicates(),
        insert_rules(bindings, rules).to_set() == bindings.to_set().union(rules.to_set()),
        insert_rules(bindings, rules).len() == bindings.to_set().union(rules.to_set()).len(),
    decreases rules.len(),
{
    let result = insert_rules(bindings, rules);
    if rules.len() == 0 {
        assert(result.to_set() =~= bindings.to_set().union(rules.to_set()));
    } else {
        let before = insert_rules(bindings, rules.drop_last());
        lemma_insert_rules_is_union(bindings, rules.drop_last());
        let last = rules.last();
        assert forall|v: BindingRuleView| result.to_set().contains(v) <==> bindings.to_set().union(
            rules.to_set(),
        ).contains(v) by {
            assert(before.to_set().contains(v) <==> before.contains(v));
            assert(result.to_set().contains(v) <==> result.contains(v));
            if result.contains(v) {
                if before.contains(v) {
                    if rules.drop_last().contains(v) {
                        let i = choose|i: int|
                            0 <= i < rules.drop_last().len() && rules.drop_last()[i] == v;
                        assert(rules[i] == v);
                    }
                } else {
                    let i = choose|i: int| 0 <= i < result.len() && result[i] == v;
                    assert(result == before.push(last));
                    if i < before.len() {
                        assert(before[i] == v);
                    }
                    assert(v == last);
                    assert(rules[rules.len() - 1] == v);
                }
            }
            if bindings.contains(v) || rules.contains(v) {
                if rules.contains(v) && !bindings.contains(v) {
                    let i = choose|i: int| 0 <= i < rules.len() && rules[i] == v;
                    if i < rules.len() - 1 {
                        assert(rules.drop_last()[i] == v);
                        assert(before.to_set().contains(v));
                    }
                } else {
                    assert(before.to_set().contains(v));
                }
                if before.contains(v) {
                    if !before.contains(last) {
                        let i = choose|i: int| 0 <= i < before.len() && before[i] == v;
                        assert(before.push(last)[i] == v);
                    }
                } else {
                    assert(v == last);
                    assert(before.push(last)[before.len() as int] == v);
                }
            }
        }
        assert(result.to_set() =~= bindings.to_set().union(rules.to_set()));
    }
    result.unique_seq_to_set();
}

// ---- BindingRules ----
/// A set of bindings, in the order in which they were added.
#[derive(Debug)]
pub struct BindingRules {
    rules: Vec<BindingRule>,
}

impl View for BindingRules {
    type V = Seq<BindingRuleView>;

    closed spec fn view(&self) -> Seq<BindingRuleView> {
        binding_rule_views(self.rules@)
    }
}

impl BindingRules {
    /// No binding is held twice.
    #[verifier::type_invariant]
    spec fn distinct(&self) -> bool {
        binding_rule_views(self.rules@).no_duplicates()
    }

    /// The empty set.
    pub fn new() -> (set: BindingRules)
        ensures
            set@ == Seq::<BindingRuleView>::empty(),
    {
        let set = BindingRules { rules: Vec::new() };
        assert(set@ =~= Seq::empty());
        set
    }

    /// The number of bindings held.
    pub fn len(&self) -> (count: usize)
        ensures
            count == self@.len(),
            self@.no_duplicates(),
            count == self@.to_set().len(),
    {
        proof {
            use_type_invariant(self);
            self@.unique_seq_to_set();
        }
        self.rules.len()
    }

    pub fn is_empty(&self) -> (empty: bool)
        ensures
            empty == (self@.len() == 0),
    {
        self.rules.len() == 0
    }

    /// Whether `rule` is held.
    pub fn contains(&self, rule: &BindingRule) -> (held: bool)
        ensures
            held == self@.contains(rule@),
    {
        let mut index: usize = 0;
        while index < self.rules.len()
            invariant
                index <= self.rules.len(),
                forall|i: int| 0 <= i < index ==> (#[trigger] self@[i]) != rule@,
            decreases self.rules.len() - index,
        {
            if self.rules[index] == *rule {
                assert(self@[index as int] == rule@);
                return true;
            }
            index += 1;
        }
        false
    }

    /// Adds `rule` unless it is held already, and says whether it was added.
    pub fn insert(&mut self, rule: BindingRule) -> (added: bool)
        ensures
            added == !old(self)@.contains(rule@),
            final(self)@ == insert_rule(old(self)@, rule@),
            final(self)@.no_duplicates(),
    {
        proof {
            use_type_invariant(&*self);
        }
        if self.contains(&rule) {
            false
        } else {
            let ghost before = self@;
            let ghost added_view = rule@;
            let mut rules: Vec<BindingRule> = Vec::new();
            assert(binding_rule_views(rules@) =~= Seq::empty());
            core::mem::swap(&mut self.rules, &mut rules);
            rules.push(rule);
            proof {
                let after = binding_rule_views(rules@);
                assert(after =~= before.push(added_view));
                assert forall|i: int, j: int|
                    0 <= i < after.len() && 0 <= j < after.len() && i != j implies after[i]
                    != after[j] by {
                    if i < before.len() {
                        assert(before[i] == after[i]);
                    }
                    if j < before.len() {
                        assert(before[j] == after[j]);
                    }
                }
            }
            core::mem::swap(&mut self.rules, &mut rules);
            true
        }
    }

    /// The binding at place `index`, counting from the first one added.
    pub fn get(&self, index: usize) -> (rule: &BindingRule)
        requires
            index < self@.len(),
        ensures
            rule@ == self@[index as int],
    {
        &self.rules[index]
    }

    /// The bindings as a list, in the order in which they were added.
    pub fn into_vec(self) -> (rules: Vec<BindingRule>)
        ensures
            binding_rule_views(rules@) == self@,
            self@.no_duplicates(),
    {
        proof {
            use_type_invariant(&self);
        }
        self.rules
    }
}

// ---- BindingSet ----
/// The bindings that a proxy serves, under an identifier, with a flag that
/// says whether they were put into effect.
#[derive(Debug)]
pub struct BindingSet {
    pub id: String,
    pub applied: bool,
    pub bindings: BindingRules,
}

/// A binding set as plain values; `bindings` holds no binding twice.
pub struct BindingSetView {
    pub id: Seq<char>,
    pub applied: bool,
    pub bindings: Seq<BindingRuleView>,
}

impl View for BindingSet {
    type V = BindingSetView;

    open spec fn view(&self) -> BindingSetView {
        BindingSetView { id: self.id@, applied: self.applied, bindings: self.bindings@ }
    }
}

impl BindingSet {
    /// An empty set that is not applied.
    pub fn new(id: String) -> (set: BindingSet)
        ensures
            set@ == (BindingSetView { id: id@, applied: false, bindings: Seq::empty() }),
    {
        BindingSet { id, applied: false, bindings: BindingRules::new() }
    }

    /// Adds one binding. A binding equal to one that is held is dropped, and
    /// the answer is then `false`.
    pub fn add_rule(&mut self, rule: BindingRule) -> (added: bool)
        ensures
            added == !old(self)@.bindings.contains(rule@),
            final(self)@ == (BindingSetView {
                bindings: insert_rule(old(self)@.bindings, rule@),
                ..old(self)@
            }),
            final(self)@.bindings.no_duplicates(),
    {
        self.bindings.insert(rule)
    }

    /// Adds the bindings one after the other and answers for each as
    /// [`BindingSet::add_rule`] does.
    pub fn add_rules(&mut self, rules: Vec<BindingRule>) -> (rules_present: Vec<bool>)
        ensures
            rules_present@ == insertions(old(self)@.bindings, binding_rule_views(rules@)),
            final(self)@ == (BindingSetView {
                bindings: insert_rules(old(self)@.bindings, binding_rule_views(rules@)),
                ..old(self)@
            }),
            final(self)@.bindings.no_duplicates(),
    {
        let mut rules_present: Vec<bool> = Vec::new();
        let ghost start = self@.bindings;
        let ghost all = binding_rule_views(rules@);
        proof {
            use_type_invariant(&self.bindings);
        }
        assert(all.take(0) =~= Seq::empty());
        for rule in it: rules.into_iter()
            invariant
                it.seq() == rules@,
                all == binding_rule_views(rules@),
                self@.id == old(self)@.id,
                self@.applied == old(self)@.applied,
                self@.bindings == insert_rules(start, all.take(it.index())),
                self@.bindings.no_duplicates(),
                rules_present@.len() == it.index(),
                forall|i: int|
                    0 <= i < it.index() ==> rules_present@[i] == !insert_rules(
                        start,
                        all.take(i),
                    ).contains(all[i]),
        {
            let ghost index = it.index();
            assert(all[index] == rule@);
            assert(all.take(index + 1).drop_last() =~= all.take(index));
            let added = self.add_rule(rule);
            rules_present.push(added);
        }
        assert(all.take(all.len() as int) =~= all);
        assert(rules_present@ =~= insertions(start, all));
        rules_present
    }

    /// The set that a binding document describes, under the given
    /// identifier and not yet applied: every binding of the document once,
    /// in the order of its first occurrence.
    pub fn from_file(id: String, document: JSONBindingSet) -> (set: BindingSet)
        ensures
            set@ == (BindingSetView {
                id: id@,
                applied: false,
                bindings: insert_rules(Seq::empty(), bindings_of_json(document.bindings@)),
            }),
            set@.bindings.no_duplicates(),
            set@.bindings.to_set() == bindings_of_json(document.bindings@).to_set(),
            set@.bindings.len() == bindings_of_json(document.bindings@).to_set().len(),
    {
        proof {
            let described = bindings_of_json(document.bindings@);
            lemma_insert_rules_is_union(Seq::empty(), described);
            assert(Seq::<BindingRuleView>::empty().to_set().union(described.to_set())
                =~= described.to_set());
        }
        BindingSet { id, applied: false, bindings: assemble_bindings_from_json(document) }
    }

    pub fn set_applied(&mut self, new_applied_setting: bool)
        ensures
            final(self)@ == (BindingSetView { applied: new_applied_setting, ..old(self)@ }),
    {
        self.applied = new_applied_setting;
    }
}

// ---- Reading the document ----
/// The header mappings that a written list stands for.
pub open spec fn header_mappings_of_json(mappings: Seq<JSONHeaderMapping>) -> Seq<
    HeaderMappingView,
> {
    Seq::new(
        mappings.len(),
        |i: int| HeaderMappingView { key: mappings[i].key@, value: mappings[i].value@ },
    )
}

/// The rule that a written rule stands for: the kind and the method by their
/// names, with the fallbacks of [`rule_type_named`] and
/// [`http_method_named`], the other fields as they are.
pub open spec fn rule_of_json(json: JSONRule) -> RuleView {
    RuleView {
        kind: rule_type_named(json.kind@),
        header_mappings: header_mappings_of_json(json.header_mappings@),
        url_wildcard: json.url_wildcard@,
        method_enum: http_method_named(json.method_enum@),
        version_float: json.version_float@,
    }
}

/// The rules that a written list stands for.
pub open spec fn rules_of_json(rules: Seq<JSONRule>) -> Seq<RuleView> {
    Seq::new(rules.len(), |i: int| rule_of_json(rules[i]))
}

/// The binding that a written binding stands for.
pub open spec fn binding_of_json(json: JSONBinding) -> BindingRuleView {
    BindingRuleView {
        name: json.name@,
        from: json.from@,
        to: json.to@,
        rules: RuleSetView {
            egress: rules_of_json(json.rules.egress@),
            ingress: rules_of_json(json.rules.ingress@),
        },
    }
}

/// The bindings that a written list stands for, duplicates included.
pub open spec fn bindings_of_json(bindings: Seq<JSONBinding>) -> Seq<BindingRuleView> {
    Seq::new(bindings.len(), |i: int| binding_of_json(bindings[i]))
}

/// Builds the rule that a written rule stands for.
pub fn assemble_rules_from_json(json_val: JSONRule) -> (rule: Rule)
    ensures
        rule@ == rule_of_json(json_val),
{
    let kind = match RuleType::from_str(json_val.kind.as_str()) {
        Ok(kind) => kind,
        Err(_) => RuleType::URL,
    };
    let mut rule: Rule = Rule::new(kind);
    let ghost written = json_val.header_mappings@;
    assert(header_mappings_of_json(written).take(0) =~= Seq::empty());
    for mapping in it: json_val.header_mappings.into_iter()
        invariant
            it.seq() == written,
            rule@ == (RuleView {
                kind,
                header_mappings: header_mappings_of_json(written).take(it.index()),
                url_wildcard: "."@,
                method_enum: HttpMethod::GET,
                version_float: "1.1"@,
            }),
    {
        let ghost index = it.index();
        assert(header_mappings_of_json(written).take(index).push(
            header_mappings_of_json(written)[index],
        ) =~= header_mappings_of_json(written).take(index + 1));
        rule.add_header_mapping(HeaderMapping::new(mapping.key, mapping.value));
    }
    assert(header_mappings_of_json(written).take(written.len() as int) =~= header_mappings_of_json(
        written,
    ));
    rule.url_wildcard = json_val.url_wildcard;
    rule.method_enum = match HttpMethod::from_str(json_val.method_enum.as_str()) {
        Ok(method) => method,
        Err(_) => HttpMethod::GET,
    };
    rule.version_float = json_val.version_float;
    rule
}

/// Builds the rules that a written list stands for.
fn assemble_rule_list(rules: Vec<JSONRule>) -> (built: Vec<Rule>)
    ensures
        rule_views(built@) == rules_of_json(rules@),
{
    let mut built: Vec<Rule> = Vec::new();
    let ghost written = rules@;
    assert(rule_views(built@) =~= rules_of_json(written).take(0));
    for json_rule in it: rules.into_iter()
        invariant
            it.seq() == written,
            rule_views(built@) == rules_of_json(written).take(it.index()),
    {
        let ghost index = it.index();
        let ghost before = rule_views(built@);
        let rule = assemble_rules_from_json(json_rule);
        built.push(rule);
        assert(rule_views(built@) =~= before.push(rules_of_json(written)[index]));
        assert(before.push(rules_of_json(written)[index]) =~= rules_of_json(written).take(
            index + 1,
        ));
    }
    assert(rules_of_json(written).take(written.len() as int) =~= rules_of_json(written));
    built
}

/// Builds the set of bindings that a document describes: each binding with
/// its rules in both directions, added in the order of the document.
pub fn assemble_bindings_from_json(json_val: JSONBindingSet) -> (set: BindingRules)
    ensures
        set@ == insert_rules(Seq::empty(), bindings_of_json(json_val.bindings@)),
{
    let mut binding_rule_set = BindingRules::new();
    let ghost written = json_val.bindings@;
    let ghost described = bindings_of_json(written);
    assert(described.take(0) =~= Seq::empty());
    for binding in it: json_val.bindings.into_iter()
        invariant
            it.seq() == written,
            described == bindings_of_json(written),
            binding_rule_set@ == insert_rules(Seq::empty(), described.take(it.index())),
    {
        let ghost index = it.index();
        assert(described.take(index + 1).drop_last() =~= described.take(index));
        let mut ruleset = RuleSet::new();
        ruleset.egress = assemble_rule_list(binding.rules.egress);
        ruleset.ingress = assemble_rule_list(binding.rules.ingress);
        let rule = BindingRule::new(binding.name, binding.from, binding.to, ruleset);
        assert(rule@ == described[index]);
        binding_rule_set.insert(rule);
    }
    assert(described.take(described.len() as int) =~= described);
    binding_rule_set
}

} // verus!
