//! Policy engine: the rules per tool and their evaluation against a request.
use vstd::prelude::*;

use crate::json::JsonValue;
use crate::pattern::{regex_accepts_pattern, regex_finds_match, regex_search};
use std::path::PathBuf;

verus! {

/// `std::path::PathBuf`, carried through as an opaque value.
#[verifier::external_type_specification]
#[verifier::external_body]
pub struct ExPathBuf(PathBuf);

/// The action to take when a rule matches.
#[derive(Debug, Clone, Copy, PartialEq, Eq, Structural)]
pub enum Action {
    /// Allow the tool execution.
    Allow,
    /// Block the tool execution immediately.
    Deny,
    /// Pause and ask the human in the loop for approval.
    Prompt,
}

/// A rule applying to a specific tool or resource name.
#[derive(Debug)]
pub struct ToolRule {
    /// The default action for this tool.
    pub action: Action,
    /// Regex patterns that deny the request when any string argument matches
    /// one of them, whatever the action.
    pub deny_patterns: Vec<String>,
}

/// Audit configuration options from the policy.
#[derive(Debug, Clone)]
pub struct AuditConfig {
    /// Optional path to the audit log file.
    pub log_file: Option<PathBuf>,
    /// Optional log level (e.g. info, debug).
    pub log_level: Option<String>,
}

/// The rules of a policy, one per tool name.
#[derive(Debug)]
pub struct ToolRules {
    entries: Vec<(String, ToolRule)>,
}

/// The top-level policy configuration structure.
#[derive(Debug, Clone)]
pub struct Policy {
    /// Audit configuration block.
    pub audit: AuditConfig,
    /// The rule of each tool name.
    pub tools: ToolRules,
}

/// The final decision for a tool request.
#[derive(Debug, Clone, PartialEq, Eq)]
pub enum Evaluation {
    /// Request is allowed.
    Allowed,
    /// Request is denied immediately (either by deny action or via regex hit),
    /// with the reason.
    Denied(String),
    /// Request needs manual approval.
    PromptRequired,
}

/// The content of an [`Evaluation`].
pub enum Decision {
    Allowed,
    Denied(Seq<char>),
    PromptRequired,
}

impl Evaluation {
    pub open spec fn decision(self) -> Decision {
        match self {
            Evaluation::Allowed => Decision::Allowed,
            Evaluation::Denied(msg) => Decision::Denied(msg@),
            Evaluation::PromptRequired => Decision::PromptRequired,
        }
    }
}

/// The names of the rules, in the order they are held.
pub open spec fn rule_names(entries: Seq<(String, ToolRule)>) -> Seq<Seq<char>> {
    entries.map_values(|e: (String, ToolRule)| e.0@)
}

/// The map from tool name to rule that `entries` holds.
pub open spec fn rules_map(entries: Seq<(String, ToolRule)>) -> Map<Seq<char>, ToolRule> {
    Map::new(
        |k: Seq<char>| rule_names(entries).contains(k),
        |k: Seq<char>| entries[rule_names(entries).index_of(k)].1,
    )
}

impl ToolRules {
    #[verifier::type_invariant]
    spec fn names_distinct(self) -> bool {
        rule_names(self.entries@).no_duplicates()
    }

    /// No rules at all.
    pub fn new() -> (r: ToolRules)
        ensures
            r@ == Map::<Seq<char>, ToolRule>::empty(),
    {
        let r = ToolRules { entries: Vec::new() };
        assert(r@ =~= Map::<Seq<char>, ToolRule>::empty());
        r
    }

    /// The number of tool names that have a rule.
    pub fn len(&self) -> (r: usize)
        ensures
            r == self@.len(),
    {
        proof {
            use_type_invariant(self);
            let names = rule_names(self.entries@);
            names.unique_seq_to_set();
            assert(self@.dom() =~= names.to_set());
        }
        self.entries.len()
    }

    /// The rule for `name`, if there is one.
    pub fn get(&self, name: &str) -> (r: Option<&ToolRule>)
        ensures
            match r {
                Some(rule) => self@.contains_key(name@) && *rule == self@[name@],
                None => !self@.contains_key(name@),
            },
    {
        proof {
            use_type_invariant(self);
        }
        let wanted = String::from_str(name);
        let ghost names = rule_names(self.entries@);
        let mut i: usize = 0;
        while i < self.entries.len()
            invariant
                i <= self.entries@.len(),
                wanted@ == name@,
                names == rule_names(self.entries@),
                names.no_duplicates(),
                forall|j: int| 0 <= j < i ==> names[j] != name@,
            decreases self.entries@.len() - i,
        {
            if self.entries[i].0 == wanted {
                assert(names[i as int] == name@);
                assert(names.contains(name@));
                assert(names.index_of(name@) == i as int);
                return Some(&self.entries[i].1);
            }
            i = i + 1;
        }
        assert(!names.contains(name@));
        None
    }

    /// Sets the rule for `name`, and returns the rule it had before.
    pub fn insert(&mut self, name: String, rule: ToolRule) -> (r: Option<ToolRule>)
        ensures
            final(self)@ == old(self)@.insert(name@, rule),
            match r {
                Some(prev) => old(self)@.contains_key(name@) && prev == old(self)@[name@],
                None => !old(self)@.contains_key(name@),
            },
    {
        proof {
            use_type_invariant(&*self);
        }
        let ghost before = self.entries@;
        let ghost old_map = rules_map(before);
        let mut entries: Vec<(String, ToolRule)> = Vec::new();
        std::mem::swap(&mut entries, &mut self.entries);
        assert(entries@ == before);
        let ghost names = rule_names(before);
        let mut i: usize = 0;
        while i < entries.len()
            invariant
                entries@ == before,
                old_map == rules_map(before),
                old(self)@ == old_map,
                names == rule_names(before),
                names.no_duplicates(),
                i <= before.len(),
                forall|j: int| 0 <= j < i ==> names[j] != name@,
            decreases before.len() - i,
        {
            if entries[i].0 == name {
                assert(names[i as int] == name@);
                assert(names.index_of(name@) == i as int);
                let (_, prev) = entries.remove(i);
                entries.insert(i, (name, rule));
                proof {
                    let after = entries@;
                    assert(after =~= before.update(i as int, after[i as int]));
                    assert(rule_names(after) =~= names) by {
                        assert forall|j: int| 0 <= j < names.len() implies rule_names(after)[j]
                            == names[j] by {
                            if j != i {
                                assert(after[j] == before[j]);
                            }
                        }
                    }
                    assert(names.contains(name@));
                    assert(rules_map(after) =~= old_map.insert(name@, rule)) by {
                        assert(rules_map(after).dom() =~= old_map.insert(name@, rule).dom());
                        assert forall|k: Seq<char>| #[trigger]
                            rules_map(after).contains_key(k) implies rules_map(after)[k]
                            == old_map.insert(name@, rule)[k] by {
                            let idx = names.index_of(k);
                            assert(names.contains(k));
                            assert(0 <= idx < names.len() && names[idx] == k);
                            if k == name@ {
                                assert(idx == i as int);
                            } else {
                                assert(idx != i as int);
                                assert(after[idx] == before[idx]);
                            }
                        }
                    }
                }
                self.entries = entries;
                return Some(prev);
            }
            i = i + 1;
        }
        assert(!names.contains(name@));
        entries.push((name, rule));
        proof {
            let after = entries@;
            assert(rule_names(after) =~= names.push(name@));
            assert(rule_names(after).no_duplicates()) by {
                assert forall|a: int, b: int|
                    0 <= a < rule_names(after).len() && 0 <= b < rule_names(after).len() && a
                        != b implies rule_names(after)[a] != rule_names(after)[b] by {
                    if a < names.len() && b < names.len() {
                    } else if a == names.len() {
                        assert(rule_names(after)[b] == names[b]);
                    } else {
                        assert(rule_names(after)[a] == names[a]);
                    }
                }
            }
            assert(rules_map(after) =~= old_map.insert(name@, rule)) by {
                assert forall|k: Seq<char>| #[trigger]
                    rules_map(after).contains_key(k) implies rules_map(after)[k]
                    == old_map.insert(name@, rule)[k] by {
                    let idx = rule_names(after).index_of(k);
                    if k == name@ {
                        assert(rule_names(after)[names.len() as int] == name@);
                        assert(idx == names.len());
                    } else {
                        assert(0 <= idx < names.len());
                        assert(names[idx] == k);
                        assert(names.index_of(k) == idx);
                    }
                }
                assert forall|k: Seq<char>|
                    old_map.insert(name@, rule).contains_key(k) implies #[trigger] rules_map(
                    after,
                ).contains_key(k) by {
                    if k != name@ {
                        let idx = names.index_of(k);
                        assert(rule_names(after)[idx] == k);
                    } else {
                        assert(rule_names(after)[names.len() as int] == name@);
                    }
                }
            }
        }
        self.entries = entries;
        None
    }
}

/// The entries that deny patterns are checked against: those of the
/// arguments when they are a JSON object, and none otherwise.
pub open spec fn argument_entries(arguments: Option<&JsonValue>) -> Seq<(String, JsonValue)> {
    match arguments {
        Some(v) => match *v {
            JsonValue::Object(entries) => entries@,
            _ => Seq::empty(),
        },
        None => Seq::empty(),
    }
}

/// Whether `value` is a JSON string in which `pattern` finds a match.
pub open spec fn string_value_matches(pattern: Seq<char>, value: JsonValue) -> bool {
    match value {
        JsonValue::Str(s) => regex_finds_match(pattern, s@),
        _ => false,
    }
}

/// Whether `pattern` denies a request with these argument entries: the
/// pattern compiles and matches the text of some string value.
pub open spec fn pattern_denies(pattern: Seq<char>, entries: Seq<(String, JsonValue)>) -> bool {
    &&& regex_accepts_pattern(pattern)
    &&& exists|j: int| 0 <= j < entries.len() && #[trigger] string_value_matches(pattern, entries[j].1)
}

/// Whether the `k`-th pattern is the first that denies.
pub open spec fn is_first_denying(patterns: Seq<String>, entries: Seq<(String, JsonValue)>, k: int) -> bool {
    &&& 0 <= k < patterns.len()
    &&& pattern_denies(patterns[k]@, entries)
    &&& forall|j: int| 0 <= j < k ==> !pattern_denies(#[trigger] patterns[j]@, entries)
}

/// Whether some pattern denies.
pub open spec fn some_pattern_denies(patterns: Seq<String>, entries: Seq<(String, JsonValue)>) -> bool {
    exists|k: int| 0 <= k < patterns.len() && pattern_denies(#[trigger] patterns[k]@, entries)
}

/// The reason given when a deny pattern matches.
pub open spec fn pattern_denial_reason(pattern: Seq<char>) -> Seq<char> {
    "Argument matched deny pattern: "@ + pattern
}

/// The reason given when the rule's action is `deny`.
pub open spec fn action_denial_reason() -> Seq<char> {
    "Blocked by explicit deny action in policy."@
}

/// The decision for a request to `name` with `arguments` under `rules`.
///
/// A tool without a rule needs approval. Otherwise the first deny pattern
/// that matches a string argument denies the request, whatever the action;
/// where none does, the rule's action decides.
pub open spec fn decide(rules: Map<Seq<char>, ToolRule>, name: Seq<char>, arguments: Option<&JsonValue>) -> Decision {
    if !rules.contains_key(name) {
        Decision::PromptRequired
    } else {
        let rule = rules[name];
        let entries = argument_entries(arguments);
        if exists|k: int| is_first_denying(rule.deny_patterns@, entries, k) {
            let k = choose|k: int| is_first_denying(rule.deny_patterns@, entries, k);
            Decision::Denied(pattern_denial_reason(rule.deny_patterns@[k]@))
        } else {
            match rule.action {
                Action::Allow => Decision::Allowed,
                Action::Deny => Decision::Denied(action_denial_reason()),
                Action::Prompt => Decision::PromptRequired,
            }
        }
    }
}

/// There is at most one first denying pattern.
pub proof fn lemma_first_denying_unique(patterns: Seq<String>, entries: Seq<(String, JsonValue)>, a: int, b: int)
    requires
        is_first_denying(patterns, entries, a),
        is_first_denying(patterns, entries, b),
    ensures
        a == b,
{
    if a < b {
        assert(!pattern_denies(patterns[a]@, entries));
    } else if b < a {
        assert(!pattern_denies(patterns[b]@, entries));
    }
}

/// Where some pattern denies, one of them is the first.
pub proof fn lemma_first_denying_exists(patterns: Seq<String>, entries: Seq<(String, JsonValue)>, k: int)
    requires
        0 <= k < patterns.len(),
        pattern_denies(patterns[k]@, entries),
    ensures
        exists|f: int| f <= k && is_first_denying(patterns, entries, f),
    decreases k,
{
    if forall|j: int| 0 <= j < k ==> !pattern_denies(#[trigger] patterns[j]@, entries) {
        assert(is_first_denying(patterns, entries, k));
    } else {
        let j = choose|j: int| 0 <= j < k && pattern_denies(#[trigger] patterns[j]@, entries);
        lemma_first_denying_exists(patterns, entries, j);
    }
}

/// The index of the first pattern that denies a request with these
/// arguments.
fn first_denying_pattern(patterns: &Vec<String>, arguments: Option<&JsonValue>) -> (r: Option<usize>)
    ensures
        match r {
            Some(k) => is_first_denying(patterns@, argument_entries(arguments), k as int),
            None => !some_pattern_denies(patterns@, argument_entries(arguments)),
        },
{
    let ghost entries = argument_entries(arguments);
    let object: &Vec<(String, JsonValue)> = match arguments {
        Some(JsonValue::Object(es)) => es,
        _ => {
            assert(entries.len() == 0);
            return None;
        },
    };
    assert(object@ == entries);
    let mut k: usize = 0;
    while k < patterns.len()
        invariant
            object@ == entries,
            entries == argument_entries(arguments),
            k <= patterns@.len(),
            forall|j: int| 0 <= j < k ==> !pattern_denies(#[trigger] patterns@[j]@, entries),
        decreases patterns@.len() - k,
    {
        let pattern = patterns[k].as_str();
        let mut i: usize = 0;
        let mut denies = false;
        while i < object.len()
            invariant_except_break
                !denies,
            invariant
                object@ == entries,
                k < patterns@.len(),
                pattern@ == patterns@[k as int]@,
                i <= entries.len(),
                forall|j: int| 0 <= j < i ==> !string_value_matches(pattern@, #[trigger] entries[j].1)
                    || !regex_accepts_pattern(pattern@),
            ensures
                denies ==> pattern_denies(pattern@, entries),
                !denies ==> !pattern_denies(pattern@, entries),
            decreases entries.len() - i,
        {
            if let JsonValue::Str(text) = &object[i].1 {
                match regex_search(pattern, text.as_str()) {
                    None => {
                        break;
                    },
                    Some(true) => {
                        assert(string_value_matches(pattern@, entries[i as int].1));
                        denies = true;
                        break;
                    },
                    Some(false) => {},
                }
            }
            i = i + 1;
        }
        if denies {
            return Some(k);
        }
        k = k + 1;
    }
    None
}

impl Policy {
    /// Evaluates a tool or resource request against the policy.
    ///
    /// * `tool_name` - The `name` parameter of the MCP request.
    /// * `arguments` - The `arguments` of the MCP request.
    pub fn evaluate(&self, tool_name: &str, arguments: Option<&JsonValue>) -> (r: Evaluation)
        ensures
            r.decision() == decide(self.tools@, tool_name@, arguments),
    {
        match self.tools.get(tool_name) {
            None => Evaluation::PromptRequired,
            Some(rule) => {
                let ghost entries = argument_entries(arguments);
                match first_denying_pattern(&rule.deny_patterns, arguments) {
                    Some(k) => {
                        proof {
                            let c = choose|c: int| is_first_denying(rule.deny_patterns@, entries, c);
                            lemma_first_denying_unique(rule.deny_patterns@, entries, c, k as int);
                        }
                        let mut reason = String::from_str("Argument matched deny pattern: ");
                        reason.append(rule.deny_patterns[k].as_str());
                        Evaluation::Denied(reason)
                    },
                    None => {
                        assert(!exists|c: int| is_first_denying(rule.deny_patterns@, entries, c));
                        match rule.action {
                            Action::Allow => Evaluation::Allowed,
                            Action::Deny => Evaluation::Denied(
                                String::from_str("Blocked by explicit deny action in policy."),
                            ),
                            Action::Prompt => Evaluation::PromptRequired,
                        }
                    },
                }
            },
        }
    }
}

impl Default for AuditConfig {
    fn default() -> (r: AuditConfig)
        ensures
            r.log_file is None,
            r.log_level is None,
    {
        AuditConfig { log_file: None, log_level: None }
    }
}

impl Default for Policy {
    fn default() -> (r: Policy)
        ensures
            r.tools@ == Map::<Seq<char>, ToolRule>::empty(),
            r.audit.log_file is None,
            r.audit.log_level is None,
    {
        Policy { audit: AuditConfig { log_file: None, log_level: None }, tools: ToolRules::new() }
    }
}

/// A tool that the policy does not list is never allowed outright: it needs
/// approval, whatever its arguments.
pub proof fn law_unlisted_tool_needs_approval(
    rules: Map<Seq<char>, ToolRule>,
    name: Seq<char>,
    arguments: Option<&JsonValue>,
)
    requires
        !rules.contains_key(name),
    ensures
        decide(rules, name, arguments) == Decision::PromptRequired,
{
}

/// A deny pattern that compiles and matches the text of a string argument
/// denies the request, overriding the rule's action.
pub proof fn law_deny_pattern_overrides_action(
    rules: Map<Seq<char>, ToolRule>,
    name: Seq<char>,
    arguments: Option<&JsonValue>,
    k: int,
)
    requires
        rules.contains_key(name),
        0 <= k < rules[name].deny_patterns@.len(),
        pattern_denies(rules[name].deny_patterns@[k]@, argument_entries(arguments)),
    ensures
        decide(rules, name, arguments) is Denied,
{
    lemma_first_denying_exists(rules[name].deny_patterns@, argument_entries(arguments), k);
}

/// The decision for a tool depends on its own rule alone: rules for other
/// tools, added or changed, do not change it.
pub proof fn law_decision_depends_only_on_own_rule(
    rules: Map<Seq<char>, ToolRule>,
    other_rules: Map<Seq<char>, ToolRule>,
    name: Seq<char>,
    arguments: Option<&JsonValue>,
)
    requires
        rules.contains_key(name) == other_rules.contains_key(name),
        rules.contains_key(name) ==> rules[name] == other_rules[name],
    ensures
        decide(rules, name, arguments) == decide(other_rules, name, arguments),
{
}

/// Where no deny pattern matches, the rule's action decides.
pub proof fn law_action_decides_without_pattern_match(
    rules: Map<Seq<char>, ToolRule>,
    name: Seq<char>,
    arguments: Option<&JsonValue>,
)
    requires
        rules.contains_key(name),
        !some_pattern_denies(rules[name].deny_patterns@, argument_entries(arguments)),
    ensures
        decide(rules, name, arguments) == match rules[name].action {
            Action::Allow => Decision::Allowed,
            Action::Deny => Decision::Denied(action_denial_reason()),
            Action::Prompt => Decision::PromptRequired,
        },
{
}

/// A request is allowed only under a rule whose action is `allow` and none
/// of whose deny patterns matches.
pub proof fn law_allowed_only_by_allow_rule(
    rules: Map<Seq<char>, ToolRule>,
    name: Seq<char>,
    arguments: Option<&JsonValue>,
)
    requires
        decide(rules, name, arguments) == Decision::Allowed,
    ensures
        rules.contains_key(name),
        rules[name].action == Action::Allow,
        !some_pattern_denies(rules[name].deny_patterns@, argument_entries(arguments)),
{
    if some_pattern_denies(rules[name].deny_patterns@, argument_entries(arguments)) {
        let k = choose|k: int|
            0 <= k < rules[name].deny_patterns@.len() && pattern_denies(
                #[trigger] rules[name].deny_patterns@[k]@,
                argument_entries(arguments),
            );
        lemma_first_denying_exists(rules[name].deny_patterns@, argument_entries(arguments), k);
    }
}

/// Arguments that are not a JSON object are not checked against deny
/// patterns: the rule's action decides.
pub proof fn law_non_object_arguments_skip_patterns(
    rules: Map<Seq<char>, ToolRule>,
    name: Seq<char>,
    arguments: Option<&JsonValue>,
)
    requires
        rules.contains_key(name),
        !(arguments matches Some(v) && *v is Object),
    ensures
        decide(rules, name, arguments) == match rules[name].action {
            Action::Allow => Decision::Allowed,
            Action::Deny => Decision::Denied(action_denial_reason()),
            Action::Prompt => Decision::PromptRequired,
        },
{
    assert(argument_entries(arguments).len() == 0);
}

/// The format of a policy file.
#[derive(Debug, Clone, Copy, PartialEq, Eq, Structural)]
pub enum PolicyFormat {
    Toml,
    Yaml,
}

/// What `str::to_lowercase` makes of a text.
pub uninterp spec fn lowercase(s: Seq<char>) -> Seq<char>;

/// Whether every character of the text is ASCII.
pub open spec fn all_ascii(s: Seq<char>) -> bool {
    forall|i: int| 0 <= i < s.len() ==> (#[trigger] s[i] as u32) < 128
}

/// An ASCII character in lower case: `A`..`Z` become `a`..`z`.
pub open spec fn ascii_lower(c: char) -> char {
    if 65 <= (c as u32) <= 90 {
        ((c as u32) + 32) as char
    } else {
        c
    }
}

/// An ASCII text in lower case.
pub open spec fn ascii_lowercase(s: Seq<char>) -> Seq<char> {
    Seq::new(s.len(), |i: int| ascii_lower(s[i]))
}

/// The lower-case form of a text: the ASCII one for an ASCII text, and
/// otherwise what `str::to_lowercase` makes of it.
pub open spec fn lowered(s: Seq<char>) -> Seq<char> {
    if all_ascii(s) {
        ascii_lowercase(s)
    } else {
        lowercase(s)
    }
}

/// `str::to_lowercase`. The contract claims that the result is a function of
/// the text, and that an ASCII text has its letters `A`..`Z` turned into
/// `a`..`z` and keeps every other character. Of other texts it states nothing
/// more than the name.
#[verifier::external_body]
fn str_to_lowercase(s: &str) -> (r: String)
    ensures
        r@ == lowercase(s@),
        all_ascii(s@) ==> r@ == ascii_lowercase(s@),
{
    s.to_lowercase()
}

/// The format for an extension: TOML where there is none or it is `toml`,
/// YAML where it is `yaml` or `yml`, in any case; no format otherwise.
pub open spec fn format_for(extension: Seq<char>) -> Option<PolicyFormat> {
    if extension.len() == 0 || lowered(extension) == "toml"@ {
        Some(PolicyFormat::Toml)
    } else if lowered(extension) == "yaml"@ || lowered(extension) == "yml"@ {
        Some(PolicyFormat::Yaml)
    } else {
        None
    }
}

/// The extension texts that name a format differ from one another.
proof fn lemma_format_literals_distinct()
    ensures
        "yaml"@ != "toml"@,
        "yml"@ != "toml"@,
        "yaml"@ != "yml"@,
        "toml"@.len() == 4 && "yaml"@.len() == 4 && "yml"@.len() == 3,
{
    reveal_strlit("yaml");
    reveal_strlit("yml");
    reveal_strlit("toml");
    assert("yaml"@[0] != "toml"@[0]);
    assert("yml"@[0] != "toml"@[0]);
    assert("yaml"@.len() != "yml"@.len());
}

/// The format of a policy file follows the lower-case form of its
/// extension: `yaml` and `yml` in any case give YAML, `toml` in any case and
/// no extension give TOML, and any other extension gives none.
pub proof fn law_format_follows_lowercase_extension(extension: Seq<char>)
    requires
        all_ascii(extension),
    ensures
        ascii_lowercase(extension) == "yaml"@ || ascii_lowercase(extension) == "yml"@ ==> format_for(
            extension,
        ) == Some(PolicyFormat::Yaml),
        extension.len() == 0 || ascii_lowercase(extension) == "toml"@ ==> format_for(extension)
            == Some(PolicyFormat::Toml),
        extension.len() > 0 && ascii_lowercase(extension) != "toml"@ && ascii_lowercase(extension)
            != "yaml"@ && ascii_lowercase(extension) != "yml"@ ==> format_for(extension) is None,
{
    lemma_format_literals_distinct();
}

/// Two extensions that differ only in the case of their letters give the
/// same format.
pub proof fn law_format_ignores_case(a: Seq<char>, b: Seq<char>)
    requires
        all_ascii(a),
        all_ascii(b),
        ascii_lowercase(a) == ascii_lowercase(b),
    ensures
        format_for(a) == format_for(b),
{
    assert(a.len() == ascii_lowercase(a).len());
    assert(b.len() == ascii_lowercase(b).len());
}

impl PolicyFormat {
    /// The format of a policy file with this extension: TOML for no
    /// extension and for `toml`, YAML for `yaml` and `yml`, in any case;
    /// `None` for an unrecognised extension, which is an error to load.
    pub fn for_extension(extension: &str) -> (r: Option<PolicyFormat>)
        ensures
            r == format_for(extension@),
            all_ascii(extension@) && (ascii_lowercase(extension@) == "yaml"@ || ascii_lowercase(
                extension@,
            ) == "yml"@) ==> r == Some(PolicyFormat::Yaml),
            all_ascii(extension@) && (extension@.len() == 0 || ascii_lowercase(extension@)
                == "toml"@) ==> r == Some(PolicyFormat::Toml),
    {
        proof {
            lemma_format_literals_distinct();
        }
        if extension.is_empty() {
            return Some(PolicyFormat::Toml);
        }
        let lower = str_to_lowercase(extension);
        if lower == String::from_str("toml") {
            Some(PolicyFormat::Toml)
        } else if lower == String::from_str("yaml") || lower == String::from_str("yml") {
            Some(PolicyFormat::Yaml)
        } else {
            None
        }
    }
}

/// Two rules with the same action and the same deny patterns.
pub open spec fn same_rule(a: ToolRule, b: ToolRule) -> bool {
    a.action == b.action && a.deny_patterns@.map_values(|p: String| p@) == b.deny_patterns@.map_values(
        |p: String| p@,
    )
}

impl Clone for ToolRule {
    /// A copy with the same action and deny patterns.
    fn clone(&self) -> (r: ToolRule)
        ensures
            same_rule(r, *self),
    {
        let mut patterns: Vec<String> = Vec::new();
        let mut i: usize = 0;
        while i < self.deny_patterns.len()
            invariant
                i <= self.deny_patterns@.len(),
                patterns@.len() == i,
                forall|j: int| 0 <= j < i ==> #[trigger] patterns@[j]@ == self.deny_patterns@[j]@,
            decreases self.deny_patterns@.len() - i,
        {
            patterns.push(self.deny_patterns[i].clone());
            i = i + 1;
        }
        let r = ToolRule { action: self.action, deny_patterns: patterns };
        assert(r.deny_patterns@.map_values(|p: String| p@) =~= self.deny_patterns@.map_values(
            |p: String| p@,
        ));
        r
    }
}

impl Clone for ToolRules {
    /// A copy with the same tool names and the same rule for each.
    fn clone(&self) -> (r: ToolRules)
        ensures
            r@.dom() == self@.dom(),
            forall|k: Seq<char>| #[trigger] r@.contains_key(k) ==> same_rule(r@[k], self@[k]),
    {
        proof {
            use_type_invariant(self);
        }
        let ghost names = rule_names(self.entries@);
        let mut out: Vec<(String, ToolRule)> = Vec::new();
        let mut i: usize = 0;
        while i < self.entries.len()
            invariant
                i <= self.entries@.len(),
                names == rule_names(self.entries@),
                names.no_duplicates(),
                out@.len() == i,
                forall|j: int| 0 <= j < i ==> #[trigger] out@[j].0@ == names[j],
                forall|j: int| 0 <= j < i ==> same_rule(#[trigger] out@[j].1, self.entries@[j].1),
            decreases self.entries@.len() - i,
        {
            let name = self.entries[i].0.clone();
            let rule = self.entries[i].1.clone();
            out.push((name, rule));
            i = i + 1;
        }
        assert(rule_names(out@) =~= names);
        let r = ToolRules { entries: out };
        assert(r@.dom() =~= self@.dom());
        assert forall|k: Seq<char>| #[trigger] r@.contains_key(k) implies same_rule(r@[k], self@[k]) by {
            let idx = names.index_of(k);
            assert(rule_names(out@).index_of(k) == idx);
        }
        r
    }
}

impl View for ToolRules {
    type V = Map<Seq<char>, ToolRule>;

    closed spec fn view(&self) -> Map<Seq<char>, ToolRule> {
        rules_map(self.entries@)
    }
}

} // verus!
