//! The rules that come with the library.
use vstd::prelude::*;

use crate::alert::{AlertSeverity, MappingModel, MitreMapping};
use crate::alert_rules::{
    actions_view, condition_holds, conditions_view, correlation_rules_view, group_holds,
    groups_view, law_and_takes_all, lemma_groups, rules_view, ActionModel, AlertRule,
    AutoResponseAction, ConditionGroup, ConditionModel, ConditionOperator, CorrelationRule,
    CorrelationRuleModel, GroupModel, LogicOperator, RuleCondition, RuleModel,
};
use crate::json::{items_view, lemma_items, value_at, JsonModel, JsonValue};
use crate::pattern::regex_search;
use crate::text::{lowercase, occurs, owned, str_texts, texts};
use crate::words::{law_pieces_stand_between_separators, pieces};

verus! {

/// The rank of 7.9, above which an entropy is very high.
pub const HIGH_ENTROPY_RANK: i64 = 0x401f_9999_9999_999a;

/// A condition that is not negated.
pub open spec fn condition(
    field: Seq<char>,
    operator: ConditionOperator,
    value: JsonModel,
) -> ConditionModel {
    ConditionModel { field, operator, value, negate: false }
}

/// A group all of whose conditions have to hold.
pub open spec fn all_of(conditions: Seq<ConditionModel>) -> GroupModel {
    GroupModel { logic: LogicOperator::And, conditions, groups: Seq::empty() }
}

fn new_condition(field: &str, operator: ConditionOperator, value: JsonValue) -> (r: RuleCondition)
    ensures
        r@ == condition(field@, operator, value@),
{
    RuleCondition { field: field.to_string(), operator, value, negate: false }
}

fn text_condition(field: &str, operator: ConditionOperator, text: &str) -> (r: RuleCondition)
    ensures
        r@ == condition(field@, operator, JsonModel::Text(text@)),
{
    new_condition(field, operator, JsonValue::Text(text.to_string()))
}

fn group_of_one(first: RuleCondition) -> (r: ConditionGroup)
    ensures
        r@ == all_of(seq![first@]),
{
    let mut conditions: Vec<RuleCondition> = Vec::new();
    conditions.push(first);
    assert(conditions_view(conditions@) =~= seq![first@]);
    let groups: Vec<ConditionGroup> = Vec::new();
    ConditionGroup { logic: LogicOperator::And, conditions, groups }
}

fn group_of_two(first: RuleCondition, second: RuleCondition) -> (r: ConditionGroup)
    ensures
        r@ == all_of(seq![first@, second@]),
{
    let mut conditions: Vec<RuleCondition> = Vec::new();
    conditions.push(first);
    conditions.push(second);
    assert(conditions_view(conditions@) =~= seq![first@, second@]);
    let groups: Vec<ConditionGroup> = Vec::new();
    ConditionGroup { logic: LogicOperator::And, conditions, groups }
}

/// A rule that is on and does nothing by itself.
pub open spec fn plain_rule(
    rule_id: Seq<char>,
    name: Seq<char>,
    description: Seq<char>,
    conditions: GroupModel,
    severity: AlertSeverity,
    confidence: u32,
    tactics: Seq<Seq<char>>,
    techniques: Seq<Seq<char>>,
    tags: Seq<Seq<char>>,
) -> RuleModel {
    RuleModel {
        rule_id,
        name,
        description,
        enabled: true,
        conditions,
        time_condition: None,
        severity,
        confidence,
        mitre_mapping: MappingModel { tactics, techniques, sub_techniques: Seq::empty() },
        tags,
        auto_response: Seq::empty(),
    }
}

fn new_rule(
    rule_id: &str,
    name: &str,
    description: &str,
    conditions: ConditionGroup,
    severity: AlertSeverity,
    confidence: u32,
    tactics: &[&str],
    techniques: &[&str],
    tags: &[&str],
) -> (r: AlertRule)
    ensures
        r@ == plain_rule(
            rule_id@,
            name@,
            description@,
            conditions@,
            severity,
            confidence,
            str_texts(tactics@),
            str_texts(techniques@),
            str_texts(tags@),
        ),
{
    let sub_techniques: Vec<String> = Vec::new();
    let auto_response: Vec<AutoResponseAction> = Vec::new();
    assert(texts(sub_techniques@) =~= Seq::empty());
    assert(actions_view(auto_response@) =~= Seq::<ActionModel>::empty());
    AlertRule {
        rule_id: rule_id.to_string(),
        name: name.to_string(),
        description: description.to_string(),
        enabled: true,
        conditions,
        time_condition: None,
        severity,
        confidence,
        mitre_mapping: MitreMapping {
            tactics: owned(tactics),
            techniques: owned(techniques),
            sub_techniques,
        },
        tags: owned(tags),
        auto_response,
    }
}

/// The tactics, the techniques and the tags of the rule on encoded commands.
pub const ENCODED_TACTICS: [&'static str; 1] = ["TA0002"];

pub const ENCODED_TECHNIQUES: [&'static str; 1] = ["T1059.001"];

pub const ENCODED_TAGS: [&'static str; 2] = ["powershell", "encoded"];

/// The tactics, the techniques and the tags of the rule on office programs.
pub const OFFICE_TACTICS: [&'static str; 2] = ["TA0001", "TA0002"];

pub const OFFICE_TECHNIQUES: [&'static str; 1] = ["T1566.001"];

pub const OFFICE_TAGS: [&'static str; 2] = ["office", "macro"];

/// The tactics, the techniques and the tags of the rule on temporary directories.
pub const TEMP_TACTICS: [&'static str; 1] = ["TA0005"];

pub const TEMP_TECHNIQUES: [&'static str; 1] = ["T1036"];

pub const TEMP_TAGS: [&'static str; 1] = ["temp_execution"];

/// The tactics, the techniques and the tags of the rule on entropy.
pub const ENTROPY_TACTICS: [&'static str; 1] = ["TA0040"];

pub const ENTROPY_TECHNIQUES: [&'static str; 1] = ["T1486"];

pub const ENTROPY_TAGS: [&'static str; 2] = ["entropy", "encryption"];

/// The rule on encoded commands of PowerShell.
pub open spec fn encoded_powershell() -> RuleModel {
    plain_rule(
        "encoded_powershell"@,
        "Encoded PowerShell Execution"@,
        "PowerShell executed with encoded command - common malware technique"@,
        all_of(
            seq![
                condition(
                    "payload.cmdline"@,
                    ConditionOperator::Contains,
                    JsonModel::Text("-enc"@),
                ),
            ],
        ),
        AlertSeverity::High,
        800_000,
        str_texts(ENCODED_TACTICS@),
        str_texts(ENCODED_TECHNIQUES@),
        str_texts(ENCODED_TAGS@),
    )
}

/// The rule on office programs that start a shell.
pub open spec fn office_shell_spawn() -> RuleModel {
    plain_rule(
        "office_shell_spawn"@,
        "Office Application Spawning Shell"@,
        "Office application spawned a command shell - possible macro malware"@,
        all_of(
            seq![
                condition(
                    "payload.parent_name"@,
                    ConditionOperator::Regex,
                    JsonModel::Text("(?i)(winword|excel|powerpnt|outlook)"@),
                ),
                condition(
                    "payload.name"@,
                    ConditionOperator::Regex,
                    JsonModel::Text("(?i)(cmd|powershell|wscript|cscript)"@),
                ),
            ],
        ),
        AlertSeverity::High,
        850_000,
        str_texts(OFFICE_TACTICS@),
        str_texts(OFFICE_TECHNIQUES@),
        str_texts(OFFICE_TAGS@),
    )
}

/// The rule on programs in temporary directories.
pub open spec fn temp_execution() -> RuleModel {
    plain_rule(
        "temp_execution"@,
        "Process Execution from Temp Directory"@,
        "Executable running from temporary directory"@,
        all_of(
            seq![
                condition(
                    "payload.path"@,
                    ConditionOperator::Regex,
                    JsonModel::Text("(?i)(\\\\temp\\\\|/tmp/)"@),
                ),
                condition(
                    "event_type"@,
                    ConditionOperator::Equals,
                    JsonModel::Text("process_create"@),
                ),
            ],
        ),
        AlertSeverity::Medium,
        600_000,
        str_texts(TEMP_TACTICS@),
        str_texts(TEMP_TECHNIQUES@),
        str_texts(TEMP_TAGS@),
    )
}

/// The rule on files with a very high entropy.
pub open spec fn high_entropy_write() -> RuleModel {
    plain_rule(
        "high_entropy_write"@,
        "High Entropy File Written"@,
        "File with very high entropy written - possible encryption/packing"@,
        all_of(
            seq![
                condition(
                    "payload.entropy"@,
                    ConditionOperator::GreaterThan,
                    JsonModel::Float(HIGH_ENTROPY_RANK),
                ),
                condition(
                    "event_type"@,
                    ConditionOperator::In,
                    JsonModel::Array(
                        seq![JsonModel::Text("file_create"@), JsonModel::Text("file_modify"@)],
                    ),
                ),
            ],
        ),
        AlertSeverity::Medium,
        500_000,
        str_texts(ENTROPY_TACTICS@),
        str_texts(ENTROPY_TECHNIQUES@),
        str_texts(ENTROPY_TAGS@),
    )
}

/// The rules that come with the library.
pub open spec fn predefined_rules() -> Seq<RuleModel> {
    seq![encoded_powershell(), office_shell_spawn(), temp_execution(), high_entropy_write()]
}

/// The rules that come with the library.
pub fn get_predefined_rules() -> (r: Vec<AlertRule>)
    ensures
        rules_view(r@) == predefined_rules(),
{
    let encoded = new_rule(
        "encoded_powershell",
        "Encoded PowerShell Execution",
        "PowerShell executed with encoded command - common malware technique",
        group_of_one(text_condition("payload.cmdline", ConditionOperator::Contains, "-enc")),
        AlertSeverity::High,
        800_000,
        &ENCODED_TACTICS,
        &ENCODED_TECHNIQUES,
        &ENCODED_TAGS,
    );
    let office = new_rule(
        "office_shell_spawn",
        "Office Application Spawning Shell",
        "Office application spawned a command shell - possible macro malware",
        group_of_two(
            text_condition(
                "payload.parent_name",
                ConditionOperator::Regex,
                "(?i)(winword|excel|powerpnt|outlook)",
            ),
            text_condition(
                "payload.name",
                ConditionOperator::Regex,
                "(?i)(cmd|powershell|wscript|cscript)",
            ),
        ),
        AlertSeverity::High,
        850_000,
        &OFFICE_TACTICS,
        &OFFICE_TECHNIQUES,
        &OFFICE_TAGS,
    );
    let temp = new_rule(
        "temp_execution",
        "Process Execution from Temp Directory",
        "Executable running from temporary directory",
        group_of_two(
            text_condition("payload.path", ConditionOperator::Regex, "(?i)(\\\\temp\\\\|/tmp/)"),
            text_condition("event_type", ConditionOperator::Equals, "process_create"),
        ),
        AlertSeverity::Medium,
        600_000,
        &TEMP_TACTICS,
        &TEMP_TECHNIQUES,
        &TEMP_TAGS,
    );
    let mut kinds: Vec<JsonValue> = Vec::new();
    kinds.push(JsonValue::Text("file_create".to_string()));
    kinds.push(JsonValue::Text("file_modify".to_string()));
    proof {
        lemma_items(kinds@);
        assert(items_view(kinds@) =~= seq![
            JsonModel::Text("file_create"@),
            JsonModel::Text("file_modify"@),
        ]);
    }
    let entropy = new_rule(
        "high_entropy_write",
        "High Entropy File Written",
        "File with very high entropy written - possible encryption/packing",
        group_of_two(
            new_condition(
                "payload.entropy",
                ConditionOperator::GreaterThan,
                JsonValue::Float(HIGH_ENTROPY_RANK),
            ),
            new_condition("event_type", ConditionOperator::In, JsonValue::Array(kinds)),
        ),
        AlertSeverity::Medium,
        500_000,
        &ENTROPY_TACTICS,
        &ENTROPY_TECHNIQUES,
        &ENTROPY_TAGS,
    );
    let mut r: Vec<AlertRule> = Vec::new();
    r.push(encoded);
    r.push(office);
    r.push(temp);
    r.push(entropy);
    assert(rules_view(r@) =~= predefined_rules());
    r
}

/// What events of a chain have in common.
pub const CHAIN_FIELDS: [&'static str; 1] = ["pid"];

/// The rule on a file that comes, runs and settles in.
pub open spec fn initial_exec_persist() -> CorrelationRuleModel {
    CorrelationRuleModel {
        rule_id: "initial_exec_persist"@,
        name: "Initial Access to Persistence Chain"@,
        description: "Detects pattern: file download -> execution -> registry persistence"@,
        enabled: true,
        sequence: seq![
            all_of(
                seq![
                    condition(
                        "event_type"@,
                        ConditionOperator::Equals,
                        JsonModel::Text("file_create"@),
                    ),
                ],
            ),
            all_of(
                seq![
                    condition(
                        "event_type"@,
                        ConditionOperator::Equals,
                        JsonModel::Text("process_create"@),
                    ),
                ],
            ),
            all_of(
                seq![
                    condition(
                        "event_type"@,
                        ConditionOperator::Equals,
                        JsonModel::Text("registry_set_value"@),
                    ),
                    condition(
                        "payload.key_path"@,
                        ConditionOperator::Contains,
                        JsonModel::Text("Run"@),
                    ),
                ],
            ),
        ],
        max_gap_seconds: 300,
        correlation_fields: str_texts(CHAIN_FIELDS@),
        severity: AlertSeverity::Critical,
    }
}

/// The correlation rules that come with the library.
pub fn get_predefined_correlation_rules() -> (r: Vec<CorrelationRule>)
    ensures
        correlation_rules_view(r@) == seq![initial_exec_persist()],
{
    let mut sequence: Vec<ConditionGroup> = Vec::new();
    sequence.push(
        group_of_one(text_condition("event_type", ConditionOperator::Equals, "file_create")),
    );
    sequence.push(
        group_of_one(text_condition("event_type", ConditionOperator::Equals, "process_create")),
    );
    sequence.push(
        group_of_two(
            text_condition("event_type", ConditionOperator::Equals, "registry_set_value"),
            text_condition("payload.key_path", ConditionOperator::Contains, "Run"),
        ),
    );
    proof {
        lemma_groups(sequence@);
        assert(groups_view(sequence@) =~= initial_exec_persist().sequence);
    }
    let mut r: Vec<CorrelationRule> = Vec::new();
    r.push(
        CorrelationRule {
            rule_id: "initial_exec_persist".to_string(),
            name: "Initial Access to Persistence Chain".to_string(),
            description: "Detects pattern: file download -> execution -> registry persistence".to_string(),
            enabled: true,
            sequence,
            max_gap_seconds: 300,
            correlation_fields: owned(&CHAIN_FIELDS),
            severity: AlertSeverity::Critical,
        },
    );
    assert(correlation_rules_view(r@) =~= seq![initial_exec_persist()]);
    r
}

/// Each rule that comes with the library is on, has a name and asks for something.
pub proof fn law_predefined_rules_are_on(i: int)
    requires
        0 <= i < predefined_rules().len(),
    ensures
        predefined_rules()[i].enabled,
        predefined_rules()[i].rule_id.len() > 0,
        predefined_rules()[i].name.len() > 0,
        predefined_rules()[i].conditions.conditions.len() > 0,
{
    reveal_strlit("encoded_powershell");
    reveal_strlit("Encoded PowerShell Execution");
    reveal_strlit("office_shell_spawn");
    reveal_strlit("Office Application Spawning Shell");
    reveal_strlit("temp_execution");
    reveal_strlit("Process Execution from Temp Directory");
    reveal_strlit("high_entropy_write");
    reveal_strlit("High Entropy File Written");
}

proof fn lemma_field(fields: Map<Seq<char>, JsonModel>, name: Seq<char>)
    requires
        !name.contains('.'),
        fields.contains_key(name),
    ensures
        value_at(JsonModel::Object(fields), pieces(name, '.'), 0) == Some(fields[name]),
{
    law_pieces_stand_between_separators(name, '.', Seq::empty());
    assert(seq![name] =~= seq![name] + Seq::<Seq<char>>::empty());
    crate::json::law_paths_lead_into_values(
        fields,
        Seq::empty(),
        name,
        name,
        0,
        Seq::<Seq<char>>::empty(),
    );
}

proof fn lemma_inner_field(
    fields: Map<Seq<char>, JsonModel>,
    inner: Map<Seq<char>, JsonModel>,
    whole: Seq<char>,
    name: Seq<char>,
)
    requires
        whole == "payload"@ + (seq!['.'] + name),
        !name.contains('.'),
        fields.contains_pair("payload"@, JsonModel::Object(inner)),
        inner.contains_key(name),
    ensures
        value_at(JsonModel::Object(fields), pieces(whole, '.'), 0) == Some(inner[name]),
{
    reveal_strlit("payload");
    assert(!"payload"@.contains('.'));
    law_pieces_stand_between_separators("payload"@, '.', name);
    crate::json::law_paths_lead_into_values(
        fields,
        Seq::empty(),
        name,
        "payload"@,
        0,
        pieces(name, '.'),
    );
    lemma_field(inner, name);
}

/// The rule on encoded commands matches an event exactly where its command line has the
/// option in it, whatever the case of letters.
pub proof fn law_encoded_commands_match(
    fields: Map<Seq<char>, JsonModel>,
    payload: Map<Seq<char>, JsonModel>,
    cmdline: Seq<char>,
)
    requires
        fields.contains_pair("payload"@, JsonModel::Object(payload)),
        payload.contains_pair("cmdline"@, JsonModel::Text(cmdline)),
    ensures
        group_holds(predefined_rules()[0].conditions, Some(JsonModel::Object(fields))) <==> occurs(
            lowercase("-enc"@),
            lowercase(cmdline),
        ),
        predefined_rules()[0].severity == AlertSeverity::High,
        predefined_rules()[0].enabled,
        predefined_rules()[0].time_condition is None,
{
    reveal_strlit("cmdline");
    reveal_strlit("payload");
    reveal_strlit("payload.cmdline");
    assert("payload.cmdline"@ =~= "payload"@ + (seq!['.'] + "cmdline"@));
    assert(!"cmdline"@.contains('.'));
    lemma_inner_field(fields, payload, "payload.cmdline"@, "cmdline"@);
    let g = predefined_rules()[0].conditions;
    let event = Some(JsonModel::Object(fields));
    law_and_takes_all(g, event);
    assert(condition_holds(g.conditions[0], event) <==> occurs(
        lowercase("-enc"@),
        lowercase(cmdline),
    ));
}

/// The rule on office programs matches an event exactly where a pattern for them is found
/// in the name of the parent and one for shells in the name of the process.
pub proof fn law_shells_of_office_programs_match(
    fields: Map<Seq<char>, JsonModel>,
    payload: Map<Seq<char>, JsonModel>,
    parent: Seq<char>,
    name: Seq<char>,
)
    requires
        fields.contains_pair("payload"@, JsonModel::Object(payload)),
        payload.contains_pair("parent_name"@, JsonModel::Text(parent)),
        payload.contains_pair("name"@, JsonModel::Text(name)),
    ensures
        group_holds(predefined_rules()[1].conditions, Some(JsonModel::Object(fields))) <==> (
        regex_search("(?i)(winword|excel|powerpnt|outlook)"@, parent) == Some(true)
            && regex_search("(?i)(cmd|powershell|wscript|cscript)"@, name) == Some(true)),
        predefined_rules()[1].severity == AlertSeverity::High,
{
    reveal_strlit("name");
    reveal_strlit("parent_name");
    reveal_strlit("payload");
    reveal_strlit("payload.name");
    reveal_strlit("payload.parent_name");
    assert("payload.name"@ =~= "payload"@ + (seq!['.'] + "name"@));
    assert("payload.parent_name"@ =~= "payload"@ + (seq!['.'] + "parent_name"@));
    assert(!"name"@.contains('.'));
    assert(!"parent_name"@.contains('.'));
    lemma_inner_field(fields, payload, "payload.name"@, "name"@);
    lemma_inner_field(fields, payload, "payload.parent_name"@, "parent_name"@);
    let g = predefined_rules()[1].conditions;
    let event = Some(JsonModel::Object(fields));
    law_and_takes_all(g, event);
    assert(condition_holds(g.conditions[0], event) <==> regex_search(
        "(?i)(winword|excel|powerpnt|outlook)"@,
        parent,
    ) == Some(true));
    assert(condition_holds(g.conditions[1], event) <==> regex_search(
        "(?i)(cmd|powershell|wscript|cscript)"@,
        name,
    ) == Some(true));
}

/// The rule on temporary directories matches an event exactly where a process was started
/// and a pattern for such directories is found in its path.
pub proof fn law_starts_from_temporary_directories_match(
    fields: Map<Seq<char>, JsonModel>,
    payload: Map<Seq<char>, JsonModel>,
    path: Seq<char>,
    kind: Seq<char>,
)
    requires
        fields.contains_pair("payload"@, JsonModel::Object(payload)),
        fields.contains_pair("event_type"@, JsonModel::Text(kind)),
        payload.contains_pair("path"@, JsonModel::Text(path)),
    ensures
        group_holds(predefined_rules()[2].conditions, Some(JsonModel::Object(fields))) <==> (
        regex_search("(?i)(\\\\temp\\\\|/tmp/)"@, path) == Some(true) && kind
            == "process_create"@),
        predefined_rules()[2].severity == AlertSeverity::Medium,
{
    reveal_strlit("path");
    reveal_strlit("event_type");
    reveal_strlit("payload");
    reveal_strlit("payload.path");
    assert("payload.path"@ =~= "payload"@ + (seq!['.'] + "path"@));
    assert(!"path"@.contains('.'));
    assert(!"event_type"@.contains('.'));
    lemma_inner_field(fields, payload, "payload.path"@, "path"@);
    lemma_field(fields, "event_type"@);
    let g = predefined_rules()[2].conditions;
    let event = Some(JsonModel::Object(fields));
    law_and_takes_all(g, event);
    assert(condition_holds(g.conditions[0], event) <==> regex_search(
        "(?i)(\\\\temp\\\\|/tmp/)"@,
        path,
    ) == Some(true));
    assert(condition_holds(g.conditions[1], event) <==> kind == "process_create"@);
}

/// The rule on entropy matches an event exactly where a file was made or changed and its
/// entropy lies above the bound.
pub proof fn law_files_of_high_entropy_match(
    fields: Map<Seq<char>, JsonModel>,
    payload: Map<Seq<char>, JsonModel>,
    entropy: i64,
    kind: Seq<char>,
)
    requires
        fields.contains_pair("payload"@, JsonModel::Object(payload)),
        fields.contains_pair("event_type"@, JsonModel::Text(kind)),
        payload.contains_pair("entropy"@, JsonModel::Float(entropy)),
    ensures
        group_holds(predefined_rules()[3].conditions, Some(JsonModel::Object(fields))) <==> (entropy
            > HIGH_ENTROPY_RANK && (kind == "file_create"@ || kind == "file_modify"@)),
        predefined_rules()[3].severity == AlertSeverity::Medium,
{
    reveal_strlit("entropy");
    reveal_strlit("event_type");
    reveal_strlit("payload");
    reveal_strlit("payload.entropy");
    assert("payload.entropy"@ =~= "payload"@ + (seq!['.'] + "entropy"@));
    assert(!"entropy"@.contains('.'));
    assert(!"event_type"@.contains('.'));
    lemma_inner_field(fields, payload, "payload.entropy"@, "entropy"@);
    lemma_field(fields, "event_type"@);
    let g = predefined_rules()[3].conditions;
    let event = Some(JsonModel::Object(fields));
    law_and_takes_all(g, event);
    assert(condition_holds(g.conditions[0], event) <==> entropy > HIGH_ENTROPY_RANK);
    let kinds = seq![JsonModel::Text("file_create"@), JsonModel::Text("file_modify"@)];
    assert(kinds[0] == JsonModel::Text("file_create"@));
    assert(kinds[1] == JsonModel::Text("file_modify"@));
    assert(condition_holds(g.conditions[1], event) <==> kinds.contains(JsonModel::Text(kind)));
}

/// The chain that comes with the library is a file that was made, a process that was
/// started and a value set under a key that runs programs, in this order and each within
/// five minutes of the one before, of one process.
pub proof fn law_steps_of_the_chain(
    fields: Map<Seq<char>, JsonModel>,
    payload: Map<Seq<char>, JsonModel>,
    kind: Seq<char>,
    key: Seq<char>,
)
    requires
        fields.contains_pair("payload"@, JsonModel::Object(payload)),
        fields.contains_pair("event_type"@, JsonModel::Text(kind)),
        payload.contains_pair("key_path"@, JsonModel::Text(key)),
    ensures
        ({
            let chain = initial_exec_persist();
            let event = Some(JsonModel::Object(fields));
            &&& chain.enabled
            &&& chain.sequence.len() == 3
            &&& group_holds(chain.sequence[0], event) <==> kind == "file_create"@
            &&& group_holds(chain.sequence[1], event) <==> kind == "process_create"@
            &&& group_holds(chain.sequence[2], event) <==> kind == "registry_set_value"@ && occurs(
                lowercase("Run"@),
                lowercase(key),
            )
            &&& chain.max_gap_seconds == 5 * 60
            &&& chain.correlation_fields == seq!["pid"@]
            &&& chain.severity == AlertSeverity::Critical
        }),
{
    reveal_strlit("key_path");
    reveal_strlit("event_type");
    reveal_strlit("payload");
    reveal_strlit("payload.key_path");
    assert("payload.key_path"@ =~= "payload"@ + (seq!['.'] + "key_path"@));
    assert(!"key_path"@.contains('.'));
    assert(!"event_type"@.contains('.'));
    lemma_inner_field(fields, payload, "payload.key_path"@, "key_path"@);
    lemma_field(fields, "event_type"@);
    let chain = initial_exec_persist();
    let event = Some(JsonModel::Object(fields));
    law_and_takes_all(chain.sequence[0], event);
    law_and_takes_all(chain.sequence[1], event);
    law_and_takes_all(chain.sequence[2], event);
    assert(condition_holds(chain.sequence[0].conditions[0], event) <==> kind == "file_create"@);
    assert(condition_holds(chain.sequence[1].conditions[0], event) <==> kind == "process_create"@);
    assert(condition_holds(chain.sequence[2].conditions[0], event) <==> kind
        == "registry_set_value"@);
    assert(condition_holds(chain.sequence[2].conditions[1], event) <==> occurs(
        lowercase("Run"@),
        lowercase(key),
    ));
    assert(chain.correlation_fields =~= seq!["pid"@]);
}

} // verus!
