//! The built-in templates that seed a new workspace.

use vstd::prelude::*;

use crate::config::{PromptTemplate, TemplateType, TemplateVariable, VariableType};
use crate::template::TemplateRegistry;

verus! {

/// A declared variable as (name, description, required, default).
pub open spec fn variable_shape(v: TemplateVariable) -> (Seq<char>, Seq<char>, bool, Option<Seq<char>>) {
    (
        v.name@,
        v.description@,
        v.required,
        match v.default {
            Some(d) => Some(d@),
            None => None,
        },
    )
}

pub open spec fn plain_text_variables(vs: Seq<TemplateVariable>) -> bool {
    forall|i: int|
        0 <= i < vs.len() ==> (#[trigger] vs[i]).variable_type == VariableType::String
            && vs[i].values is None
}

pub open spec fn system_metadata(m: Seq<(String, String)>) -> bool {
    &&& m.len() == 2
    &&& m[0].0@ == "author"@ && m[0].1@ == "system"@
    &&& m[1].0@ == "created"@ && m[1].1@ == "2024-01-01"@
}

/// A built-in template: its name, description, type, body and variables,
/// version `1.0.0`, written by `system` on 2024-01-01.
pub open spec fn builtin_template(
    t: PromptTemplate,
    name: Seq<char>,
    description: Seq<char>,
    ty: TemplateType,
    body: Seq<char>,
    vars: Seq<(Seq<char>, Seq<char>, bool, Option<Seq<char>>)>,
) -> bool {
    &&& t.name@ == name
    &&& t.description@ == description
    &&& t.version@ == "1.0.0"@
    &&& t.template_type == ty
    &&& t.content@ == body
    &&& system_metadata(t.metadata@)
    &&& t.variables@.map_values(|v: TemplateVariable| variable_shape(v)) == vars
    &&& plain_text_variables(t.variables@)
}

pub open spec fn memory_body() -> Seq<char> {
    "# {{title}}\n\n## Description\n{{description}}\n\n## Context\n{{context}}\n\n## Instructions\n{{instructions}}\n\n## Examples\n{{examples}}\n"@
}

pub open spec fn sub_agent_body() -> Seq<char> {
    "# {{agent_name}} Agent\n\n## Role\n{{role}}\n\n## Capabilities\n{{capabilities}}\n\n## Instructions\n{{instructions}}\n\n## Constraints\n{{constraints}}\n\n## Tools Available\n{{tools}}\n\n## Examples\n{{examples}}\n"@
}

pub open spec fn command_body() -> Seq<char> {
    "# {{command_name}}\n\n## Description\n{{description}}\n\n## Usage\n```\n{{usage}}\n```\n\n## Arguments\n{{arguments}}\n\n## Examples\n{{examples}}\n\n## Notes\n{{notes}}\n"@
}

pub open spec fn memory_variables() -> Seq<(Seq<char>, Seq<char>, bool, Option<Seq<char>>)> {
    seq![
        ("title"@, "Title of the memory prompt"@, true, Some("Memory Prompt"@)),
        ("description"@, "Description of what this prompt does"@, true, None),
        ("context"@, "Context information for the prompt"@, false, None),
        ("instructions"@, "Specific instructions for the AI"@, true, None),
        ("examples"@, "Example inputs and outputs"@, false, None),
    ]
}

pub open spec fn sub_agent_variables() -> Seq<(Seq<char>, Seq<char>, bool, Option<Seq<char>>)> {
    seq![
        ("agent_name"@, "Name of the sub-agent"@, true, None),
        ("role"@, "Role and purpose of the agent"@, true, None),
        ("capabilities"@, "What the agent can do"@, true, None),
        ("instructions"@, "Specific instructions for the agent"@, true, None),
        ("constraints"@, "Limitations and constraints"@, false, None),
        ("tools"@, "Available tools for the agent"@, false, None),
        ("examples"@, "Example usage scenarios"@, false, None),
    ]
}

pub open spec fn command_variables() -> Seq<(Seq<char>, Seq<char>, bool, Option<Seq<char>>)> {
    seq![
        ("command_name"@, "Name of the command"@, true, None),
        ("description"@, "What the command does"@, true, None),
        ("usage"@, "Command usage syntax"@, true, None),
        ("arguments"@, "Available arguments and options"@, false, None),
        ("examples"@, "Usage examples"@, false, None),
        ("notes"@, "Additional notes and warnings"@, false, None),
    ]
}

fn variable(name: &str, description: &str, required: bool, default: Option<&str>) -> (r:
    TemplateVariable)
    ensures
        variable_shape(r) == (name@, description@, required, match default {
            Some(d) => Some(d@),
            None => None::<Seq<char>>,
        }),
        r.variable_type == VariableType::String,
        r.values is None,
{
    let d = match default {
        Some(s) => Some(String::from_str(s)),
        None => None,
    };
    TemplateVariable {
        name: String::from_str(name),
        description: String::from_str(description),
        variable_type: VariableType::String,
        required,
        default: d,
        values: None,
    }
}

fn builtin(
    name: &str,
    description: &str,
    ty: TemplateType,
    body: &str,
    variables: Vec<TemplateVariable>,
) -> (r: PromptTemplate)
    ensures
        r.name@ == name@,
        r.description@ == description@,
        r.version@ == "1.0.0"@,
        r.template_type == ty,
        r.content@ == body@,
        system_metadata(r.metadata@),
        r.variables@ == variables@,
{
    let mut metadata: Vec<(String, String)> = Vec::new();
    metadata.push((String::from_str("author"), String::from_str("system")));
    metadata.push((String::from_str("created"), String::from_str("2024-01-01")));
    PromptTemplate {
        name: String::from_str(name),
        description: String::from_str(description),
        version: String::from_str("1.0.0"),
        template_type: ty,
        content: String::from_str(body),
        metadata,
        variables,
    }
}

fn memory_template() -> (r: PromptTemplate)
    ensures
        builtin_template(
            r,
            "memory-default"@,
            "Default memory prompt template"@,
            TemplateType::Memory,
            memory_body(),
            memory_variables(),
        ),
{
    let mut vs: Vec<TemplateVariable> = Vec::new();
    vs.push(variable("title", "Title of the memory prompt", true, Some("Memory Prompt")));
    vs.push(variable("description", "Description of what this prompt does", true, None));
    vs.push(variable("context", "Context information for the prompt", false, None));
    vs.push(variable("instructions", "Specific instructions for the AI", true, None));
    vs.push(variable("examples", "Example inputs and outputs", false, None));
    assert(vs@.map_values(|v: TemplateVariable| variable_shape(v)) =~= memory_variables());
    builtin(
        "memory-default",
        "Default memory prompt template",
        TemplateType::Memory,
        "# {{title}}\n\n## Description\n{{description}}\n\n## Context\n{{context}}\n\n## Instructions\n{{instructions}}\n\n## Examples\n{{examples}}\n",
        vs,
    )
}

fn sub_agent_template() -> (r: PromptTemplate)
    ensures
        builtin_template(
            r,
            "subagent-default"@,
            "Default sub-agent prompt template"@,
            TemplateType::SubAgent,
            sub_agent_body(),
            sub_agent_variables(),
        ),
{
    let mut vs: Vec<TemplateVariable> = Vec::new();
    vs.push(variable("agent_name", "Name of the sub-agent", true, None));
    vs.push(variable("role", "Role and purpose of the agent", true, None));
    vs.push(variable("capabilities", "What the agent can do", true, None));
    vs.push(variable("instructions", "Specific instructions for the agent", true, None));
    vs.push(variable("constraints", "Limitations and constraints", false, None));
    vs.push(variable("tools", "Available tools for the agent", false, None));
    vs.push(variable("examples", "Example usage scenarios", false, None));
    assert(vs@.map_values(|v: TemplateVariable| variable_shape(v)) =~= sub_agent_variables());
    builtin(
        "subagent-default",
        "Default sub-agent prompt template",
        TemplateType::SubAgent,
        "# {{agent_name}} Agent\n\n## Role\n{{role}}\n\n## Capabilities\n{{capabilities}}\n\n## Instructions\n{{instructions}}\n\n## Constraints\n{{constraints}}\n\n## Tools Available\n{{tools}}\n\n## Examples\n{{examples}}\n",
        vs,
    )
}

fn command_template() -> (r: PromptTemplate)
    ensures
        builtin_template(
            r,
            "command-default"@,
            "Default command prompt template"@,
            TemplateType::Command,
            command_body(),
            command_variables(),
        ),
{
    let mut vs: Vec<TemplateVariable> = Vec::new();
    vs.push(variable("command_name", "Name of the command", true, None));
    vs.push(variable("description", "What the command does", true, None));
    vs.push(variable("usage", "Command usage syntax", true, None));
    vs.push(variable("arguments", "Available arguments and options", false, None));
    vs.push(variable("examples", "Usage examples", false, None));
    vs.push(variable("notes", "Additional notes and warnings", false, None));
    assert(vs@.map_values(|v: TemplateVariable| variable_shape(v)) =~= command_variables());
    builtin(
        "command-default",
        "Default command prompt template",
        TemplateType::Command,
        "# {{command_name}}\n\n## Description\n{{description}}\n\n## Usage\n```\n{{usage}}\n```\n\n## Arguments\n{{arguments}}\n\n## Examples\n{{examples}}\n\n## Notes\n{{notes}}\n",
        vs,
    )
}

impl TemplateRegistry {
    /// The three built-in templates: memory, sub-agent and command, in
    /// that order.
    pub fn get_default_templates() -> (r: Vec<PromptTemplate>)
        ensures
            r@.len() == 3,
            builtin_template(
                r@[0],
                "memory-default"@,
                "Default memory prompt template"@,
                TemplateType::Memory,
                memory_body(),
                memory_variables(),
            ),
            builtin_template(
                r@[1],
                "subagent-default"@,
                "Default sub-agent prompt template"@,
                TemplateType::SubAgent,
                sub_agent_body(),
                sub_agent_variables(),
            ),
            builtin_template(
                r@[2],
                "command-default"@,
                "Default command prompt template"@,
                TemplateType::Command,
                command_body(),
                command_variables(),
            ),
    {
        let mut out: Vec<PromptTemplate> = Vec::new();
        out.push(memory_template());
        out.push(sub_agent_template());
        out.push(command_template());
        out
    }
}

} // verus!
