use agents_core::config::{PromptTemplate, TemplateType, TemplateVariable, VariableType};
use agents_core::error::AgentError;
use agents_core::template::{value_string, ContextValue, TemplateContext, TemplateRegistry};

fn var(name: &str, required: bool, default: Option<&str>) -> TemplateVariable {
    TemplateVariable {
        name: name.to_string(),
        description: String::new(),
        variable_type: VariableType::String,
        required,
        default: default.map(|d| d.to_string()),
        values: None,
    }
}

fn template(name: &str, ty: TemplateType, content: &str, vars: Vec<TemplateVariable>) -> PromptTemplate {
    PromptTemplate {
        name: name.to_string(),
        description: String::new(),
        version: "1.0.0".to_string(),
        template_type: ty,
        content: content.to_string(),
        metadata: vec![],
        variables: vars,
    }
}

fn text_context(pairs: &[(&str, &str)]) -> TemplateContext {
    TemplateRegistry::create_context(
        pairs
            .iter()
            .map(|(k, v)| (k.to_string(), ContextValue::Text(v.to_string())))
            .collect(),
    )
}

#[test]
fn required_variable_is_enforced() {
    let mut reg = TemplateRegistry::new().unwrap();
    let t = template(
        "t",
        TemplateType::Memory,
        "Do: {{instructions}}",
        vec![var("instructions", true, None)],
    );
    reg.register_template(t).unwrap();
    let missing = reg.render_template("t", &text_context(&[]));
    match missing {
        Err(AgentError::Template(m)) => {
            assert_eq!(m, "Required variable 'instructions' not provided");
            assert!(m.contains("instructions"));
        }
        other => panic!("unexpected {:?}", other),
    }
    let out = reg
        .render_template("t", &text_context(&[("instructions", "sweep the floor")]))
        .unwrap();
    assert_eq!(out, "Do: sweep the floor");
}

#[test]
fn invalid_syntax_is_rejected_and_not_listed() {
    let mut reg = TemplateRegistry::new().unwrap();
    let bad = template("bad", TemplateType::Command, "{{#if x}} never closed", vec![]);
    let r = reg.register_template(bad);
    match r {
        Err(AgentError::Template(m)) => assert!(m.starts_with("Invalid template syntax: ")),
        other => panic!("unexpected {:?}", other),
    }
    assert!(reg.list_templates().is_empty());
    assert!(reg.get_template("bad").is_none());
    let unbalanced = template("bad2", TemplateType::Command, "{{title", vec![]);
    assert!(reg.register_template(unbalanced).is_err());
    assert!(reg.list_templates().is_empty());
}

#[test]
fn loading_skips_unreadable_files() {
    let mut reg = TemplateRegistry::new().unwrap();
    let good = template("good", TemplateType::Memory, "hello {{who}}", vec![var("who", false, None)]);
    let n = reg.register_loaded(vec![Some(good), None]).unwrap();
    assert_eq!(n, 1);
    assert_eq!(reg.get_template("good").unwrap().content, "hello {{who}}");
    assert_eq!(reg.list_templates().len(), 1);
    assert_eq!(reg.register_loaded(vec![]).unwrap(), 0);
    let bad = template("bad", TemplateType::Memory, "{{", vec![]);
    assert!(matches!(
        reg.register_loaded(vec![None, Some(bad)]),
        Err(AgentError::Template(_))
    ));
}

#[test]
fn default_memory_template_renders_given_sections() {
    let mut reg = TemplateRegistry::new().unwrap();
    for t in TemplateRegistry::get_default_templates() {
        reg.register_template(t).unwrap();
    }
    let out = reg
        .render_template(
            "memory-default",
            &text_context(&[("title", "X"), ("description", "Y"), ("instructions", "Z")]),
        )
        .unwrap();
    assert_eq!(
        out,
        "# X\n\n## Description\nY\n\n## Context\n\n\n## Instructions\nZ\n\n## Examples\n\n"
    );
    assert!(out.contains("# X"));
    assert!(out.contains("## Description\nY"));
    assert!(out.contains("## Instructions\nZ"));
}

#[test]
fn default_templates_shape() {
    let ts = TemplateRegistry::get_default_templates();
    assert_eq!(ts.len(), 3);
    assert_eq!(ts[0].name, "memory-default");
    assert_eq!(ts[0].template_type, TemplateType::Memory);
    assert_eq!(ts[0].variables.len(), 5);
    assert_eq!(ts[0].variables[0].default.as_deref(), Some("Memory Prompt"));
    assert_eq!(ts[1].name, "subagent-default");
    assert_eq!(ts[1].template_type, TemplateType::SubAgent);
    assert_eq!(ts[1].variables.len(), 7);
    assert_eq!(ts[2].name, "command-default");
    assert_eq!(ts[2].template_type, TemplateType::Command);
    assert_eq!(ts[2].variables.len(), 6);
    assert!(ts[2].content.contains("```\n{{usage}}\n```"));
    assert_eq!(ts[0].metadata[0], ("author".to_string(), "system".to_string()));
    assert_eq!(ts[0].metadata[1], ("created".to_string(), "2024-01-01".to_string()));
}

#[test]
fn unknown_template_and_undeclared_variable() {
    let mut reg = TemplateRegistry::default();
    match reg.render_template("nope", &text_context(&[])) {
        Err(AgentError::Template(m)) => assert_eq!(m, "Template not found: nope"),
        other => panic!("unexpected {:?}", other),
    }
    reg.register_template(template("u", TemplateType::Memory, "{{ghost}}", vec![]))
        .unwrap();
    match reg.render_template("u", &text_context(&[])) {
        Err(AgentError::Template(m)) => assert!(m.starts_with("Failed to render template: ")),
        other => panic!("unexpected {:?}", other),
    }
}

#[test]
fn defaults_fill_declared_variables() {
    let mut reg = TemplateRegistry::new().unwrap();
    reg.register_template(template(
        "d",
        TemplateType::Memory,
        "[{{a}}|{{b}}]",
        vec![var("a", false, Some("dflt")), var("b", false, None)],
    ))
    .unwrap();
    assert_eq!(reg.render_template("d", &text_context(&[])).unwrap(), "[dflt|]");
    assert_eq!(
        reg.render_template("d", &text_context(&[("a", "<x&y>")])).unwrap(),
        "[<x&y>|]"
    );
}

#[test]
fn registry_replace_list_filter_remove() {
    let mut reg = TemplateRegistry::new().unwrap();
    reg.register_template(template("a", TemplateType::Memory, "1", vec![])).unwrap();
    reg.register_template(template("b", TemplateType::Command, "2", vec![])).unwrap();
    reg.register_template(template("a", TemplateType::Memory, "3", vec![])).unwrap();
    let all = reg.list_templates();
    assert_eq!(all.len(), 2);
    assert_eq!(all[0].content, "3");
    let cmds = reg.list_templates_by_type(TemplateType::Command);
    assert_eq!(cmds.len(), 1);
    assert_eq!(cmds[0].name, "b");
    assert!(reg.list_templates_by_type(TemplateType::SubAgent).is_empty());
    let removed = reg.remove_template("a").unwrap();
    assert_eq!(removed.content, "3");
    assert!(reg.remove_template("a").is_none());
    assert!(reg.render_template("a", &text_context(&[])).is_err());
    assert_eq!(reg.render_template("b", &text_context(&[])).unwrap(), "2");
}

#[test]
fn values_are_written_as_text() {
    assert_eq!(value_string(&ContextValue::Number(-12)), "-12");
    assert_eq!(value_string(&ContextValue::Boolean(true)), "true");
    assert_eq!(
        value_string(&ContextValue::Sequence(vec!["a".to_string(), "b".to_string()])),
        "[a, b]"
    );
    assert_eq!(value_string(&ContextValue::Sequence(vec![])), "[]");
    assert_eq!(value_string(&ContextValue::Mapping(vec![])), "[object]");
    let mut reg = TemplateRegistry::new().unwrap();
    reg.register_template(template("n", TemplateType::Memory, "{{n}} {{flag}}", vec![]))
        .unwrap();
    let ctx = TemplateRegistry::create_context(vec![
        ("n".to_string(), ContextValue::Number(7)),
        ("flag".to_string(), ContextValue::Boolean(false)),
    ]);
    assert_eq!(reg.render_template("n", &ctx).unwrap(), "7 false");
}

#[test]
fn metadata_keys_are_replaced() {
    let mut ctx = TemplateRegistry::create_context(vec![]);
    TemplateRegistry::add_metadata(&mut ctx, "k".to_string(), "1".to_string());
    TemplateRegistry::add_metadata(&mut ctx, "j".to_string(), "2".to_string());
    TemplateRegistry::add_metadata(&mut ctx, "k".to_string(), "3".to_string());
    assert_eq!(
        ctx.metadata,
        vec![("k".to_string(), "3".to_string()), ("j".to_string(), "2".to_string())]
    );
}

#[test]
fn default_context_gives_declared_defaults() {
    let t = template(
        "c",
        TemplateType::Memory,
        "{{a}}",
        vec![var("a", true, Some("A")), var("b", false, None), var("c", false, Some("C"))],
    );
    let ctx = agents_core::template::default_context(&t);
    assert_eq!(ctx.variables.len(), 2);
    assert_eq!(ctx.variables[0].0, "a");
    assert!(matches!(&ctx.variables[0].1, ContextValue::Text(s) if s == "A"));
    assert_eq!(ctx.variables[1].0, "c");
    assert!(ctx.metadata.is_empty());
}

#[test]
fn partials_render_and_cycles_are_refused() {
    let mut reg = TemplateRegistry::new().unwrap();
    reg.register_template(template("header", TemplateType::Memory, "H:{{title}}", vec![]))
        .unwrap();
    reg.register_template(template(
        "page",
        TemplateType::Memory,
        "{{> header}}|{{~> header }}",
        vec![var("title", true, None)],
    ))
    .unwrap();
    assert_eq!(
        reg.render_template("page", &text_context(&[("title", "T")])).unwrap(),
        "H:T|H:T"
    );
    reg.register_template(template("a", TemplateType::Memory, "{{ > b}}", vec![])).unwrap();
    reg.register_template(template("b", TemplateType::Memory, "{{>a}}", vec![])).unwrap();
    match reg.render_template("a", &text_context(&[])) {
        Err(AgentError::Template(m)) => {
            assert_eq!(m, "Partials of template 'a' may include each other")
        }
        other => panic!("unexpected {:?}", other),
    }
    reg.register_template(template("s", TemplateType::Memory, "{{> s}}", vec![])).unwrap();
    assert!(reg.render_template("s", &text_context(&[])).is_err());
    reg.register_template(template(
        "inline",
        TemplateType::Memory,
        "{{#*inline \"x\"}}X{{/inline}}{{> x}}",
        vec![],
    ))
    .unwrap();
    assert!(reg.render_template("inline", &text_context(&[])).is_err());
    assert_eq!(reg.list_templates().len(), 6);
}

#[test]
fn later_values_of_a_name_win() {
    let mut reg = TemplateRegistry::new().unwrap();
    reg.register_template(template(
        "w",
        TemplateType::Memory,
        "{{a}}/{{b}}",
        vec![var("b", false, Some("d1")), var("b", false, Some("d2"))],
    ))
    .unwrap();
    let ctx = TemplateRegistry::create_context(vec![
        ("a".to_string(), ContextValue::Text("1".to_string())),
        ("a".to_string(), ContextValue::Text("2".to_string())),
    ]);
    assert_eq!(reg.render_template("w", &ctx).unwrap(), "2/d2");
    let merged = agents_core::template::merge_pairs(&vec![
        ("x".to_string(), "1".to_string()),
        ("y".to_string(), "2".to_string()),
        ("x".to_string(), "3".to_string()),
    ]);
    assert_eq!(
        merged,
        vec![("x".to_string(), "3".to_string()), ("y".to_string(), "2".to_string())]
    );
}

#[test]
fn loading_stops_at_a_rejected_template_keeping_earlier_ones() {
    let mut reg = TemplateRegistry::new().unwrap();
    let first = template("first", TemplateType::Memory, "one", vec![]);
    let bad = template("bad", TemplateType::Memory, "{{#if x}}", vec![]);
    let last = template("last", TemplateType::Memory, "three", vec![]);
    assert!(matches!(
        reg.register_loaded(vec![Some(first), Some(bad), Some(last)]),
        Err(AgentError::Template(_))
    ));
    assert!(reg.get_template("first").is_some());
    assert!(reg.get_template("bad").is_none());
    assert!(reg.get_template("last").is_none());
}

#[test]
fn removed_names_are_gone() {
    let mut reg = TemplateRegistry::new().unwrap();
    reg.register_template(template("r", TemplateType::Memory, "x", vec![])).unwrap();
    reg.register_template(template("r", TemplateType::Memory, "y", vec![])).unwrap();
    assert_eq!(reg.remove_template("r").unwrap().content, "y");
    assert!(reg.get_template("r").is_none());
    assert!(reg.list_templates().is_empty());
}
