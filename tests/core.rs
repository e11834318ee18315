use agents_core::config::{
    AgentConfig, ConfigManager, PromptTemplate, TemplateType, TemplateVariable, VariableType,
};
use agents_core::error::AgentError;
use agents_core::init;
use agents_core::paths::{extension, file_name, join, temp_sibling};
use agents_core::text::{decimal_string, parse_u64};

#[test]
fn test_init() {
    assert!(init().is_ok());
}

#[test]
fn error_text_names_kind_and_cause() {
    let e = AgentError::template("Template not found: x".to_string());
    assert_eq!(e.to_string(), "Template error: Template not found: x");
    assert_eq!(AgentError::Cancelled.to_string(), "Operation cancelled");
    assert_eq!(
        AgentError::storage("disk full".to_string()).to_string(),
        "Storage error: disk full"
    );
    assert!(matches!(AgentError::config("c".to_string()), AgentError::Configuration(_)));
    assert!(matches!(AgentError::platform("p".to_string()), AgentError::Platform(_)));
    assert!(matches!(AgentError::internal("i".to_string()), AgentError::Internal(_)));
}

#[test]
fn decimal_text_and_parsing() {
    assert_eq!(decimal_string(0), "0");
    assert_eq!(decimal_string(1700000000), "1700000000");
    assert_eq!(decimal_string(u64::MAX), "18446744073709551615");
    assert_eq!(parse_u64("42"), Some(42));
    assert_eq!(parse_u64("+7"), Some(7));
    assert_eq!(parse_u64(""), None);
    assert_eq!(parse_u64("+"), None);
    assert_eq!(parse_u64("-1"), None);
    assert_eq!(parse_u64("12a"), None);
    assert_eq!(parse_u64("18446744073709551615"), Some(u64::MAX));
    assert_eq!(parse_u64("18446744073709551616"), None);
}

#[test]
fn path_helpers() {
    assert_eq!(join("/root", "a/b.txt"), "/root/a/b.txt");
    assert_eq!(join("/root/", "a"), "/root/a");
    assert_eq!(join("", "a"), "a");
    assert_eq!(join("/root", "/abs"), "/abs");
    assert_eq!(file_name("dir/notes.md"), Some("notes.md".to_string()));
    assert_eq!(file_name("dir/"), Some("dir".to_string()));
    assert_eq!(file_name("notes/."), Some("notes".to_string()));
    assert_eq!(file_name("a/b/./"), Some("b".to_string()));
    assert_eq!(file_name("/"), None);
    assert_eq!(file_name("."), None);
    assert_eq!(file_name("a/.."), None);
    assert_eq!(file_name(".."), None);
    assert_eq!(extension("dir/notes.md"), Some("md".to_string()));
    assert_eq!(extension("dir/.bashrc"), None);
    assert_eq!(extension("README"), None);
    assert_eq!(temp_sibling("/w/config.json", 99), "/w/config.tmp.99");
    assert_eq!(temp_sibling("/w/README", 5), "/w/README.tmp.5");
}

#[test]
fn config_defaults() {
    let c = AgentConfig::default();
    assert_eq!(c.version, "1.0.0");
    assert_eq!(c.directories.memory, ".ai/locale");
    assert_eq!(c.directories.sub_agent, ".ai/sa");
    assert_eq!(c.directories.backups, ".agents/backups");
    assert_eq!(c.templates.local_directory, ".ai/templates");
    assert!(c.templates.repository.is_none());
    assert!(c.templates.cache.enabled);
    assert_eq!(c.templates.cache.max_size_mb, 100);
    assert_eq!(c.templates.cache.ttl_seconds, 3600);
    let w = c.platform.windows.unwrap();
    assert_eq!(w.shell.as_deref(), Some("cmd"));
    assert_eq!(w.path_separator, "\\");
    let l = c.platform.linux.unwrap();
    assert_eq!(l.shell.as_deref(), Some("bash"));
    assert_eq!(l.editor.as_deref(), Some("nano"));
    let t = PromptTemplate::default();
    assert_eq!(t.name, "default");
    assert_eq!(t.template_type, TemplateType::Memory);
    assert!(t.content.is_empty());
    let m = ConfigManager::new("cfg/agents.json".to_string());
    assert_eq!(m.path(), "cfg/agents.json");
    let v = TemplateVariable {
        name: "x".to_string(),
        description: String::new(),
        variable_type: VariableType::Number,
        required: false,
        default: None,
        values: Some(vec!["1".to_string()]),
    };
    assert_eq!(v.variable_type, VariableType::Number);
}
