use ai_brain::memory::persona::{Persona, PersonaConfig, PersonaManager, PersonaRegistry};

const NOW: i64 = 1_775_260_800_000;

fn manager() -> PersonaManager {
    PersonaManager::load_or_create("/base", None, NOW)
}

fn create_writer(mgr: &mut PersonaManager, system_prompt: &str, config: PersonaConfig) {
    mgr.create(
        "writer".to_string(),
        "作家".to_string(),
        "网文".to_string(),
        system_prompt.to_string(),
        config,
        NOW,
    )
    .unwrap();
}

#[test]
fn create_and_switch_persona() {
    let mut mgr = manager();
    assert_eq!(mgr.active_id(), "default");

    create_writer(&mut mgr, "你是网文助手", PersonaConfig::default());
    assert_eq!(mgr.list().len(), 2);

    mgr.switch("writer", NOW).unwrap();
    assert_eq!(mgr.active_id(), "writer");
    assert_eq!(mgr.active().name, "作家");
}

#[test]
fn cannot_delete_default_or_active() {
    let mut mgr = manager();
    assert!(mgr.delete("default").is_err());

    create_writer(&mut mgr, "", PersonaConfig::default());
    mgr.switch("writer", NOW).unwrap();
    assert!(mgr.delete("writer").is_err());
}

#[test]
fn persona_prompt_includes_config() {
    let mut mgr = manager();
    create_writer(
        &mut mgr,
        "模仿滚开风格",
        PersonaConfig {
            language: "zh-CN".to_string(),
            output_style: "literary".to_string(),
            ..Default::default()
        },
    );
    mgr.switch("writer", NOW).unwrap();
    let prompt = mgr.build_persona_prompt();
    assert!(prompt.contains("滚开风格"));
    assert!(prompt.contains("literary"));
}

#[test]
fn default_persona_empty_prompt() {
    let mgr = manager();
    assert!(mgr.build_persona_prompt().is_empty());
}

#[test]
fn persist_and_reload() {
    let mut mgr = manager();
    create_writer(&mut mgr, "", PersonaConfig::default());
    mgr.switch("writer", NOW).unwrap();

    let mgr2 = PersonaManager::load_or_create("/base", Some(mgr.registry), NOW + 1);
    assert_eq!(mgr2.active_id(), "writer");
    assert_eq!(mgr2.list().len(), 2);
}

#[test]
fn analysis_interval_per_persona() {
    let mut mgr = manager();
    assert_eq!(mgr.analysis_interval(), 5);

    create_writer(&mut mgr, "", PersonaConfig { analysis_interval: 20, ..Default::default() });
    mgr.switch("writer", NOW).unwrap();
    assert_eq!(mgr.analysis_interval(), 20);
}

#[test]
fn cannot_create_duplicate_id() {
    let mut mgr = manager();
    create_writer(&mut mgr, "", PersonaConfig::default());
    let result = mgr.create(
        "writer".to_string(),
        "另一个".to_string(),
        "不同描述".to_string(),
        "".to_string(),
        PersonaConfig::default(),
        NOW,
    );
    assert!(result.is_err());
}

#[test]
fn cannot_switch_to_nonexistent() {
    let mut mgr = manager();
    assert!(mgr.switch("nonexistent", NOW).is_err());
}

#[test]
fn delete_persona_removes_directory() {
    let mut mgr = manager();
    mgr.create(
        "temp".to_string(),
        "临时".to_string(),
        "测试用".to_string(),
        "".to_string(),
        PersonaConfig::default(),
        NOW,
    )
    .unwrap();
    assert_eq!(mgr.persona_dir("temp"), "/base/personas/temp");

    mgr.delete("temp").unwrap();
    assert_eq!(mgr.list().len(), 1);
}

#[test]
fn default_registry_has_default_persona() {
    let reg = PersonaRegistry::with_default(NOW);
    assert_eq!(reg.personas.len(), 1);
    assert_eq!(reg.active_persona_id, "default");
    assert_eq!(reg.personas[0].id, "default");
}

#[test]
fn persona_config_default_values() {
    let config = PersonaConfig::default();
    assert_eq!(config.language, "zh-CN");
    assert_eq!(config.analysis_interval, 5);
    assert!(config.model_override.is_none());
    assert!((f64::from_bits(config.eval_sensitivity) - 0.7).abs() < f64::EPSILON);
}

#[test]
fn default_persona_has_empty_prompt() {
    let p = Persona::default_persona(NOW);
    assert!(p.system_prompt.is_empty());
    assert_eq!(p.config.language, "zh-CN");
}
