use petsona::persona::{
    template, templates, Persona, PersonaError, PersonaStore, DEFAULT_PERSONA_ID,
};

#[test]
fn store_round_trips_and_seeds_default() {
    let mut store = PersonaStore::new("personas");
    store.ensure();
    assert_eq!(store.list().len(), 1);
    let mut p = Persona::new("snarky", "毒舌");
    p.system_prompt = "be snarky".to_string();
    store.save(&p).unwrap();
    assert!(store.get("snarky").is_some());
    store.delete("snarky").unwrap();
    assert!(store.get("snarky").is_none());
    assert!(store.delete(DEFAULT_PERSONA_ID).is_err());
}

#[test]
fn duplicate_and_templates() {
    let mut store = PersonaStore::new("personas");
    store.ensure();
    let copy = store.duplicate(DEFAULT_PERSONA_ID, "copy", "副本").unwrap();
    assert!(!copy.builtin);
    assert_eq!(store.list().len(), 2);
    assert_eq!(templates().len(), 3);
}

#[test]
fn effective_prompt_includes_traits_and_pet() {
    let mut p = Persona::default();
    p.traits.verbosity = "short".to_string();
    let prompt = p.effective_system_prompt(Some("珍珠小子"), Some("工作中"));
    assert!(prompt.contains("珍珠小子"));
    assert!(prompt.contains("工作中"));
    assert!(prompt.contains("简短"));
    assert!(prompt.contains("不要使用 emoji"));
}

#[test]
fn validation_rejects_bad_values() {
    let unnamed = Persona {
        name: "   ".to_string(),
        ..Persona::default()
    };
    assert!(unnamed.validate().is_err());

    let promptless = Persona {
        system_prompt: "  ".to_string(),
        ..Persona::default()
    };
    assert!(promptless.validate().is_err());
}

#[test]
fn export_then_import() {
    let mut store = PersonaStore::new("a");
    store.ensure();
    let mut custom = Persona::new("custom", "自定义");
    custom.system_prompt = "be custom".to_string();
    store.save(&custom).unwrap();

    let exported = store.get("custom").expect("exported persona");

    let mut store2 = PersonaStore::new("b");
    store2.ensure();
    let imported = store2.import(exported, false).unwrap();
    assert_eq!(imported.id, "custom");
    assert_eq!(imported.name, "自定义");
}

#[test]
fn validation_errors_come_in_order() {
    let empty_id = Persona { id: String::new(), ..Persona::default() };
    assert_eq!(empty_id.validate(), Err(PersonaError::EmptyId));
    let unnamed = Persona { name: " ".to_string(), ..Persona::default() };
    assert_eq!(unnamed.validate(), Err(PersonaError::EmptyName));
    let promptless = Persona { system_prompt: "\t".to_string(), ..Persona::default() };
    assert_eq!(promptless.validate(), Err(PersonaError::EmptyPrompt));
    assert_eq!(Persona::default().validate(), Ok(()));
}

#[test]
fn store_refusals_name_the_reason() {
    let mut store = PersonaStore::new("p");
    store.ensure();
    assert_eq!(store.delete(DEFAULT_PERSONA_ID), Err(PersonaError::DefaultUndeletable));
    assert_eq!(store.delete("ghost"), Err(PersonaError::NotFound));
    assert_eq!(store.duplicate("ghost", "x", "y").unwrap_err(), PersonaError::NotFound);
    let copy = Persona::new(DEFAULT_PERSONA_ID, "again");
    assert_eq!(store.import(copy, false).unwrap_err(), PersonaError::AlreadyExists);
    let bad = Persona { name: String::new(), ..Persona::new("bad", "x") };
    assert_eq!(store.save(&bad), Err(PersonaError::EmptyName));
    assert_eq!(store.list().len(), 1);
}

#[test]
fn store_lists_by_lowercase_name_and_replaces_same_id() {
    let mut store = PersonaStore::new("p");
    store.save(&Persona::new("b", "beta")).unwrap();
    store.save(&Persona::new("a", "Alpha")).unwrap();
    store.save(&Persona::new("c", "gamma")).unwrap();
    let names: Vec<String> = store.list().into_iter().map(|p| p.name).collect();
    assert_eq!(names, vec!["Alpha", "beta", "gamma"]);
    store.save(&Persona::new("b", "Zeta")).unwrap();
    let names: Vec<String> = store.list().into_iter().map(|p| p.name).collect();
    assert_eq!(names, vec!["Alpha", "gamma", "Zeta"]);
}

#[test]
fn templates_are_listed_by_id_and_found() {
    let ids: Vec<String> = templates().into_iter().map(|p| p.id).collect();
    assert_eq!(ids, vec!["advisor", "genki", "snark"]);
    assert_eq!(template("genki").expect("template").name, "元气助手");
    assert!(template("nope").is_none());
    assert!(templates().iter().all(|p| p.builtin));
}

#[test]
fn persona_file_name_is_the_id() {
    assert_eq!(Persona::new("abc", "n").file_name(), "abc.json");
}

#[test]
fn new_persona_is_a_user_copy_of_the_default_text() {
    let p = Persona::new("x", "名字");
    assert!(!p.builtin);
    assert_eq!(p.system_prompt, Persona::default().system_prompt);
    assert_eq!(p.name, "名字");
}
