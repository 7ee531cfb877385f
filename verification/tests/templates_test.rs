use artifex::codegen::build_prompt;
use artifex::templates::{built_in_templates, templates_for_engine};

#[test]
fn test_built_in_templates_count() {
    let templates = built_in_templates();
    assert_eq!(templates.len(), 10);
}

#[test]
fn test_templates_for_godot() {
    let templates = templates_for_engine("godot");
    assert_eq!(templates.len(), 5);
    assert!(templates.iter().all(|t| t.engine == "godot"));
}

#[test]
fn test_templates_for_unity() {
    let templates = templates_for_engine("unity");
    assert_eq!(templates.len(), 5);
    assert!(templates.iter().all(|t| t.engine == "unity"));
}

#[test]
fn test_templates_for_unknown_engine() {
    let templates = templates_for_engine("unreal");
    assert!(templates.is_empty());
}

#[test]
fn test_template_has_variables() {
    let templates = built_in_templates();
    for template in templates {
        assert!(!template.id.is_empty());
        assert!(!template.name.is_empty());
        assert!(!template.prompt_template.is_empty());
        assert!(!template.variables.is_empty());
        for var in &template.variables {
            let expected = format!("{{{{{}}}}}", var);
            assert!(
                template.prompt_template.contains(&expected),
                "Template {} missing variable {}",
                template.id,
                var
            );
        }
    }
}

#[test]
fn test_player_controller_template_contains_key_elements() {
    let templates = built_in_templates();
    let player_controller = templates
        .iter()
        .find(|t| t.id == "godot_player_controller")
        .expect("godot_player_controller template not found");

    assert!(player_controller.prompt_template.contains("CharacterBody2D"));
    assert!(player_controller.prompt_template.contains("@export"));
    assert!(player_controller.prompt_template.contains("_physics_process"));
}

#[test]
fn test_unity_template_contains_key_elements() {
    let templates = built_in_templates();
    let player_controller = templates
        .iter()
        .find(|t| t.id == "unity_player_controller")
        .expect("unity_player_controller template not found");

    assert!(player_controller.prompt_template.contains("MonoBehaviour"));
    assert!(player_controller.prompt_template.contains("[SerializeField]"));
    assert!(player_controller.prompt_template.contains("FixedUpdate"));
}

#[test]
fn templates_keep_catalog_order_when_filtered() {
    let ids: Vec<String> = templates_for_engine("godot").into_iter().map(|t| t.id).collect();
    assert_eq!(
        ids,
        vec![
            "godot_player_controller",
            "godot_enemy_ai",
            "godot_inventory_system",
            "godot_dialog_tree",
            "godot_state_machine"
        ]
    );
    assert!(templates_for_engine("Godot").is_empty());
}

#[test]
fn code_prompt_includes_named_template() {
    let p = build_prompt("SYS", Some("unity_dialog_tree"), "make it talk");
    assert!(p.starts_with("SYS\n\n\nUse the following template as a guide:\nGenerate a dialog system for Unity."));
    assert!(p.ends_with("\n\nUser request: make it talk"));
    assert_eq!(build_prompt("SYS", Some("nope"), "x"), "SYS\n\nUser request: x");
    assert_eq!(build_prompt("SYS", None, "x"), "SYS\n\nUser request: x");
}
