//! Built-in code generation templates for game development: prompt
//! templates for common game code patterns, for Godot (GDScript) and Unity (C#).

use vstd::prelude::*;
use crate::text::str_eq;

verus! {

/// A built-in code template for a specific engine.
#[derive(Debug)]
pub struct BuiltInTemplate {
    /// Unique template identifier.
    pub id: String,
    /// Human-readable name.
    pub name: String,
    /// Template description.
    pub description: String,
    /// Target game engine.
    pub engine: String,
    /// The prompt template text with {{variable}} placeholders.
    pub prompt_template: String,
    /// List of variables used in the template.
    pub variables: Vec<String>,
}

/// The text of a template, field by field.
pub struct TemplateText {
    pub id: Seq<char>,
    pub name: Seq<char>,
    pub description: Seq<char>,
    pub engine: Seq<char>,
    pub prompt_template: Seq<char>,
    pub variables: Seq<Seq<char>>,
}

/// The texts of a list of strings.
pub open spec fn texts(v: Seq<String>) -> Seq<Seq<char>> {
    v.map_values(|s: String| s@)
}

impl View for BuiltInTemplate {
    type V = TemplateText;

    open spec fn view(&self) -> TemplateText {
        TemplateText {
            id: self.id@,
            name: self.name@,
            description: self.description@,
            engine: self.engine@,
            prompt_template: self.prompt_template@,
            variables: texts(self.variables@),
        }
    }
}

/// The texts of a list of templates.
pub open spec fn template_texts(v: Seq<BuiltInTemplate>) -> Seq<TemplateText> {
    v.map_values(|t: BuiltInTemplate| t@)
}

/// Godot player controller template.
pub const GODOT_PLAYER_CONTROLLER: &'static str = r#"Generate a player controller script for Godot 4.

Class: {{class_name}}
Base: CharacterBody2D or CharacterBody3D (use {{base_class}})
Properties:
- Movement speed: {{move_speed}}
- Jump force: {{jump_force}}
- Gravity: {{gravity}}

Requirements:
- Use @export for tunable properties
- Implement _physics_process
- Handle input for movement and jumping
- Include wall jump if {{wall_jump}} is true
- Add coyote time: {{coyote_time}} seconds
- Add jump buffer: {{jump_buffer}} seconds

Style: GDScript 2.0 with type hints
Output format: JSON with files array"#;

/// Godot enemy AI template.
pub const GODOT_ENEMY_AI: &'static str = r#"Generate an enemy AI script for Godot 4.

Class: {{class_name}}
Base: {{base_class}}
AI Type: {{ai_type}} (patrol, chase, guard, flyer)

Properties:
- Detection range: {{detection_range}}
- Movement speed: {{move_speed}}
- Health: {{health}}

Requirements:
- Use @export for tunable properties
- Implement state machine with states: idle, chase, attack, wander
- Add line-of-sight checking
- Implement pathfinding to player when detected
- Handle damage and death states

Style: GDScript 2.0 with type hints
Output format: JSON with files array"#;

/// Godot inventory system template.
pub const GODOT_INVENTORY_SYSTEM: &'static str = r#"Generate an inventory system for Godot 4.

Classes to generate:
- {{class_name}}Item: Data class for inventory items
- {{class_name}}Slot: UI representation of a slot
- {{class_name}}Inventory: Main inventory controller

Properties:
- Max slots: {{max_slots}}
- Stack size: {{stack_size}}
- Weight system: {{has_weight}}

Requirements:
- Implement add/remove/swap items
- Support drag and drop in UI
- Handle item stacking
- Save/load inventory to disk
- Use signals for inventory changes

Style: GDScript 2.0 with type hints
Output format: JSON with files array"#;

/// Godot dialog tree template.
pub const GODOT_DIALOG_TREE: &'static str = r#"Generate a dialog system for Godot 4.

Classes to generate:
- {{class_name}}Node: Base dialog node
- {{class_name}}Branch: Branching dialog (choices)
- {{class_name}}Speaker: NPC speaker with portraits

Properties:
- Auto-advance: {{auto_advance}}
- Text speed: {{text_speed}}
- Audio: {{has_audio}}

Requirements:
- Support branching conversations
- Track player choices
- Include character portraits
- Play audio for voice lines
- Save/load dialog state

Style: GDScript 2.0 with type hints
Output format: JSON with files array"#;

/// Godot state machine template.
pub const GODOT_STATE_MACHINE: &'static str = r#"Generate a state machine for Godot 4.

Classes to generate:
- {{class_name}}State: Base state class
- {{class_name}}StateMachine: Main state machine controller
- States to include: {{states}}

Properties:
- Default state: {{default_state}}
- Can interrupt: {{can_interrupt}}

Requirements:
- Use state pattern with enter/exit/process
- Support state transitions
- Emit signals on state change
- Support animation integration
- Handle state stack for nested states

Style: GDScript 2.0 with type hints
Output format: JSON with files array"#;

/// Unity player controller template.
pub const UNITY_PLAYER_CONTROLLER: &'static str = r#"Generate a player controller script for Unity.

Class: {{class_name}}
Inherits: {{base_class}} (MonoBehaviour)

Properties:
- Movement speed: {{move_speed}}
- Jump force: {{jump_force}}
- Gravity: {{gravity}}

Requirements:
- Use [SerializeField] for private fields
- Implement FixedUpdate for physics
- Handle input for movement and jumping
- Include wall jump if {{wall_jump}} is true
- Add Input System support

Style: C# with proper namespaces and documentation
Output format: JSON with files array"#;

/// Unity enemy AI template.
pub const UNITY_ENEMY_AI: &'static str = r#"Generate an enemy AI script for Unity.

Class: {{class_name}}
Inherits: {{base_class}} (MonoBehaviour)
AI Type: {{ai_type}} (patrol, chase, guard, flyer)

Properties:
- Detection range: {{detection_range}}
- Movement speed: {{move_speed}}
- Health: {{health}}

Requirements:
- Use [SerializeField] for tunable properties
- Implement state machine with states: idle, chase, attack, wander
- Add line-of-sight checking using raycasts
- Implement pathfinding to player when detected
- Handle damage and death states

Style: C# with proper namespaces and documentation
Output format: JSON with files array"#;

/// Unity inventory system template.
pub const UNITY_INVENTORY_SYSTEM: &'static str = r#"Generate an inventory system for Unity.

Classes to generate:
- {{class_name}}Item: Data class for inventory items (marked [Serializable])
- {{class_name}}Slot: UI slot component
- {{class_name}}Inventory: Main inventory controller

Properties:
- Max slots: {{max_slots}}
- Stack size: {{stack_size}}
- Weight system: {{has_weight}}

Requirements:
- Implement add/remove/swap items
- Support UI drag and drop
- Handle item stacking
- Save/load inventory to disk using PlayerPrefs or JSON
- Use events for inventory changes

Style: C# with proper namespaces and documentation
Output format: JSON with files array"#;

/// Unity dialog tree template.
pub const UNITY_DIALOG_TREE: &'static str = r#"Generate a dialog system for Unity.

Classes to generate:
- {{class_name}}Node: Base dialog node (marked [Serializable])
- {{class_name}}Branch: Branching dialog (choices)
- {{class_name}}Speaker: NPC speaker with portraits

Properties:
- Auto-advance: {{auto_advance}}
- Text speed: {{text_speed}}
- Audio: {{has_audio}}

Requirements:
- Support branching conversations
- Track player choices using a dictionary
- Include character portraits
- Play audio for voice lines
- Save/load dialog state

Style: C# with proper namespaces and documentation
Output format: JSON with files array"#;

/// Unity state machine template.
pub const UNITY_STATE_MACHINE: &'static str = r#"Generate a state machine for Unity.

Classes to generate:
- {{class_name}}State: Base state class (marked [Serializable])
- {{class_name}}StateMachine: Main state machine controller
- States to include: {{states}}

Properties:
- Default state: {{default_state}}
- Can interrupt: {{can_interrupt}}

Requirements:
- Use state pattern with OnEnter/OnExit/OnUpdate
- Support state transitions
- Use events for state changes
- Integrate with Animator for animation states
- Support state stack for nested states

Style: C# with proper namespaces and documentation
Output format: JSON with files array"#;

/// The built-in templates, in order: five for Godot, then five for Unity.
pub open spec fn builtin_template_texts() -> Seq<TemplateText> {
    seq![
        TemplateText {
            id: "godot_player_controller"@,
            name: "Player Controller"@,
            description: "A controllable player character with movement, jumping, and optional wall jump"@,
            engine: "godot"@,
            prompt_template: GODOT_PLAYER_CONTROLLER@,
            variables: seq!["class_name"@, "base_class"@, "move_speed"@, "jump_force"@, "gravity"@, "wall_jump"@, "coyote_time"@, "jump_buffer"@],
        },
        TemplateText {
            id: "godot_enemy_ai"@,
            name: "Enemy AI"@,
            description: "An AI-controlled enemy with patrol, chase, and attack behaviors"@,
            engine: "godot"@,
            prompt_template: GODOT_ENEMY_AI@,
            variables: seq!["class_name"@, "base_class"@, "ai_type"@, "detection_range"@, "move_speed"@, "health"@],
        },
        TemplateText {
            id: "godot_inventory_system"@,
            name: "Inventory System"@,
            description: "A complete inventory system with slots, stacking, and save/load"@,
            engine: "godot"@,
            prompt_template: GODOT_INVENTORY_SYSTEM@,
            variables: seq!["class_name"@, "max_slots"@, "stack_size"@, "has_weight"@],
        },
        TemplateText {
            id: "godot_dialog_tree"@,
            name: "Dialog Tree"@,
            description: "A branching dialog system with character portraits and audio support"@,
            engine: "godot"@,
            prompt_template: GODOT_DIALOG_TREE@,
            variables: seq!["class_name"@, "auto_advance"@, "text_speed"@, "has_audio"@],
        },
        TemplateText {
            id: "godot_state_machine"@,
            name: "State Machine"@,
            description: "A flexible state machine for managing character states and animations"@,
            engine: "godot"@,
            prompt_template: GODOT_STATE_MACHINE@,
            variables: seq!["class_name"@, "states"@, "default_state"@, "can_interrupt"@],
        },
        TemplateText {
            id: "unity_player_controller"@,
            name: "Player Controller"@,
            description: "A controllable player character with movement, jumping, and optional wall jump"@,
            engine: "unity"@,
            prompt_template: UNITY_PLAYER_CONTROLLER@,
            variables: seq!["class_name"@, "base_class"@, "move_speed"@, "jump_force"@, "gravity"@, "wall_jump"@],
        },
        TemplateText {
            id: "unity_enemy_ai"@,
            name: "Enemy AI"@,
            description: "An AI-controlled enemy with patrol, chase, and attack behaviors"@,
            engine: "unity"@,
            prompt_template: UNITY_ENEMY_AI@,
            variables: seq!["class_name"@, "base_class"@, "ai_type"@, "detection_range"@, "move_speed"@, "health"@],
        },
        TemplateText {
            id: "unity_inventory_system"@,
            name: "Inventory System"@,
            description: "A complete inventory system with slots, stacking, and save/load"@,
            engine: "unity"@,
            prompt_template: UNITY_INVENTORY_SYSTEM@,
            variables: seq!["class_name"@, "max_slots"@, "stack_size"@, "has_weight"@],
        },
        TemplateText {
            id: "unity_dialog_tree"@,
            name: "Dialog Tree"@,
            description: "A branching dialog system with character portraits and audio support"@,
            engine: "unity"@,
            prompt_template: UNITY_DIALOG_TREE@,
            variables: seq!["class_name"@, "auto_advance"@, "text_speed"@, "has_audio"@],
        },
        TemplateText {
            id: "unity_state_machine"@,
            name: "State Machine"@,
            description: "A flexible state machine for managing character states and animations"@,
            engine: "unity"@,
            prompt_template: UNITY_STATE_MACHINE@,
            variables: seq!["class_name"@, "states"@, "default_state"@, "can_interrupt"@],
        },
    ]
}

fn string_list(items: Vec<&str>) -> (r: Vec<String>)
    ensures
        texts(r@) == items@.map_values(|s: &str| s@),
{
    let mut r: Vec<String> = Vec::new();
    let mut i: usize = 0;
    while i < items.len()
        invariant
            i <= items.len(),
            r@.len() == i,
            forall|j: int| 0 <= j < i ==> #[trigger] r@[j]@ == items@[j]@,
        decreases items.len() - i,
    {
        r.push(String::from_str(items[i]));
        i = i + 1;
    }
    assert(texts(r@) =~= items@.map_values(|s: &str| s@));
    r
}

fn make_template(
    id: &str,
    name: &str,
    description: &str,
    engine: &str,
    prompt_template: &str,
    variables: Vec<&str>,
) -> (t: BuiltInTemplate)
    ensures
        t@ == (TemplateText {
            id: id@,
            name: name@,
            description: description@,
            engine: engine@,
            prompt_template: prompt_template@,
            variables: variables@.map_values(|s: &str| s@),
        }),
{
    BuiltInTemplate {
        id: String::from_str(id),
        name: String::from_str(name),
        description: String::from_str(description),
        engine: String::from_str(engine),
        prompt_template: String::from_str(prompt_template),
        variables: string_list(variables),
    }
}

/// Returns all built-in code templates.
pub fn built_in_templates() -> (r: Vec<BuiltInTemplate>)
    ensures
        template_texts(r@) == builtin_template_texts(),
{
    let mut r: Vec<BuiltInTemplate> = Vec::new();
    r.push(
        make_template(
            "godot_player_controller",
            "Player Controller",
            "A controllable player character with movement, jumping, and optional wall jump",
            "godot",
            GODOT_PLAYER_CONTROLLER,
            vec!["class_name", "base_class", "move_speed", "jump_force", "gravity", "wall_jump", "coyote_time", "jump_buffer"],
        ),
    );
    proof {
        assert(r@[0]@.variables =~= builtin_template_texts()[0].variables);
    }
    r.push(
        make_template(
            "godot_enemy_ai",
            "Enemy AI",
            "An AI-controlled enemy with patrol, chase, and attack behaviors",
            "godot",
            GODOT_ENEMY_AI,
            vec!["class_name", "base_class", "ai_type", "detection_range", "move_speed", "health"],
        ),
    );
    proof {
        assert(r@[1]@.variables =~= builtin_template_texts()[1].variables);
    }
    r.push(
        make_template(
            "godot_inventory_system",
            "Inventory System",
            "A complete inventory system with slots, stacking, and save/load",
            "godot",
            GODOT_INVENTORY_SYSTEM,
            vec!["class_name", "max_slots", "stack_size", "has_weight"],
        ),
    );
    proof {
        assert(r@[2]@.variables =~= builtin_template_texts()[2].variables);
    }
    r.push(
        make_template(
            "godot_dialog_tree",
            "Dialog Tree",
            "A branching dialog system with character portraits and audio support",
            "godot",
            GODOT_DIALOG_TREE,
            vec!["class_name", "auto_advance", "text_speed", "has_audio"],
        ),
    );
    proof {
        assert(r@[3]@.variables =~= builtin_template_texts()[3].variables);
    }
    r.push(
        make_template(
            "godot_state_machine",
            "State Machine",
            "A flexible state machine for managing character states and animations",
            "godot",
            GODOT_STATE_MACHINE,
            vec!["class_name", "states", "default_state", "can_interrupt"],
        ),
    );
    proof {
        assert(r@[4]@.variables =~= builtin_template_texts()[4].variables);
    }
    r.push(
        make_template(
            "unity_player_controller",
            "Player Controller",
            "A controllable player character with movement, jumping, and optional wall jump",
            "unity",
            UNITY_PLAYER_CONTROLLER,
            vec!["class_name", "base_class", "move_speed", "jump_force", "gravity", "wall_jump"],
        ),
    );
    proof {
        assert(r@[5]@.variables =~= builtin_template_texts()[5].variables);
    }
    r.push(
        make_template(
            "unity_enemy_ai",
            "Enemy AI",
            "An AI-controlled enemy with patrol, chase, and attack behaviors",
            "unity",
            UNITY_ENEMY_AI,
            vec!["class_name", "base_class", "ai_type", "detection_range", "move_speed", "health"],
        ),
    );
    proof {
        assert(r@[6]@.variables =~= builtin_template_texts()[6].variables);
    }
    r.push(
        make_template(
            "unity_inventory_system",
            "Inventory System",
            "A complete inventory system with slots, stacking, and save/load",
            "unity",
            UNITY_INVENTORY_SYSTEM,
            vec!["class_name", "max_slots", "stack_size", "has_weight"],
        ),
    );
    proof {
        assert(r@[7]@.variables =~= builtin_template_texts()[7].variables);
    }
    r.push(
        make_template(
            "unity_dialog_tree",
            "Dialog Tree",
            "A branching dialog system with character portraits and audio support",
            "unity",
            UNITY_DIALOG_TREE,
            vec!["class_name", "auto_advance", "text_speed", "has_audio"],
        ),
    );
    proof {
        assert(r@[8]@.variables =~= builtin_template_texts()[8].variables);
    }
    r.push(
        make_template(
            "unity_state_machine",
            "State Machine",
            "A flexible state machine for managing character states and animations",
            "unity",
            UNITY_STATE_MACHINE,
            vec!["class_name", "states", "default_state", "can_interrupt"],
        ),
    );
    proof {
        assert(r@[9]@.variables =~= builtin_template_texts()[9].variables);
    }
    assert(template_texts(r@) =~= builtin_template_texts());
    r
}

/// Returns templates filtered by engine.
pub fn templates_for_engine(engine: &str) -> (r: Vec<BuiltInTemplate>)
    ensures
        template_texts(r@) == builtin_template_texts().filter(|t: TemplateText| t.engine == engine@),
{
    let mut all = built_in_templates();
    let ghost src = template_texts(all@);
    let ghost pred = |t: TemplateText| t.engine == engine@;
    let mut r: Vec<BuiltInTemplate> = Vec::new();
    let ghost mut taken: int = 0;
    while all.len() > 0
        invariant
            src == builtin_template_texts(),
            0 <= taken <= src.len(),
            template_texts(all@) == src.skip(taken),
            template_texts(r@) == src.take(taken).filter(pred),
            pred == (|t: TemplateText| t.engine == engine@),
        decreases all.len(),
    {
        let ghost old_all = all@;
        let t = all.remove(0);
        proof {
            assert(template_texts(old_all).len() == src.len() - taken);
            assert(template_texts(old_all)[0] == t@);
            assert(src.skip(taken)[0] == src[taken]);
            assert(src.take(taken + 1).drop_last() =~= src.take(taken));
            reveal(Seq::filter);
        }
        let keep = str_eq(t.engine.as_str(), engine);
        let ghost old_r = r@;
        if keep {
            r.push(t);
            proof {
                assert(template_texts(r@) =~= template_texts(old_r).push(t@));
            }
        }
        proof {
            assert forall|j: int| 0 <= j < all@.len() implies #[trigger] template_texts(all@)[j] == src.skip(
                taken + 1,
            )[j] by {
                assert(all@[j] == old_all[j + 1]);
                assert(template_texts(old_all)[j + 1] == src.skip(taken)[j + 1]);
            }
            assert(template_texts(all@) =~= src.skip(taken + 1));
            taken = taken + 1;
        }
    }
    proof {
        assert(src.take(taken) =~= src);
    }
    r
}

} // verus!
