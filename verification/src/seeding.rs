//! The model catalog a fresh installation starts from: the model profiles
//! and routing rules seeded into the configuration database, group by group.

use vstd::prelude::*;

verus! {

/// What a model can do.
#[derive(Debug, Clone, Copy, PartialEq, Eq, Structural)]
pub enum ModelCapability {
    ImageGen,
    TextComplete,
    CodeComplete,
    Tts,
    AudioGen,
    BackgroundRemoval,
    ImageEdit,
    TileGen,
    VideoGen,
}

/// A model profile to seed.
#[derive(Debug)]
pub struct ProfileSeed {
    pub provider: String,
    pub model_id: String,
    pub display_name: String,
    pub capability: ModelCapability,
}

/// A routing rule to seed; profiles are named by their display names,
/// which the seeding resolves to the ids the profiles were created with.
#[derive(Debug)]
pub struct RuleSeed {
    pub operation_type: String,
    pub default_profile: String,
    pub fallback_profiles: Vec<String>,
}

/// Profiles and the rules that route to them, seeded together.
#[derive(Debug)]
pub struct SeedGroup {
    pub profiles: Vec<ProfileSeed>,
    pub rules: Vec<RuleSeed>,
}

/// A profile seed as text.
pub struct ProfileText {
    pub provider: Seq<char>,
    pub model_id: Seq<char>,
    pub display_name: Seq<char>,
    pub capability: ModelCapability,
}

/// A rule seed as text.
pub struct RuleText {
    pub operation_type: Seq<char>,
    pub default_profile: Seq<char>,
    pub fallback_profiles: Seq<Seq<char>>,
}

/// A seed group as text.
pub struct GroupText {
    pub profiles: Seq<ProfileText>,
    pub rules: Seq<RuleText>,
}

impl View for ProfileSeed {
    type V = ProfileText;

    open spec fn view(&self) -> ProfileText {
        ProfileText {
            provider: self.provider@,
            model_id: self.model_id@,
            display_name: self.display_name@,
            capability: self.capability,
        }
    }
}

impl View for RuleSeed {
    type V = RuleText;

    open spec fn view(&self) -> RuleText {
        RuleText {
            operation_type: self.operation_type@,
            default_profile: self.default_profile@,
            fallback_profiles: self.fallback_profiles@.map_values(|s: String| s@),
        }
    }
}

impl View for SeedGroup {
    type V = GroupText;

    open spec fn view(&self) -> GroupText {
        GroupText {
            profiles: self.profiles@.map_values(|p: ProfileSeed| p@),
            rules: self.rules@.map_values(|r: RuleSeed| r@),
        }
    }
}

/// The texts of seed groups.
pub open spec fn group_texts(v: Seq<SeedGroup>) -> Seq<GroupText> {
    v.map_values(|g: SeedGroup| g@)
}
/// The seed group of image and text models, seeded only into an empty catalog.
pub open spec fn seed_group_0() -> GroupText {
    GroupText {
        profiles: seq![
            ProfileText {
                provider: "replicate"@,
                model_id: "black-forest-labs/flux-1.1-pro"@,
                display_name: "FLUX 1.1 Pro (Replicate)"@,
                capability: ModelCapability::ImageGen,
            },
            ProfileText {
                provider: "fal"@,
                model_id: "fal-ai/flux-1-dev"@,
                display_name: "FLUX.1 Dev (Fal)"@,
                capability: ModelCapability::ImageGen,
            },
            ProfileText {
                provider: "kie"@,
                model_id: "flux-kontext"@,
                display_name: "Flux Kontext (Kie)"@,
                capability: ModelCapability::ImageGen,
            },
            ProfileText {
                provider: "together"@,
                model_id: "meta-llama/Meta-Llama-3-70B"@,
                display_name: "Llama 3 (Together)"@,
                capability: ModelCapability::TextComplete,
            },
        ],
        rules: seq![
            RuleText {
                operation_type: "imagegen.txt2img"@,
                default_profile: "FLUX 1.1 Pro (Replicate)"@,
                fallback_profiles: seq!["FLUX.1 Dev (Fal)"@, "Flux Kontext (Kie)"@],
            },
            RuleText {
                operation_type: "textgen.complete"@,
                default_profile: "Llama 3 (Together)"@,
                fallback_profiles: seq![],
            },
        ],
    }
}

/// The seed group of ElevenLabs speech, sound effects and music.
pub open spec fn seed_group_1() -> GroupText {
    GroupText {
        profiles: seq![
            ProfileText {
                provider: "elevenlabs"@,
                model_id: "eleven_multilingual_v2"@,
                display_name: "ElevenLabs TTS — Multilingual v2"@,
                capability: ModelCapability::Tts,
            },
            ProfileText {
                provider: "elevenlabs"@,
                model_id: "eleven_turbo_v2"@,
                display_name: "ElevenLabs TTS — Turbo v2"@,
                capability: ModelCapability::Tts,
            },
            ProfileText {
                provider: "elevenlabs"@,
                model_id: "sound_generation"@,
                display_name: "ElevenLabs SFX"@,
                capability: ModelCapability::AudioGen,
            },
            ProfileText {
                provider: "elevenlabs"@,
                model_id: "eleven_music_v1"@,
                display_name: "ElevenLabs Music"@,
                capability: ModelCapability::AudioGen,
            },
        ],
        rules: seq![
            RuleText {
                operation_type: "tts.npc_line"@,
                default_profile: "ElevenLabs TTS — Multilingual v2"@,
                fallback_profiles: seq![],
            },
            RuleText {
                operation_type: "audiogen.sfx"@,
                default_profile: "ElevenLabs SFX"@,
                fallback_profiles: seq![],
            },
            RuleText {
                operation_type: "audiogen.music"@,
                default_profile: "ElevenLabs Music"@,
                fallback_profiles: seq![],
            },
        ],
    }
}

/// The seed group of background removal.
pub open spec fn seed_group_2() -> GroupText {
    GroupText {
        profiles: seq![
            ProfileText {
                provider: "replicate"@,
                model_id: "851-labs/background-remover"@,
                display_name: "Background Remover (Replicate)"@,
                capability: ModelCapability::BackgroundRemoval,
            },
            ProfileText {
                provider: "fal"@,
                model_id: "fal-ai/rmbg"@,
                display_name: "Fal Background Removal"@,
                capability: ModelCapability::BackgroundRemoval,
            },
        ],
        rules: seq![
            RuleText {
                operation_type: "imageproc.remove_bg"@,
                default_profile: "Background Remover (Replicate)"@,
                fallback_profiles: seq!["Fal Background Removal"@],
            },
        ],
    }
}

/// The seed group of inpainting and outpainting.
pub open spec fn seed_group_3() -> GroupText {
    GroupText {
        profiles: seq![
            ProfileText {
                provider: "fal"@,
                model_id: "fal-ai/flux-fill-dev"@,
                display_name: "Flux Fill (Fal)"@,
                capability: ModelCapability::ImageEdit,
            },
            ProfileText {
                provider: "replicate"@,
                model_id: "stability-ai/sdxl-inpainting:0.1.0"@,
                display_name: "SDXL Inpainting (Replicate)"@,
                capability: ModelCapability::ImageEdit,
            },
        ],
        rules: seq![
            RuleText {
                operation_type: "imageedit.inpaint"@,
                default_profile: "Flux Fill (Fal)"@,
                fallback_profiles: seq!["SDXL Inpainting (Replicate)"@],
            },
            RuleText {
                operation_type: "imageedit.outpaint"@,
                default_profile: "Flux Fill (Fal)"@,
                fallback_profiles: seq!["SDXL Inpainting (Replicate)"@],
            },
        ],
    }
}

/// The seed group of tile generation.
pub open spec fn seed_group_4() -> GroupText {
    GroupText {
        profiles: seq![
            ProfileText {
                provider: "fal"@,
                model_id: "fal-ai/patina/material"@,
                display_name: "Tile Material (Fal)"@,
                capability: ModelCapability::TileGen,
            },
        ],
        rules: seq![
            RuleText {
                operation_type: "tilegen.seamless"@,
                default_profile: "Tile Material (Fal)"@,
                fallback_profiles: seq![],
            },
            RuleText {
                operation_type: "tilegen.basic"@,
                default_profile: "Tile Material (Fal)"@,
                fallback_profiles: seq![],
            },
        ],
    }
}

/// The whole catalog, in seeding order.
pub open spec fn seed_catalog() -> Seq<GroupText> {
    seq![seed_group_0(), seed_group_1(), seed_group_2(), seed_group_3(), seed_group_4()]
}

fn profile(provider: &str, model_id: &str, display_name: &str, capability: ModelCapability) -> (p: ProfileSeed)
    ensures
        p@ == (ProfileText {
            provider: provider@,
            model_id: model_id@,
            display_name: display_name@,
            capability,
        }),
{
    ProfileSeed {
        provider: String::from_str(provider),
        model_id: String::from_str(model_id),
        display_name: String::from_str(display_name),
        capability,
    }
}

fn rule(operation_type: &str, default_profile: &str, fallbacks: Vec<&str>) -> (r: RuleSeed)
    ensures
        r@.operation_type == operation_type@,
        r@.default_profile == default_profile@,
        r@.fallback_profiles == fallbacks@.map_values(|s: &str| s@),
{
    let mut names: Vec<String> = Vec::new();
    let mut i: usize = 0;
    while i < fallbacks.len()
        invariant
            i <= fallbacks@.len(),
            names@.len() == i,
            forall|j: int| 0 <= j < i ==> #[trigger] names@[j]@ == fallbacks@[j]@,
        decreases fallbacks.len() - i,
    {
        names.push(String::from_str(fallbacks[i]));
        i = i + 1;
    }
    assert(names@.map_values(|s: String| s@) =~= fallbacks@.map_values(|s: &str| s@));
    RuleSeed {
        operation_type: String::from_str(operation_type),
        default_profile: String::from_str(default_profile),
        fallback_profiles: names,
    }
}

fn build_group_0() -> (g: SeedGroup)
    ensures
        g@ == seed_group_0(),
{
    let mut profiles: Vec<ProfileSeed> = Vec::new();
    profiles.push(profile("replicate", "black-forest-labs/flux-1.1-pro", "FLUX 1.1 Pro (Replicate)", ModelCapability::ImageGen));
    profiles.push(profile("fal", "fal-ai/flux-1-dev", "FLUX.1 Dev (Fal)", ModelCapability::ImageGen));
    profiles.push(profile("kie", "flux-kontext", "Flux Kontext (Kie)", ModelCapability::ImageGen));
    profiles.push(profile("together", "meta-llama/Meta-Llama-3-70B", "Llama 3 (Together)", ModelCapability::TextComplete));
    let mut rules: Vec<RuleSeed> = Vec::new();
    rules.push(rule("imagegen.txt2img", "FLUX 1.1 Pro (Replicate)", vec!["FLUX.1 Dev (Fal)", "Flux Kontext (Kie)"]));
    rules.push(rule("textgen.complete", "Llama 3 (Together)", vec![]));
    let g = SeedGroup { profiles, rules };
    proof {
        let t = seed_group_0();
        assert(g@.rules[0].fallback_profiles =~= t.rules[0].fallback_profiles);
        assert(g@.rules[1].fallback_profiles =~= t.rules[1].fallback_profiles);
        assert(g@.profiles =~= t.profiles);
        assert(g@.rules =~= t.rules);
    }
    g
}

fn build_group_1() -> (g: SeedGroup)
    ensures
        g@ == seed_group_1(),
{
    let mut profiles: Vec<ProfileSeed> = Vec::new();
    profiles.push(profile("elevenlabs", "eleven_multilingual_v2", "ElevenLabs TTS — Multilingual v2", ModelCapability::Tts));
    profiles.push(profile("elevenlabs", "eleven_turbo_v2", "ElevenLabs TTS — Turbo v2", ModelCapability::Tts));
    profiles.push(profile("elevenlabs", "sound_generation", "ElevenLabs SFX", ModelCapability::AudioGen));
    profiles.push(profile("elevenlabs", "eleven_music_v1", "ElevenLabs Music", ModelCapability::AudioGen));
    let mut rules: Vec<RuleSeed> = Vec::new();
    rules.push(rule("tts.npc_line", "ElevenLabs TTS — Multilingual v2", vec![]));
    rules.push(rule("audiogen.sfx", "ElevenLabs SFX", vec![]));
    rules.push(rule("audiogen.music", "ElevenLabs Music", vec![]));
    let g = SeedGroup { profiles, rules };
    proof {
        let t = seed_group_1();
        assert(g@.rules[0].fallback_profiles =~= t.rules[0].fallback_profiles);
        assert(g@.rules[1].fallback_profiles =~= t.rules[1].fallback_profiles);
        assert(g@.rules[2].fallback_profiles =~= t.rules[2].fallback_profiles);
        assert(g@.profiles =~= t.profiles);
        assert(g@.rules =~= t.rules);
    }
    g
}

fn build_group_2() -> (g: SeedGroup)
    ensures
        g@ == seed_group_2(),
{
    let mut profiles: Vec<ProfileSeed> = Vec::new();
    profiles.push(profile("replicate", "851-labs/background-remover", "Background Remover (Replicate)", ModelCapability::BackgroundRemoval));
    profiles.push(profile("fal", "fal-ai/rmbg", "Fal Background Removal", ModelCapability::BackgroundRemoval));
    let mut rules: Vec<RuleSeed> = Vec::new();
    rules.push(rule("imageproc.remove_bg", "Background Remover (Replicate)", vec!["Fal Background Removal"]));
    let g = SeedGroup { profiles, rules };
    proof {
        let t = seed_group_2();
        assert(g@.rules[0].fallback_profiles =~= t.rules[0].fallback_profiles);
        assert(g@.profiles =~= t.profiles);
        assert(g@.rules =~= t.rules);
    }
    g
}

fn build_group_3() -> (g: SeedGroup)
    ensures
        g@ == seed_group_3(),
{
    let mut profiles: Vec<ProfileSeed> = Vec::new();
    profiles.push(profile("fal", "fal-ai/flux-fill-dev", "Flux Fill (Fal)", ModelCapability::ImageEdit));
    profiles.push(profile("replicate", "stability-ai/sdxl-inpainting:0.1.0", "SDXL Inpainting (Replicate)", ModelCapability::ImageEdit));
    let mut rules: Vec<RuleSeed> = Vec::new();
    rules.push(rule("imageedit.inpaint", "Flux Fill (Fal)", vec!["SDXL Inpainting (Replicate)"]));
    rules.push(rule("imageedit.outpaint", "Flux Fill (Fal)", vec!["SDXL Inpainting (Replicate)"]));
    let g = SeedGroup { profiles, rules };
    proof {
        let t = seed_group_3();
        assert(g@.rules[0].fallback_profiles =~= t.rules[0].fallback_profiles);
        assert(g@.rules[1].fallback_profiles =~= t.rules[1].fallback_profiles);
        assert(g@.profiles =~= t.profiles);
        assert(g@.rules =~= t.rules);
    }
    g
}

fn build_group_4() -> (g: SeedGroup)
    ensures
        g@ == seed_group_4(),
{
    let mut profiles: Vec<ProfileSeed> = Vec::new();
    profiles.push(profile("fal", "fal-ai/patina/material", "Tile Material (Fal)", ModelCapability::TileGen));
    let mut rules: Vec<RuleSeed> = Vec::new();
    rules.push(rule("tilegen.seamless", "Tile Material (Fal)", vec![]));
    rules.push(rule("tilegen.basic", "Tile Material (Fal)", vec![]));
    let g = SeedGroup { profiles, rules };
    proof {
        let t = seed_group_4();
        assert(g@.rules[0].fallback_profiles =~= t.rules[0].fallback_profiles);
        assert(g@.rules[1].fallback_profiles =~= t.rules[1].fallback_profiles);
        assert(g@.profiles =~= t.profiles);
        assert(g@.rules =~= t.rules);
    }
    g
}

/// The groups to seed, in order: the image and text group only into an
/// empty catalog, the other groups on every start.
pub fn seed_groups(catalog_is_empty: bool) -> (r: Vec<SeedGroup>)
    ensures
        group_texts(r@) == (if catalog_is_empty {
            seed_catalog()
        } else {
            seed_catalog().skip(1)
        }),
{
    let mut r: Vec<SeedGroup> = Vec::new();
    if catalog_is_empty {
        r.push(build_group_0());
    }
    r.push(build_group_1());
    r.push(build_group_2());
    r.push(build_group_3());
    r.push(build_group_4());
    assert(group_texts(r@) =~= (if catalog_is_empty {
        seed_catalog()
    } else {
        seed_catalog().skip(1)
    }));
    r
}

/// The operations routed to the first text-completion profile, when one exists.
pub open spec fn codegen_operations() -> Seq<Seq<char>> {
    seq!["codegen.godot"@, "codegen.unity"@]
}

/// The routing keys of code generation.
pub fn codegen_operation_types() -> (r: Vec<&'static str>)
    ensures
        r@.map_values(|s: &str| s@) == codegen_operations(),
{
    let r = vec!["codegen.godot", "codegen.unity"];
    assert(r@.map_values(|s: &str| s@) =~= codegen_operations());
    r
}

/// The profile code generation is routed to: the first, among the stored
/// profiles (given by their capabilities), that can complete text.
pub fn codegen_profile(capabilities: &Vec<Vec<ModelCapability>>) -> (r: Option<usize>)
    ensures
        r matches Some(i) ==> i < capabilities@.len() && capabilities@[i as int]@.contains(ModelCapability::TextComplete)
            && forall|j: int| 0 <= j < i ==> !(#[trigger] capabilities@[j])@.contains(ModelCapability::TextComplete),
        r is None ==> forall|j: int|
            0 <= j < capabilities@.len() ==> !(#[trigger] capabilities@[j])@.contains(ModelCapability::TextComplete),
{
    let mut i: usize = 0;
    while i < capabilities.len()
        invariant
            i <= capabilities@.len(),
            forall|j: int| 0 <= j < i ==> !(#[trigger] capabilities@[j])@.contains(ModelCapability::TextComplete),
        decreases capabilities.len() - i,
    {
        let caps = &capabilities[i];
        let mut k: usize = 0;
        while k < caps.len()
            invariant
                i < capabilities@.len(),
                caps@ == capabilities@[i as int]@,
                forall|j: int| 0 <= j < i ==> !(#[trigger] capabilities@[j])@.contains(ModelCapability::TextComplete),
                k <= caps@.len(),
                forall|m: int| 0 <= m < k ==> caps@[m] != ModelCapability::TextComplete,
            decreases caps.len() - k,
        {
            if caps[k] == ModelCapability::TextComplete {
                assert(capabilities@[i as int]@[k as int] == ModelCapability::TextComplete);
                return Some(i);
            }
            k = k + 1;
        }
        i = i + 1;
    }
    None
}

/// Every rule of the catalog routes only to profiles seeded in its own group,
/// so resolving its display names to ids always succeeds.
pub proof fn lemma_rules_name_group_profiles(g: int, k: int)
    requires
        0 <= g < seed_catalog().len(),
        0 <= k < seed_catalog()[g].rules.len(),
    ensures
        exists|i: int|
            0 <= i < seed_catalog()[g].profiles.len() && #[trigger] seed_catalog()[g].profiles[i].display_name
                == seed_catalog()[g].rules[k].default_profile,
        forall|f: int|
            #![trigger seed_catalog()[g].rules[k].fallback_profiles[f]]
            0 <= f < seed_catalog()[g].rules[k].fallback_profiles.len() ==> exists|i: int|
                0 <= i < seed_catalog()[g].profiles.len() && #[trigger] seed_catalog()[g].profiles[i].display_name
                    == seed_catalog()[g].rules[k].fallback_profiles[f],
{
    let c = seed_catalog();
    if g == 0 {
        if k == 0 {
            assert(c[g].profiles[0].display_name == c[g].rules[k].default_profile);
            assert(c[g].profiles[1].display_name == c[g].rules[k].fallback_profiles[0]);
            assert(c[g].profiles[2].display_name == c[g].rules[k].fallback_profiles[1]);
        }
        if k == 1 {
            assert(c[g].profiles[3].display_name == c[g].rules[k].default_profile);
        }
    }
    if g == 1 {
        if k == 0 {
            assert(c[g].profiles[0].display_name == c[g].rules[k].default_profile);
        }
        if k == 1 {
            assert(c[g].profiles[2].display_name == c[g].rules[k].default_profile);
        }
        if k == 2 {
            assert(c[g].profiles[3].display_name == c[g].rules[k].default_profile);
        }
    }
    if g == 2 {
        if k == 0 {
            assert(c[g].profiles[0].display_name == c[g].rules[k].default_profile);
            assert(c[g].profiles[1].display_name == c[g].rules[k].fallback_profiles[0]);
        }
    }
    if g == 3 {
        if k == 0 {
            assert(c[g].profiles[0].display_name == c[g].rules[k].default_profile);
            assert(c[g].profiles[1].display_name == c[g].rules[k].fallback_profiles[0]);
        }
        if k == 1 {
            assert(c[g].profiles[0].display_name == c[g].rules[k].default_profile);
            assert(c[g].profiles[1].display_name == c[g].rules[k].fallback_profiles[0]);
        }
    }
    if g == 4 {
        if k == 0 {
            assert(c[g].profiles[0].display_name == c[g].rules[k].default_profile);
        }
        if k == 1 {
            assert(c[g].profiles[0].display_name == c[g].rules[k].default_profile);
        }
    }
}

} // verus!
