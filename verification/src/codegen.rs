//! One-shot code generation: the prompt sent to the text model, the routing
//! key and its failures, and the verdict on the model's parsed answer.

use vstd::prelude::*;
use crate::agent::CodeFile;
use crate::templates::{built_in_templates, builtin_template_texts, template_texts};
use crate::text::{chars_of, str_eq};

verus! {

/// Default maximum number of tokens to generate.
pub fn default_max_tokens() -> (n: u32)
    ensures
        n == 4096,
{
    4096
}

/// The built-in template with this id, if any (the first one).
pub open spec fn template_prompt_by_id(id: Seq<char>) -> Option<Seq<char>> {
    let ts = builtin_template_texts();
    if exists|i: int| 0 <= i < ts.len() && ts[i].id == id {
        let i = choose|i: int|
            0 <= i < ts.len() && ts[i].id == id && forall|j: int| 0 <= j < i ==> ts[j].id != id;
        Some(ts[i].prompt_template)
    } else {
        None
    }
}

/// The full prompt: the engine's system prompt, a blank line, the chosen
/// built-in template (when the id names one) as a guide, and the request.
pub open spec fn code_prompt(system_prompt: Seq<char>, template: Option<Seq<char>>, request: Seq<char>) -> Seq<char> {
    system_prompt + "\n\n"@ + match template {
        Some(t) => "\nUse the following template as a guide:\n"@ + t + "\n\n"@,
        None => Seq::empty(),
    } + "User request: "@ + request
}

/// Finds the prompt text of the first built-in template with this id.
pub fn find_template_prompt(id: &str) -> (r: Option<String>)
    ensures
        match r {
            Some(p) => template_prompt_by_id(id@) == Some(p@),
            None => template_prompt_by_id(id@) is None,
        },
{
    let templates = built_in_templates();
    let ghost ts = builtin_template_texts();
    let mut i: usize = 0;
    while i < templates.len()
        invariant
            template_texts(templates@) == ts,
            ts == builtin_template_texts(),
            i <= templates@.len(),
            forall|j: int| 0 <= j < i ==> ts[j].id != id@,
        decreases templates.len() - i,
    {
        proof {
            assert(template_texts(templates@)[i as int] == templates@[i as int]@);
        }
        if str_eq(templates[i].id.as_str(), id) {
            proof {
                let k = choose|k: int|
                    0 <= k < ts.len() && ts[k].id == id@ && forall|j: int| 0 <= j < k ==> ts[j].id != id@;
                assert(k == i) by {
                    if k < i {
                    } else if k > i {
                        assert(ts[i as int].id == id@);
                    }
                }
            }
            return Some(templates[i].prompt_template.clone());
        }
        i = i + 1;
    }
    None
}

/// Builds the full prompt from system prompt, template, and user prompt.
pub fn build_prompt(system_prompt: &str, template_id: Option<&str>, request: &str) -> (r: String)
    ensures
        r@ == code_prompt(
            system_prompt@,
            match template_id {
                Some(id) => template_prompt_by_id(id@),
                None => None,
            },
            request@,
        ),
{
    let mut full = String::from_str(system_prompt);
    full.append("\n\n");
    let template = match template_id {
        Some(id) => find_template_prompt(id),
        None => None,
    };
    match &template {
        Some(t) => {
            full.append("\nUse the following template as a guide:\n");
            full.append(t.as_str());
            full.append("\n\n");
        },
        None => {},
    }
    full.append("User request: ");
    full.append(request);
    full
}

/// The routing key of code generation for an engine: `codegen.<engine>`.
pub fn codegen_operation_type(engine: &str) -> (r: String)
    ensures
        r@ == "codegen."@ + engine@,
{
    let mut s = String::from_str("codegen.");
    s.append(engine);
    s
}

/// Why the text model could not be resolved.
#[derive(Debug, Clone, Copy, PartialEq, Eq, Structural)]
pub enum RoutingFailure {
    ProviderNotRegistered,
    CredentialNotFound,
    ProfileNotFound,
    NoRuleForOperation,
    Other,
}

/// A failed code generation job: a bad request or an internal failure.
#[derive(Debug)]
pub enum CodegenError {
    Validation(String),
    Internal(String),
}

/// The error a routing failure is reported as, when the job names a model
/// profile (`model_id`) or goes by the engine's routing rule (`operation_type`);
/// `detail` is the routing error's own text.
pub fn routing_error(failure: RoutingFailure, model_id: Option<&str>, operation_type: &str, detail: &str) -> (e: CodegenError)
    ensures
        failure == RoutingFailure::ProviderNotRegistered ==> (e matches CodegenError::Validation(m) && m@ == (if model_id is Some {
            "No text provider registered for the specified model"@
        } else {
            "No text provider registered for code generation"@
        })),
        failure == RoutingFailure::CredentialNotFound ==> (e matches CodegenError::Validation(m) && m@ == (if model_id is Some {
            "No credential found for the specified model provider"@
        } else {
            "No credential found for text provider"@
        })),
        failure == RoutingFailure::ProfileNotFound ==> (model_id matches Some(id) ==> (e matches CodegenError::Validation(m)
            && m@ == "Model profile not found: "@ + id@)) && (model_id is None ==> (e matches CodegenError::Internal(m)
            && m@ == "Routing error: "@ + detail@)),
        failure == RoutingFailure::NoRuleForOperation ==> (model_id is None ==> (e matches CodegenError::Validation(m)
            && m@ == "No routing rule configured for operation: "@ + operation_type@)) && (model_id is Some ==> (
        e matches CodegenError::Internal(m) && m@ == "Routing error: "@ + detail@)),
        failure == RoutingFailure::Other ==> (e matches CodegenError::Internal(m) && m@ == "Routing error: "@ + detail@),
{
    let by_profile = model_id.is_some();
    match failure {
        RoutingFailure::ProviderNotRegistered => if by_profile {
            CodegenError::Validation(String::from_str("No text provider registered for the specified model"))
        } else {
            CodegenError::Validation(String::from_str("No text provider registered for code generation"))
        },
        RoutingFailure::CredentialNotFound => if by_profile {
            CodegenError::Validation(String::from_str("No credential found for the specified model provider"))
        } else {
            CodegenError::Validation(String::from_str("No credential found for text provider"))
        },
        RoutingFailure::ProfileNotFound => match model_id {
            Some(id) => {
                let mut m = String::from_str("Model profile not found: ");
                m.append(id);
                CodegenError::Validation(m)
            },
            None => {
                let mut m = String::from_str("Routing error: ");
                m.append(detail);
                CodegenError::Internal(m)
            },
        },
        RoutingFailure::NoRuleForOperation => if by_profile {
            let mut m = String::from_str("Routing error: ");
            m.append(detail);
            CodegenError::Internal(m)
        } else {
            let mut m = String::from_str("No routing rule configured for operation: ");
            m.append(operation_type);
            CodegenError::Validation(m)
        },
        RoutingFailure::Other => {
            let mut m = String::from_str("Routing error: ");
            m.append(detail);
            CodegenError::Internal(m)
        },
    }
}

/// The generated files from the model's answer, parsed as the expected JSON
/// shape (`None` when it did not parse): an answer that is not that JSON, or
/// that lists no file, is refused.
pub fn code_files_from_response(parsed_files: Option<Vec<CodeFile>>) -> (r: Result<Vec<CodeFile>, String>)
    ensures
        parsed_files is None ==> (r matches Err(e) && e@ == "Model returned invalid JSON output"@),
        parsed_files matches Some(f) ==> (f@.len() == 0 ==> (r matches Err(e) && e@
            == "Empty files array in response"@)) && (f@.len() > 0 ==> (r matches Ok(g) && g@ == f@)),
{
    match parsed_files {
        None => Err(String::from_str("Model returned invalid JSON output")),
        Some(files) => if files.len() == 0 {
            Err(String::from_str("Empty files array in response"))
        } else {
            Ok(files)
        },
    }
}

/// The metadata summary of a generation: `Generated <n> file(s)`.
pub fn generation_summary(count: usize) -> (r: String)
    ensures
        r@ == "Generated "@ + crate::text::decimal(count as nat) + " file(s)"@,
{
    let mut s = String::from_str("Generated ");
    s.append(crate::text::decimal_string(count as u64).as_str());
    s.append(" file(s)");
    s
}

/// The game engines code is generated for.
#[derive(Debug, Clone, Copy, PartialEq, Eq, Structural)]
pub enum CodeEngine {
    Godot,
    Unity,
}

/// `s` spells the lowercase word `t`, each letter in either ASCII case.
pub open spec fn spells_ignoring_case(s: Seq<char>, t: Seq<char>) -> bool {
    &&& s.len() == t.len()
    &&& forall|i: int|
        0 <= i < s.len() ==> (#[trigger] s[i] == t[i] || ('A' <= s[i] && s[i] <= 'Z' && (s[i] as u32) + 32 == t[i] as u32))
}

/// The engine an engine name denotes, ignoring ASCII case.
pub open spec fn engine_named(s: Seq<char>) -> Option<CodeEngine> {
    if spells_ignoring_case(s, "godot"@) {
        Some(CodeEngine::Godot)
    } else if spells_ignoring_case(s, "unity"@) {
        Some(CodeEngine::Unity)
    } else {
        None
    }
}

fn spells(s: &str, target: &str) -> (r: bool)
    ensures
        r == spells_ignoring_case(s@, target@),
{
    let a = chars_of(s);
    let b = chars_of(target);
    if a.len() != b.len() {
        return false;
    }
    let mut i: usize = 0;
    while i < a.len()
        invariant
            a@ == s@,
            b@ == target@,
            a@.len() == b@.len(),
            i <= a@.len(),
            forall|j: int|
                0 <= j < i ==> (#[trigger] s@[j] == target@[j] || ('A' <= s@[j] && s@[j] <= 'Z' && (s@[j] as u32) + 32
                    == target@[j] as u32)),
        decreases a.len() - i,
    {
        let c = a[i];
        let t = b[i];
        if !(c == t || ('A' <= c && c <= 'Z' && (c as u32) + 32 == t as u32)) {
            return false;
        }
        i = i + 1;
    }
    true
}

impl CodeEngine {
    /// The engine a name denotes, ignoring ASCII case (`"GODOT"` is Godot);
    /// `None` for any other name.
    pub fn from_str(s: &str) -> (r: Option<CodeEngine>)
        ensures
            r == engine_named(s@),
    {
        if spells(s, "godot") {
            Some(CodeEngine::Godot)
        } else if spells(s, "unity") {
            Some(CodeEngine::Unity)
        } else {
            None
        }
    }

    /// The extension of the engine's script files.
    pub fn file_extension(&self) -> (r: &'static str)
        ensures
            r@ == (match *self {
                CodeEngine::Godot => ".gd"@,
                CodeEngine::Unity => ".cs"@,
            }),
    {
        match self {
            CodeEngine::Godot => ".gd",
            CodeEngine::Unity => ".cs",
        }
    }

    /// The engine's scripting language.
    pub fn language(&self) -> (r: &'static str)
        ensures
            r@ == (match *self {
                CodeEngine::Godot => "GDScript"@,
                CodeEngine::Unity => "C#"@,
            }),
    {
        match self {
            CodeEngine::Godot => "GDScript",
            CodeEngine::Unity => "C#",
        }
    }
}

/// The first check of a code job: the engine must be one the generator
/// knows, else the job fails as a bad request before any model is resolved.
pub fn check_engine(engine: &str) -> (r: Result<CodeEngine, CodegenError>)
    ensures
        engine_named(engine@) matches Some(e) ==> r matches Ok(x) && x == e,
        engine_named(engine@) is None ==> (r matches Err(CodegenError::Validation(m)) && m@ == "Unsupported engine: "@ + engine@),
{
    match CodeEngine::from_str(engine) {
        Some(e) => Ok(e),
        None => {
            let mut m = String::from_str("Unsupported engine: ");
            m.append(engine);
            Err(CodegenError::Validation(m))
        },
    }
}

} // verus!
