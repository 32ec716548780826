//! Turning a submitted job into an execution request for the in-guest agent.
use vstd::prelude::*;
use vstd::string::*;
use crate::config::{
    LambdoConfig, LambdoLanguageConfig, LanguageView, StepView,
};
use crate::text::{contains_seq, lemma_replace_absent, replace_all, replace_text};

verus! {

/// One command for the agent, with whether its output is captured.
#[derive(Debug)]
pub struct ExecuteRequestStep {
    pub command: String,
    pub enable_output: bool,
}

/// A file materialised in the guest before the steps run.
#[derive(Debug)]
pub struct RequestFile {
    pub filename: String,
    pub content: String,
}

/// What is sent to the agent: an identifier, the ordered steps, the files.
#[derive(Debug)]
pub struct ExecuteRequest {
    pub id: String,
    pub steps: Vec<ExecuteRequestStep>,
    pub files: Vec<RequestFile>,
}

/// A source file of a submitted job.
#[derive(Debug)]
pub struct SourceFile {
    pub filename: String,
    pub content: String,
}

/// A submitted job: the language, its version, the sources and the input.
#[derive(Debug)]
pub struct RunRequest {
    pub language: String,
    pub version: String,
    pub code: Vec<SourceFile>,
    pub input: String,
}

/// Why a job cannot be turned into a request.
#[derive(Debug, PartialEq, Eq, Structural)]
pub enum ServiceError {
    /// No profile of the configuration has the requested name.
    LanguageNotFound,
    /// The job holds no source file.
    NoSourceFile,
}

/// The entry-point placeholder of step templates: `{{filename}}`.
pub open spec fn placeholder() -> Seq<char> {
    seq!['{', '{', 'f', 'i', 'l', 'e', 'n', 'a', 'm', 'e', '}', '}']
}

/// The name of the file that carries a job's input.
pub open spec fn input_file_name() -> Seq<char> {
    seq!['i', 'n', 'p', 'u', 't', '.', 'i', 'n', 'p', 'u', 't']
}

/// Index of the first profile named `name`, if any.
pub open spec fn first_named(langs: Seq<LanguageView>, name: Seq<char>) -> Option<int> {
    if exists|i: int| 0 <= i < langs.len() && langs[i].name == name {
        Some(choose|i: int|
            0 <= i < langs.len() && langs[i].name == name
                && forall|j: int| 0 <= j < i ==> langs[j].name != name)
    } else {
        None
    }
}

/// The profile found for `name`.
pub open spec fn lookup(langs: Seq<LanguageView>, name: Seq<char>) -> Option<LanguageView> {
    match first_named(langs, name) {
        Some(i) => Some(langs[i]),
        None => None,
    }
}

/// The command of a step template with the entry point put in.
pub open spec fn instantiate(step: StepView, entrypoint: Seq<char>) -> Seq<char> {
    replace_all(step.command, placeholder(), entrypoint)
}

/// `step` is the template `t` instantiated for `entrypoint`.
pub open spec fn step_matches(step: ExecuteRequestStep, t: StepView, entrypoint: Seq<char>) -> bool {
    step.command@ == instantiate(t, entrypoint) && step.enable_output == t.output.enabled
}

/// `steps` is the recipe of `lang` instantiated for `entrypoint`.
pub open spec fn steps_for(
    steps: Seq<ExecuteRequestStep>,
    lang: LanguageView,
    entrypoint: Seq<char>,
) -> bool {
    &&& steps.len() == lang.steps.len()
    &&& forall|i: int|
        0 <= i < steps.len() ==> step_matches(#[trigger] steps[i], lang.steps[i], entrypoint)
}

pub open spec fn languages_view(c: LambdoConfig) -> Seq<LanguageView> {
    Seq::new(c.languages@.len(), |i: int| c.languages@[i]@)
}

/// Names are unique among the profiles.
pub open spec fn names_unique(langs: Seq<LanguageView>) -> bool {
    forall|i: int, j: int|
        0 <= i < langs.len() && 0 <= j < langs.len() && #[trigger] langs[i].name
            == #[trigger] langs[j].name ==> i == j
}

/// Looking a name up yields the profile that carries exactly that name, and
/// with unique names it is the only one that does; a name that no profile
/// carries yields nothing.
pub proof fn lemma_lookup_exact(langs: Seq<LanguageView>, name: Seq<char>, k: int)
    requires
        names_unique(langs),
        0 <= k < langs.len(),
    ensures
        langs[k].name == name ==> lookup(langs, name) == Some(langs[k]),
        langs[k].name != name ==> lookup(langs, name) != Some(langs[k]),
        (forall|i: int| 0 <= i < langs.len() ==> langs[i].name != name) ==> lookup(langs, name)
            is None,
{
    if langs[k].name == name {
        assert(forall|j: int| 0 <= j < k ==> langs[j].name != name);
    }
    if let Some(i) = first_named(langs, name) {
        if langs[k].name != name {
            assert(langs[i].name == name);
        }
    }
}

/// In an instantiated recipe each step is its template with every
/// placeholder, found left to right without overlap, replaced by the entry
/// point; a template without a placeholder is kept as it is.
pub proof fn lemma_templating(
    steps: Seq<ExecuteRequestStep>,
    lang: LanguageView,
    entrypoint: Seq<char>,
    i: int,
)
    requires
        steps_for(steps, lang, entrypoint),
        0 <= i < steps.len(),
    ensures
        steps[i].command@ == replace_all(lang.steps[i].command, placeholder(), entrypoint),
        !contains_seq(lang.steps[i].command, placeholder()) ==> steps[i].command@
            == lang.steps[i].command,
{
    assert(step_matches(steps[i], lang.steps[i], entrypoint));
    if !contains_seq(lang.steps[i].command, placeholder()) {
        lemma_replace_absent(lang.steps[i].command, placeholder(), entrypoint);
    }
}

/// `req` carries `id`, the recipe of `lang` for the job's first source file,
/// and two files: that source and the job's input.
pub open spec fn request_for(
    req: ExecuteRequest,
    lang: LanguageView,
    job: RunRequest,
    id: Seq<char>,
) -> bool {
    let entry = job.code@[0];
    &&& req.id@ == id
    &&& steps_for(req.steps@, lang, entry.filename@)
    &&& req.files@.len() == 2
    &&& req.files@[0].filename@ == entry.filename@
    &&& req.files@[0].content@ == entry.content@
    &&& req.files@[1].filename@ == input_file_name()
    &&& req.files@[1].content@ == job.input@
}

/// Relies on `uuid::Uuid::new_v4` and its `Display`: a random identifier,
/// written as 36 characters (hyphenated lower-case hex).
#[verifier::external_body]
fn new_request_id() -> (r: String)
    ensures
        r@.len() == 36,
{
    uuid::Uuid::new_v4().to_string()
}

/// Holds the configuration that jobs are looked up against.
pub struct LambdoApiService {
    pub config: LambdoConfig,
}

impl LambdoApiService {
    pub fn new(config: LambdoConfig) -> (r: Self)
        ensures
            r.config == config,
    {
        LambdoApiService { config }
    }

    /// The first profile whose name is exactly `language`.
    pub fn find_language(&self, language: &String) -> (r: Result<
        LambdoLanguageConfig,
        ServiceError,
    >)
        ensures
            match r {
                Ok(p) => lookup(languages_view(self.config), language@) == Some(p@),
                Err(e) => e == ServiceError::LanguageNotFound && lookup(
                    languages_view(self.config),
                    language@,
                ) is None,
            },
    {
        let langs = &self.config.languages;
        let ghost lv = languages_view(self.config);
        let mut i: usize = 0;
        while i < langs.len()
            invariant
                i <= langs@.len(),
                lv == languages_view(self.config),
                langs == &self.config.languages,
                forall|j: int| 0 <= j < i ==> lv[j].name != language@,
            decreases langs@.len() - i,
        {
            if langs[i].name == *language {
                assert(lv[i as int].name == language@);
                let ghost w = i as int;
                assert(first_named(lv, language@) == Some(w));
                return Ok(langs[i].duplicate());
            }
            i = i + 1;
        }
        Err(ServiceError::LanguageNotFound)
    }

    /// The request for `request` under the identifier `id`, with the profile
    /// it was built from.
    pub fn build_request(&self, request: &RunRequest, id: String) -> (r: Result<
        (ExecuteRequest, LambdoLanguageConfig),
        ServiceError,
    >)
        ensures
            request.code@.len() == 0 ==> r == Err::<(ExecuteRequest, LambdoLanguageConfig), _>(
                ServiceError::NoSourceFile,
            ),
            request.code@.len() > 0 && lookup(languages_view(self.config), request.language@)
                is None ==> r == Err::<(ExecuteRequest, LambdoLanguageConfig), _>(
                ServiceError::LanguageNotFound,
            ),
            request.code@.len() > 0 && lookup(languages_view(self.config), request.language@)
                is Some ==> r is Ok,
            r matches Ok((req, lang)) ==> {
                &&& request.code@.len() > 0
                &&& lookup(languages_view(self.config), request.language@) == Some(lang@)
                &&& request_for(req, lang@, *request, id@)
            },
    {
        if request.code.len() == 0 {
            return Err(ServiceError::NoSourceFile);
        }
        let entry = &request.code[0];
        let lang = match self.find_language(&request.language) {
            Ok(l) => l,
            Err(e) => {
                return Err(e);
            },
        };
        let steps = Self::generate_steps(&lang, entry.filename.as_str());
        let input_name = "input.input";
        proof {
            reveal_strlit("input.input");
        }
        let file = RequestFile { filename: entry.filename.clone(), content: entry.content.clone() };
        let input = RequestFile {
            filename: String::from_str(input_name),
            content: request.input.clone(),
        };
        assert(input.filename@ =~= input_file_name());
        let files = vec![file, input];
        Ok((ExecuteRequest { id, steps, files }, lang))
    }

    /// The request for `request` under a fresh random identifier.
    pub fn prepare_run(&self, request: &RunRequest) -> (r: Result<
        (ExecuteRequest, LambdoLanguageConfig),
        ServiceError,
    >)
        ensures
            request.code@.len() == 0 ==> r == Err::<(ExecuteRequest, LambdoLanguageConfig), _>(
                ServiceError::NoSourceFile,
            ),
            request.code@.len() > 0 && lookup(languages_view(self.config), request.language@)
                is None ==> r == Err::<(ExecuteRequest, LambdoLanguageConfig), _>(
                ServiceError::LanguageNotFound,
            ),
            request.code@.len() > 0 && lookup(languages_view(self.config), request.language@)
                is Some ==> r is Ok,
            r matches Ok((req, lang)) ==> {
                &&& request.code@.len() > 0
                &&& lookup(languages_view(self.config), request.language@) == Some(lang@)
                &&& req.id@.len() == 36
                &&& request_for(req, lang@, *request, req.id@)
            },
    {
        let id = new_request_id();
        self.build_request(request, id)
    }

    /// The recipe of `language_settings` with `entrypoint` put in place of
    /// every placeholder.
    pub fn generate_steps(
        language_settings: &LambdoLanguageConfig,
        entrypoint: &str,
    ) -> (r: Vec<ExecuteRequestStep>)
        ensures
            steps_for(r@, language_settings@, entrypoint@),
    {
        let pattern = "{{filename}}";
        proof {
            reveal_strlit("{{filename}}");
        }
        assert(pattern@ =~= placeholder());
        let mut steps: Vec<ExecuteRequestStep> = Vec::new();
        let mut i: usize = 0;
        while i < language_settings.steps.len()
            invariant
                i <= language_settings.steps@.len(),
                pattern@ == placeholder(),
                steps@.len() == i,
                forall|j: int|
                    0 <= j < i ==> step_matches(
                        #[trigger] steps@[j],
                        language_settings@.steps[j],
                        entrypoint@,
                    ),
            decreases language_settings.steps@.len() - i,
        {
            let step = &language_settings.steps[i];
            let command = replace_text(step.command.as_str(), pattern, entrypoint);
            assert(language_settings@.steps[i as int] == step@);
            let ghost before = steps@;
            steps.push(ExecuteRequestStep { command, enable_output: step.output.enabled });
            assert(forall|j: int| 0 <= j < i ==> steps@[j] == before[j]);
            i = i + 1;
        }
        steps
    }
}

} // verus!
