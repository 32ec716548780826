//! The orchestrator's configuration, and the language profiles in it.
use vstd::prelude::*;

verus! {

/// Whether a step's output is captured.
#[derive(Clone, Copy, Debug, PartialEq, Eq, Structural)]
pub struct LambdoLanguageStepOutputConfig {
    pub enabled: bool,
    pub debug: bool,
}

/// One step of a language's execution recipe; `command` may hold the
/// `{{filename}}` placeholder.
#[derive(Clone, Debug)]
pub struct LambdoLanguageStepConfig {
    pub name: Option<String>,
    pub command: String,
    pub output: LambdoLanguageStepOutputConfig,
}

/// A language profile: its name, version, guest image and step recipe.
#[derive(Clone, Debug)]
pub struct LambdoLanguageConfig {
    pub name: String,
    pub version: String,
    pub initramfs: String,
    pub steps: Vec<LambdoLanguageStepConfig>,
}

#[derive(Clone, Debug)]
pub struct LambdoApiConfig {
    pub web_host: String,
    pub web_port: u16,
    pub grpc_host: String,
    pub gprc_port: u16,
    pub bridge: String,
    pub bridge_address: String,
}

#[derive(Clone, Debug)]
pub struct LambdoVMMConfig {
    pub kernel: String,
}

#[derive(Clone, Debug)]
pub struct LambdoAgentConfig {
    pub path: String,
    pub config: String,
}

#[allow(non_snake_case)]
#[derive(Clone, Debug)]
pub struct LambdoConfig {
    pub apiVersion: String,
    pub kind: String,
    pub api: LambdoApiConfig,
    pub vmm: LambdoVMMConfig,
    pub agent: LambdoAgentConfig,
    pub languages: Vec<LambdoLanguageConfig>,
}

/// Mathematical value of a step.
pub struct StepView {
    pub name: Option<Seq<char>>,
    pub command: Seq<char>,
    pub output: LambdoLanguageStepOutputConfig,
}

/// Mathematical value of a language profile.
pub struct LanguageView {
    pub name: Seq<char>,
    pub version: Seq<char>,
    pub initramfs: Seq<char>,
    pub steps: Seq<StepView>,
}

pub open spec fn opt_view(o: Option<String>) -> Option<Seq<char>> {
    match o {
        Some(s) => Some(s@),
        None => None,
    }
}

impl View for LambdoLanguageStepConfig {
    type V = StepView;

    open spec fn view(&self) -> StepView {
        StepView { name: opt_view(self.name), command: self.command@, output: self.output }
    }
}

impl View for LambdoLanguageConfig {
    type V = LanguageView;

    open spec fn view(&self) -> LanguageView {
        LanguageView {
            name: self.name@,
            version: self.version@,
            initramfs: self.initramfs@,
            steps: Seq::new(self.steps@.len(), |i: int| self.steps@[i]@),
        }
    }
}

impl LambdoLanguageStepConfig {
    /// A copy with the same value.
    pub fn duplicate(&self) -> (r: Self)
        ensures
            r@ == self@,
    {
        let name = match &self.name {
            Some(n) => Some(n.clone()),
            None => None,
        };
        LambdoLanguageStepConfig { name, command: self.command.clone(), output: self.output }
    }
}

impl LambdoLanguageConfig {
    /// A copy with the same value.
    pub fn duplicate(&self) -> (r: Self)
        ensures
            r@ == self@,
    {
        let mut steps: Vec<LambdoLanguageStepConfig> = Vec::new();
        let mut i: usize = 0;
        while i < self.steps.len()
            invariant
                i <= self.steps@.len(),
                steps@.len() == i,
                forall|j: int| 0 <= j < i ==> #[trigger] steps@[j]@ == self.steps@[j]@,
            decreases self.steps@.len() - i,
        {
            steps.push(self.steps[i].duplicate());
            i = i + 1;
        }
        let r = LambdoLanguageConfig {
            name: self.name.clone(),
            version: self.version.clone(),
            initramfs: self.initramfs.clone(),
            steps,
        };
        assert(r@.steps =~= self@.steps);
        r
    }
}

} // verus!
