//! What a job is made of.
use vstd::prelude::*;
use vstd::string::*;

use crate::json::{Json, JsonV};
use crate::json;
use crate::str_map::StrMap;
use crate::text;

verus! {

/// A job as the service hands it out.
pub struct JobManifest {
    pub plan: Plan,
    pub steps: Vec<Step>,
    pub variables: StrMap<JobVariable>,
    pub resources: JobResources,
    pub context_data: Json,
    pub job_container: Option<ContainerSpec>,
    pub service_containers: Option<Vec<ContainerSpec>>,
    pub mask: Vec<Json>,
    pub file_table: Vec<String>,
}

/// What a job belongs to.
pub struct Plan {
    pub plan_id: String,
    pub job_id: String,
    pub timeline_id: String,
}

/// A container that a job or one of its services runs in.
pub struct ContainerSpec {
    pub image: String,
    pub environment: StrMap<String>,
    pub ports: Vec<String>,
    pub volumes: Vec<String>,
    pub alias: Option<String>,
}

pub struct JobResources {
    pub endpoints: Vec<ServiceEndpoint>,
}

/// One step of a job.
pub struct Step {
    pub id: String,
    pub display_name: String,
    pub reference: StepReference,
    pub inputs: StrMap<String>,
    pub condition: Option<String>,
    pub timeout_in_minutes: Option<u64>,
    pub continue_on_error: bool,
    pub order: u32,
    pub environment: Option<StrMap<String>>,
    pub context_name: Option<String>,
}

/// What a step runs: `Script` for `run:` steps, the others for actions.
pub enum StepReferenceKind {
    Script,
    Repository,
    ContainerRegistry,
    Unknown(String),
}

/// Which script or action a step runs.
pub struct StepReference {
    pub name: String,
    pub kind: StepReferenceKind,
    pub repository_type: Option<String>,
    pub path: Option<String>,
    pub git_ref: Option<String>,
    pub image: Option<String>,
}

pub struct JobVariable {
    pub value: String,
    pub is_secret: bool,
}

pub struct ServiceEndpoint {
    pub name: String,
    pub url: String,
    pub authorization: Option<EndpointAuthorization>,
    pub data: StrMap<String>,
}

pub struct EndpointAuthorization {
    pub scheme: String,
    pub parameters: StrMap<String>,
}

pub struct JobVariableV {
    pub value: Seq<char>,
    pub is_secret: bool,
}

impl View for JobVariable {
    type V = JobVariableV;

    open spec fn view(&self) -> JobVariableV {
        JobVariableV { value: self.value@, is_secret: self.is_secret }
    }
}

pub enum KindV {
    Script,
    Repository,
    ContainerRegistry,
    Unknown(Seq<char>),
}

impl View for StepReferenceKind {
    type V = KindV;

    open spec fn view(&self) -> KindV {
        match *self {
            StepReferenceKind::Script => KindV::Script,
            StepReferenceKind::Repository => KindV::Repository,
            StepReferenceKind::ContainerRegistry => KindV::ContainerRegistry,
            StepReferenceKind::Unknown(s) => KindV::Unknown(s@),
        }
    }
}

impl Default for StepReferenceKind {
    fn default() -> (r: StepReferenceKind)
        ensures
            r@ == KindV::Unknown(Seq::empty()),
    {
        let empty = String::new();
        assert(empty@ =~= Seq::empty());
        StepReferenceKind::Unknown(empty)
    }
}

pub struct ReferenceV {
    pub name: Seq<char>,
    pub kind: KindV,
    pub repository_type: Option<Seq<char>>,
    pub path: Option<Seq<char>>,
    pub git_ref: Option<Seq<char>>,
    pub image: Option<Seq<char>>,
}

impl View for StepReference {
    type V = ReferenceV;

    open spec fn view(&self) -> ReferenceV {
        ReferenceV {
            name: self.name@,
            kind: self.kind@,
            repository_type: text::opt(self.repository_type),
            path: text::opt(self.path),
            git_ref: text::opt(self.git_ref),
            image: text::opt(self.image),
        }
    }
}

impl Default for StepReference {
    fn default() -> (r: StepReference)
        ensures
            r@ == (ReferenceV {
                name: Seq::empty(),
                kind: KindV::Unknown(Seq::empty()),
                repository_type: None,
                path: None,
                git_ref: None,
                image: None,
            }),
    {
        let name = String::new();
        assert(name@ =~= Seq::empty());
        StepReference {
            name,
            kind: StepReferenceKind::default(),
            repository_type: None,
            path: None,
            git_ref: None,
            image: None,
        }
    }
}

/// What a [`Step`] is. The environment keeps its order.
pub struct StepV {
    pub id: Seq<char>,
    pub display_name: Seq<char>,
    pub reference: ReferenceV,
    pub inputs: Seq<(Seq<char>, Seq<char>)>,
    pub condition: Option<Seq<char>>,
    pub timeout_in_minutes: Option<u64>,
    pub continue_on_error: bool,
    pub order: u32,
    pub environment: Option<Seq<(Seq<char>, Seq<char>)>>,
    pub context_name: Option<Seq<char>>,
}

pub open spec fn opt_pairs(m: Option<StrMap<String>>) -> Option<Seq<(Seq<char>, Seq<char>)>> {
    match m {
        Some(x) => Some(x.pairs()),
        None => None,
    }
}

impl View for Step {
    type V = StepV;

    open spec fn view(&self) -> StepV {
        StepV {
            id: self.id@,
            display_name: self.display_name@,
            reference: self.reference@,
            inputs: self.inputs.pairs(),
            condition: text::opt(self.condition),
            timeout_in_minutes: self.timeout_in_minutes,
            continue_on_error: self.continue_on_error,
            order: self.order,
            environment: opt_pairs(self.environment),
            context_name: text::opt(self.context_name),
        }
    }
}

/// The models of a row of steps.
pub open spec fn steps_model(v: Seq<Step>) -> Seq<StepV> {
    Seq::new(v.len(), |i: int| v[i]@)
}

pub fn copy_opt(s: &Option<String>) -> (r: Option<String>)
    ensures
        text::opt(r) == text::opt(*s),
{
    match s {
        Some(x) => Some(x.clone()),
        None => None,
    }
}

/// The kind of reference that a word names.
pub open spec fn kind_of(word: Seq<char>) -> KindV {
    if word == "script"@ {
        KindV::Script
    } else if word == "repository"@ {
        KindV::Repository
    } else if word == "containerregistry"@ {
        KindV::ContainerRegistry
    } else {
        KindV::Unknown(word)
    }
}

impl StepReferenceKind {
    /// Reads the kind of a reference, as a manifest names it.
    pub fn parse(word: &str) -> (r: StepReferenceKind)
        ensures
            r@ == kind_of(word@),
    {
        if text::same(word, "script") {
            StepReferenceKind::Script
        } else if text::same(word, "repository") {
            StepReferenceKind::Repository
        } else if text::same(word, "containerregistry") {
            StepReferenceKind::ContainerRegistry
        } else {
            StepReferenceKind::Unknown(word.to_owned())
        }
    }

    pub fn copy(&self) -> (r: StepReferenceKind)
        ensures
            r@ == self@,
    {
        match self {
            StepReferenceKind::Script => StepReferenceKind::Script,
            StepReferenceKind::Repository => StepReferenceKind::Repository,
            StepReferenceKind::ContainerRegistry => StepReferenceKind::ContainerRegistry,
            StepReferenceKind::Unknown(s) => StepReferenceKind::Unknown(s.clone()),
        }
    }
}

impl StepReference {
    pub fn copy(&self) -> (r: StepReference)
        ensures
            r@ == self@,
    {
        StepReference {
            name: self.name.clone(),
            kind: self.kind.copy(),
            repository_type: copy_opt(&self.repository_type),
            path: copy_opt(&self.path),
            git_ref: copy_opt(&self.git_ref),
            image: copy_opt(&self.image),
        }
    }
}

/// The key under which a step's outputs and state are kept.
pub open spec fn step_key(s: StepV) -> Seq<char> {
    match s.context_name {
        Some(c) => c,
        None => s.id,
    }
}

impl Step {
    /// Whether this step is a `run:` script (vs an action reference).
    pub fn is_script(&self) -> (r: bool)
        ensures
            r == (self@.reference.kind is Script),
    {
        match &self.reference.kind {
            StepReferenceKind::Script => true,
            _ => false,
        }
    }

    /// The key under which the step's outputs and state are kept.
    pub fn key(&self) -> (r: &String)
        ensures
            r@ == step_key(self@),
    {
        match &self.context_name {
            Some(c) => c,
            None => &self.id,
        }
    }

    /// The same step once more.
    pub fn copy(&self) -> (r: Step)
        ensures
            r@ == self@,
    {
        Step {
            id: self.id.clone(),
            display_name: self.display_name.clone(),
            reference: self.reference.copy(),
            inputs: self.inputs.copy(),
            condition: copy_opt(&self.condition),
            timeout_in_minutes: self.timeout_in_minutes,
            continue_on_error: self.continue_on_error,
            order: self.order,
            environment: match &self.environment {
                Some(e) => Some(e.copy()),
                None => None,
            },
            context_name: copy_opt(&self.context_name),
        }
    }
}

/// Why a manifest lacks what the runner needs.
#[derive(Clone, Debug, PartialEq, Eq)]
pub enum ManifestError {
    NoEndpoint,
    NoAuthorization,
    /// The runner is to authenticate in a way that it does not know.
    WrongScheme(String),
    NoAccessToken,
    NoPipelinesUrl,
    NoRepository,
}

pub enum ManifestErrorV {
    NoEndpoint,
    NoAuthorization,
    WrongScheme(Seq<char>),
    NoAccessToken,
    NoPipelinesUrl,
    NoRepository,
}

impl View for ManifestError {
    type V = ManifestErrorV;

    open spec fn view(&self) -> ManifestErrorV {
        match *self {
            ManifestError::NoEndpoint => ManifestErrorV::NoEndpoint,
            ManifestError::NoAuthorization => ManifestErrorV::NoAuthorization,
            ManifestError::WrongScheme(s) => ManifestErrorV::WrongScheme(s@),
            ManifestError::NoAccessToken => ManifestErrorV::NoAccessToken,
            ManifestError::NoPipelinesUrl => ManifestErrorV::NoPipelinesUrl,
            ManifestError::NoRepository => ManifestErrorV::NoRepository,
        }
    }
}

impl ManifestError {
    /// What is wrong, in words.
    pub fn message(&self) -> (r: String)
        ensures
            r@ == match self@ {
                ManifestErrorV::NoEndpoint => "no SystemVssConnection endpoint in manifest"@,
                ManifestErrorV::NoAuthorization => "SystemVssConnection has no authorization"@,
                ManifestErrorV::WrongScheme(s) => "unexpected auth scheme '"@ + s
                    + "', expected OAuth"@,
                ManifestErrorV::NoAccessToken =>
                    "no AccessToken in SystemVssConnection authorization"@,
                ManifestErrorV::NoPipelinesUrl =>
                    "no PipelinesServiceUrl in SystemVssConnection data"@,
                ManifestErrorV::NoRepository => "no github.repository in context_data"@,
            },
    {
        match self {
            ManifestError::NoEndpoint => "no SystemVssConnection endpoint in manifest".to_owned(),
            ManifestError::NoAuthorization => "SystemVssConnection has no authorization".to_owned(),
            ManifestError::WrongScheme(s) => text::cat3(
                "unexpected auth scheme '",
                s.as_str(),
                "', expected OAuth",
            ),
            ManifestError::NoAccessToken =>
                "no AccessToken in SystemVssConnection authorization".to_owned(),
            ManifestError::NoPipelinesUrl =>
                "no PipelinesServiceUrl in SystemVssConnection data".to_owned(),
            ManifestError::NoRepository => "no github.repository in context_data".to_owned(),
        }
    }
}

/// The first endpoint through which the runner talks to the service.
pub open spec fn vss_endpoint(v: Seq<ServiceEndpoint>) -> Option<ServiceEndpoint>
    decreases v.len(),
{
    if v.len() == 0 {
        None
    } else if v[0].name@ == "SystemVssConnection"@ {
        Some(v[0])
    } else {
        vss_endpoint(v.skip(1))
    }
}

/// The job's own access token.
pub open spec fn token_of(e: Option<ServiceEndpoint>) -> Result<Seq<char>, ManifestErrorV> {
    match e {
        None => Err(ManifestErrorV::NoEndpoint),
        Some(e) => match e.authorization {
            None => Err(ManifestErrorV::NoAuthorization),
            Some(a) => if a.scheme@ != "OAuth"@ {
                Err(ManifestErrorV::WrongScheme(a.scheme@))
            } else if a.parameters@.dom().contains("AccessToken"@) {
                Ok(a.parameters@["AccessToken"@])
            } else {
                Err(ManifestErrorV::NoAccessToken)
            },
        },
    }
}

/// Where the pipelines service is.
pub open spec fn pipelines_of(e: Option<ServiceEndpoint>) -> Result<Seq<char>, ManifestErrorV> {
    match e {
        None => Err(ManifestErrorV::NoEndpoint),
        Some(e) => if e.data@.dom().contains("PipelinesServiceUrl"@) {
            Ok(e.data@["PipelinesServiceUrl"@])
        } else {
            Err(ManifestErrorV::NoPipelinesUrl)
        },
    }
}

/// Where the lines of a job are shown while it runs.
pub open spec fn feed_of(e: Option<ServiceEndpoint>) -> Option<Seq<char>> {
    match e {
        None => None,
        Some(e) => if e.data@.dom().contains("FeedStreamUrl"@) {
            Some(e.data@["FeedStreamUrl"@])
        } else {
            None
        },
    }
}

/// The repository that the job is about.
pub open spec fn repository_of(ctx: JsonV) -> Option<Seq<char>> {
    match json::member(ctx, "github"@) {
        Some(g) => match json::member(g, "repository"@) {
            Some(JsonV::Str(s)) => Some(s),
            _ => None,
        },
        None => None,
    }
}

pub open spec fn result_model(r: Result<&str, ManifestError>) -> Result<Seq<char>, ManifestErrorV> {
    match r {
        Ok(s) => Ok(s@),
        Err(e) => Err(e@),
    }
}

/// The value of a variable.
pub open spec fn variable_value(m: Map<Seq<char>, JobVariableV>, name: Seq<char>) -> Option<
    Seq<char>,
> {
    if m.dom().contains(name) {
        Some(m[name].value)
    } else {
        None
    }
}

impl JobManifest {
    fn find_vss_endpoint(&self) -> (r: Option<&ServiceEndpoint>)
        ensures
            match r {
                Some(e) => vss_endpoint(self.resources.endpoints@) == Some(*e),
                None => vss_endpoint(self.resources.endpoints@) is None,
            },
    {
        let v = &self.resources.endpoints;
        let mut i: usize = 0;
        assert(v@.skip(0) =~= v@);
        while i < v.len()
            invariant
                i <= v@.len(),
                v@ == self.resources.endpoints@,
                vss_endpoint(v@) == vss_endpoint(v@.skip(i as int)),
            decreases v@.len() - i,
        {
            if text::same(v[i].name.as_str(), "SystemVssConnection") {
                return Some(&v[i]);
            }
            assert(v@.skip(i as int).skip(1) =~= v@.skip(i + 1));
            i = i + 1;
        }
        None
    }

    pub fn server_url(&self) -> (r: Result<&str, ManifestError>)
        ensures
            result_model(r) == match vss_endpoint(self.resources.endpoints@) {
                Some(e) => Ok::<Seq<char>, ManifestErrorV>(e.url@),
                None => Err::<Seq<char>, ManifestErrorV>(ManifestErrorV::NoEndpoint),
            },
    {
        match self.find_vss_endpoint() {
            Some(e) => Ok(e.url.as_str()),
            None => Err(ManifestError::NoEndpoint),
        }
    }

    pub fn access_token(&self) -> (r: Result<&str, ManifestError>)
        ensures
            result_model(r) == token_of(vss_endpoint(self.resources.endpoints@)),
    {
        let endpoint = match self.find_vss_endpoint() {
            Some(e) => e,
            None => {
                return Err(ManifestError::NoEndpoint);
            },
        };
        match &endpoint.authorization {
            None => Err(ManifestError::NoAuthorization),
            Some(a) => {
                if !text::same(a.scheme.as_str(), "OAuth") {
                    return Err(ManifestError::WrongScheme(a.scheme.clone()));
                }
                match a.parameters.get("AccessToken") {
                    Some(s) => Ok(s.as_str()),
                    None => Err(ManifestError::NoAccessToken),
                }
            },
        }
    }

    pub fn pipelines_url(&self) -> (r: Result<&str, ManifestError>)
        ensures
            result_model(r) == pipelines_of(vss_endpoint(self.resources.endpoints@)),
    {
        match self.find_vss_endpoint() {
            Some(e) => match e.data.get("PipelinesServiceUrl") {
                Some(s) => Ok(s.as_str()),
                None => Err(ManifestError::NoPipelinesUrl),
            },
            None => Err(ManifestError::NoEndpoint),
        }
    }

    pub fn repository(&self) -> (r: Result<String, ManifestError>)
        ensures
            match r {
                Ok(s) => repository_of(self.context_data@) == Some(s@),
                Err(e) => e@ == ManifestErrorV::NoRepository && repository_of(self.context_data@)
                    is None,
            },
    {
        if let Some(g) = self.context_data.get("github") {
            if let Some(x) = g.get("repository") {
                if let Some(s) = x.as_str() {
                    return Ok(s.clone());
                }
            }
        }
        Err(ManifestError::NoRepository)
    }

    pub fn has_container(&self) -> (r: bool)
        ensures
            r == (self.job_container is Some),
    {
        self.job_container.is_some()
    }

    pub fn has_services(&self) -> (r: bool)
        ensures
            r == (self.service_containers matches Some(v) && v@.len() > 0),
    {
        match &self.service_containers {
            Some(v) => v.len() > 0,
            None => false,
        }
    }

    /// Where step results are reported.
    pub fn results_endpoint(&self) -> (r: Option<&str>)
        ensures
            text::opt_str(r) == variable_value(
                self.variables@,
                "system.github.results_endpoint"@,
            ),
    {
        match self.variables.get("system.github.results_endpoint") {
            Some(v) => Some(v.value.as_str()),
            None => None,
        }
    }

    /// The token with which a job reaches its repository.
    pub fn github_token(&self) -> (r: Option<&str>)
        ensures
            text::opt_str(r) == variable_value(self.variables@, "system.github.token"@),
    {
        match self.variables.get("system.github.token") {
            Some(v) => Some(v.value.as_str()),
            None => None,
        }
    }

    /// Where the lines of the job are shown while it runs.
    pub fn feed_stream_url(&self) -> (r: Option<&str>)
        ensures
            text::opt_str(r) == feed_of(vss_endpoint(self.resources.endpoints@)),
    {
        match self.find_vss_endpoint() {
            Some(e) => match e.data.get("FeedStreamUrl") {
                Some(s) => Some(s.as_str()),
                None => None,
            },
            None => None,
        }
    }

    pub fn mask_regexes(&self) -> (r: &[Json])
        ensures
            r@ == self.mask@,
    {
        self.mask.as_slice()
    }

    pub fn file_table(&self) -> (r: &[String])
        ensures
            r@ == self.file_table@,
    {
        self.file_table.as_slice()
    }
}

} // verus!
