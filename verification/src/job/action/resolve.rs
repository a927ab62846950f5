//! Where the action of a step comes from.
use vstd::prelude::*;
use vstd::string::*;

use crate::job::schema;
use crate::job::schema::{KindV, ReferenceV, Step, StepReferenceKind};
use crate::text;

verus! {

/// Where an action comes from.
#[derive(Debug)]
pub enum ActionSource {
    Remote { owner: String, repo: String, git_ref: String, path: Option<String> },
    Local { path: String },
    Docker { image: String },
}

/// What an [`ActionSource`] is.
pub enum SourceV {
    Remote(Seq<char>, Seq<char>, Seq<char>, Option<Seq<char>>),
    Local(Seq<char>),
    Docker(Seq<char>),
}

impl View for ActionSource {
    type V = SourceV;

    open spec fn view(&self) -> SourceV {
        match *self {
            ActionSource::Remote { owner, repo, git_ref, path } => SourceV::Remote(
                owner@,
                repo@,
                git_ref@,
                text::opt(path),
            ),
            ActionSource::Local { path } => SourceV::Local(path@),
            ActionSource::Docker { image } => SourceV::Docker(image@),
        }
    }
}

/// Why it cannot be told which action a step uses, or what runs it.
#[derive(Debug)]
pub enum ActionError {
    NoLocalPath,
    NoGitRef,
    NoImage,
    /// The name of a repository, without the owner or without the repository.
    BadName(String),
    /// The same, of a name that also has a ref.
    BadReference(String),
    NoRef(String),
    UsesNotAString,
    InvalidUses(String),
    UnknownUses(String),
    UnsupportedRuntime(String),
    UnsupportedNestedRuntime(String),
}

pub enum ActionErrorV {
    NoLocalPath,
    NoGitRef,
    NoImage,
    BadName(Seq<char>),
    BadReference(Seq<char>),
    NoRef(Seq<char>),
    UsesNotAString,
    InvalidUses(Seq<char>),
    UnknownUses(Seq<char>),
    UnsupportedRuntime(Seq<char>),
    UnsupportedNestedRuntime(Seq<char>),
}

impl View for ActionError {
    type V = ActionErrorV;

    open spec fn view(&self) -> ActionErrorV {
        match *self {
            ActionError::NoLocalPath => ActionErrorV::NoLocalPath,
            ActionError::NoGitRef => ActionErrorV::NoGitRef,
            ActionError::NoImage => ActionErrorV::NoImage,
            ActionError::BadName(s) => ActionErrorV::BadName(s@),
            ActionError::BadReference(s) => ActionErrorV::BadReference(s@),
            ActionError::NoRef(s) => ActionErrorV::NoRef(s@),
            ActionError::UsesNotAString => ActionErrorV::UsesNotAString,
            ActionError::InvalidUses(s) => ActionErrorV::InvalidUses(s@),
            ActionError::UnknownUses(s) => ActionErrorV::UnknownUses(s@),
            ActionError::UnsupportedRuntime(s) => ActionErrorV::UnsupportedRuntime(s@),
            ActionError::UnsupportedNestedRuntime(s) => ActionErrorV::UnsupportedNestedRuntime(s@),
        }
    }
}

impl ActionErrorV {
    pub open spec fn text(self) -> Seq<char> {
        match self {
            ActionErrorV::NoLocalPath => "local action reference missing path"@,
            ActionErrorV::NoGitRef => "remote action reference missing ref"@,
            ActionErrorV::NoImage => "container action reference missing image"@,
            ActionErrorV::BadName(s) => "invalid action name '"@ + s + "', expected owner/repo"@,
            ActionErrorV::BadReference(s) => "invalid action name '"@ + s
                + "', expected owner/repo[@ref]"@,
            ActionErrorV::NoRef(s) => "action name '"@ + s + "' missing @ref"@,
            ActionErrorV::UsesNotAString => "composite step 'uses' is not a string"@,
            ActionErrorV::InvalidUses(s) => "invalid uses '"@ + s + "', expected owner/repo@ref"@,
            ActionErrorV::UnknownUses(s) => "cannot parse uses '"@ + s + "'"@,
            ActionErrorV::UnsupportedRuntime(s) => "unsupported action runtime: "@ + s,
            ActionErrorV::UnsupportedNestedRuntime(s) =>
                "unsupported action runtime in composite: "@ + s,
        }
    }
}

impl ActionError {
    /// What is wrong, in words.
    pub fn message(&self) -> (r: String)
        ensures
            r@ == self@.text(),
    {
        match self {
            ActionError::NoLocalPath => "local action reference missing path".to_owned(),
            ActionError::NoGitRef => "remote action reference missing ref".to_owned(),
            ActionError::NoImage => "container action reference missing image".to_owned(),
            ActionError::BadName(s) => text::cat3(
                "invalid action name '",
                s.as_str(),
                "', expected owner/repo",
            ),
            ActionError::BadReference(s) => text::cat3(
                "invalid action name '",
                s.as_str(),
                "', expected owner/repo[@ref]",
            ),
            ActionError::NoRef(s) => text::cat3("action name '", s.as_str(), "' missing @ref"),
            ActionError::UsesNotAString => "composite step 'uses' is not a string".to_owned(),
            ActionError::InvalidUses(s) => text::cat3(
                "invalid uses '",
                s.as_str(),
                "', expected owner/repo@ref",
            ),
            ActionError::UnknownUses(s) => text::cat3("cannot parse uses '", s.as_str(), "'"),
            ActionError::UnsupportedRuntime(s) => text::cat(
                "unsupported action runtime: ",
                s.as_str(),
            ),
            ActionError::UnsupportedNestedRuntime(s) => text::cat(
                "unsupported action runtime in composite: ",
                s.as_str(),
            ),
        }
    }
}

pub open spec fn source_model(r: Result<ActionSource, ActionError>) -> Result<SourceV, ActionErrorV> {
    match r {
        Ok(s) => Ok(s@),
        Err(e) => Err(e@),
    }
}

/// The owner and the repository in a name, and the path behind them.
pub open spec fn owner_repo(name: Seq<char>) -> Option<
    (Seq<char>, Seq<char>, Option<Seq<char>>),
> {
    match text::parted(name, "/"@) {
        Some((owner, rest)) => match text::parted(rest, "/"@) {
            Some((repo, path)) => Some((owner, repo, Some(path))),
            None => Some((owner, rest, None)),
        },
        None => None,
    }
}

/// The action that a name like `owner/repo@ref` or `owner/repo/path@ref` stands for.
pub open spec fn named_action(name: Seq<char>) -> Result<SourceV, ActionErrorV> {
    match text::parted(name, "@"@) {
        Some((head, git_ref)) => match owner_repo(head) {
            Some((owner, repo, path)) => Ok(SourceV::Remote(owner, repo, git_ref, path)),
            None => Err(ActionErrorV::BadReference(name)),
        },
        None => Err(ActionErrorV::NoRef(name)),
    }
}

/// Where the action of a reference comes from.
pub open spec fn source_of(r: ReferenceV) -> Result<SourceV, ActionErrorV> {
    match r.kind {
        KindV::Repository => if r.repository_type == Some("self"@) {
            match r.path {
                Some(p) => Ok(SourceV::Local(p)),
                None => Err(ActionErrorV::NoLocalPath),
            }
        } else {
            match r.git_ref {
                Some(g) => match owner_repo(r.name) {
                    Some((owner, repo, _)) => Ok(SourceV::Remote(owner, repo, g, r.path)),
                    None => Err(ActionErrorV::BadName(r.name)),
                },
                None => Err(ActionErrorV::NoGitRef),
            }
        },
        KindV::ContainerRegistry => match r.image {
            Some(i) => Ok(SourceV::Docker(i)),
            None => Err(ActionErrorV::NoImage),
        },
        _ => named_action(r.name),
    }
}

pub fn parse_owner_repo(name: &str) -> (r: Option<(String, String, Option<String>)>)
    ensures
        match r {
            Some(x) => owner_repo(name@) == Some((x.0@, x.1@, text::opt(x.2))),
            None => owner_repo(name@) is None,
        },
{
    match text::split_once(name, "/") {
        Some((owner, rest)) => match text::split_once(rest.as_str(), "/") {
            Some((repo, path)) => Some((owner, repo, Some(path))),
            None => Some((owner, rest, None)),
        },
        None => None,
    }
}

fn parse_action_name(name: &str) -> (r: Result<ActionSource, ActionError>)
    ensures
        source_model(r) == named_action(name@),
{
    match text::split_once(name, "@") {
        Some((head, git_ref)) => match parse_owner_repo(head.as_str()) {
            Some((owner, repo, path)) => Ok(ActionSource::Remote { owner, repo, git_ref, path }),
            None => Err(ActionError::BadReference(name.to_owned())),
        },
        None => Err(ActionError::NoRef(name.to_owned())),
    }
}

/// Where the action of a step comes from.
pub fn resolve_action(step: &Step) -> (r: Result<ActionSource, ActionError>)
    ensures
        source_model(r) == source_of(step@.reference),
{
    let reference = &step.reference;
    match &reference.kind {
        StepReferenceKind::Repository => {
            let own = match &reference.repository_type {
                Some(t) => text::same(t.as_str(), "self"),
                None => false,
            };
            if own {
                return match &reference.path {
                    Some(p) => Ok(ActionSource::Local { path: p.clone() }),
                    None => Err(ActionError::NoLocalPath),
                };
            }
            let git_ref = match &reference.git_ref {
                Some(g) => g,
                None => {
                    return Err(ActionError::NoGitRef);
                },
            };
            match parse_owner_repo(reference.name.as_str()) {
                Some((owner, repo, _)) => Ok(
                    ActionSource::Remote {
                        owner,
                        repo,
                        git_ref: git_ref.clone(),
                        path: schema::copy_opt(&reference.path),
                    },
                ),
                None => Err(ActionError::BadName(reference.name.clone())),
            }
        },
        StepReferenceKind::ContainerRegistry => match &reference.image {
            Some(i) => Ok(ActionSource::Docker { image: i.clone() }),
            None => Err(ActionError::NoImage),
        },
        _ => parse_action_name(reference.name.as_str()),
    }
}

} // verus!
