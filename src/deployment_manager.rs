//! The rolling orchestrator: one run of a deployment (or of a rollback, which
//! is a deployment of an older tag) as a state machine. Each step takes what
//! the last action came to and returns the next action; the caller performs
//! the actions (process, socket and file work) and reports back.
//!
//! The order of a run: in single-host mode the project's containers are
//! listed first, so that a run with nothing to roll touches nothing; then the
//! version directory is checked for and cloned where missing; the `current`
//! pointer is made under a temporary name and renamed over the live one; the
//! compose document's mount is pointed at it; each service is recreated in
//! turn (or the cluster service updated once); and retention removes the
//! oldest version directories, whose failures are logged, not fatal.
use vstd::prelude::*;
use crate::compose::{patch_outcome, patch_volume_source, VolumeMatch, YamlNode};
use crate::config::Config;
use crate::docker_client::{list_endpoint, request_text, DockerClient, EngineError};
use crate::git_client::{
    pointer_path, pointer_temp_path, removals, version_dir, GitClient, VersionDir,
};
use crate::naming::{service_name_from_name, service_of};
use crate::types::find_label;
use crate::targets::{rollout_services, rollout_targets};
use crate::types::Container;

verus! {

/// How many version directories retention keeps.
pub const KEEP_VERSIONS: usize = 3;

/// Where a run stands.
#[derive(PartialEq, Eq, Structural, Clone, Copy)]
pub enum Phase {
    ListingContainers,
    CheckingVersion,
    Cloning,
    CreatingPointer,
    ReplacingPointer,
    ReadingCompose,
    WritingCompose,
    Recreating,
    UpdatingService,
    ListingVersions,
    Removing,
    Done,
    Failed,
}

/// Why a run failed.
pub enum DeployError {
    /// Listing the containers failed.
    Engine(EngineError),
    /// Cluster mode was asked for without a service name.
    MissingServiceName,
    /// No running container belongs to the project.
    NoTargets,
    /// The version could not be checked out; the clone's diagnostics.
    Clone(String),
    /// The `current` pointer could not be replaced.
    Pointer(String),
    /// The compose document could not be read, parsed or written.
    Compose(String),
    /// Recreating a service failed: the service, how many services were rolled
    /// before it, and the diagnostics.
    Rollout(String, usize, String),
    /// Updating the cluster service failed: the service and the diagnostics.
    ServiceUpdate(String, String),
    /// An event that the run was not waiting for.
    Unexpected,
}

/// What the caller is to do next.
pub enum Action {
    /// Send this request to the runtime and report the containers it lists.
    ListContainers(String),
    /// Report whether this directory exists.
    CheckVersion(String),
    /// Create the parent directories, then clone `url` at `tag` into `dest`.
    Clone { url: String, tag: String, dest: String },
    /// Make a pointer named `temp` that refers to `target`.
    CreatePointer { temp: String, target: String },
    /// Rename the pointer `temp` over `pointer`.
    ReplacePointer { temp: String, pointer: String },
    /// Read and parse the compose document at this path.
    ReadCompose(String),
    /// Write the document back to the path.
    WriteCompose(String, YamlNode),
    /// Recreate one service of the compose file, from the file's directory.
    Recreate { compose_file: String, service: String },
    /// Update a cluster service: drop the mount at `mount_rm`, add `mount_add`.
    UpdateService { service: String, mount_rm: String, mount_add: String },
    /// Report the directories under this base path.
    ListVersions(String),
    /// Remove this directory and what it holds.
    RemoveDir(String),
    /// The run succeeded.
    Finish,
    /// The run failed.
    Abort(DeployError),
}

/// What the last action came to.
pub enum Event {
    ContainersListed(Vec<Container>),
    EngineFailed(EngineError),
    VersionChecked(bool),
    ComposeRead(YamlNode),
    VersionsListed(Vec<VersionDir>),
    /// The action succeeded.
    Succeeded,
    /// The action failed, with these diagnostics.
    Failed(String),
}

/// Actions that change something outside the run.
pub open spec fn is_effect(a: Action) -> bool {
    a is Clone || a is CreatePointer || a is ReplacePointer || a is WriteCompose || a is Recreate
        || a is UpdateService || a is RemoveDir
}

/// The mount that a cluster service gets for a version.
pub open spec fn mount_spec(version: Seq<char>, target: Seq<char>) -> Seq<char> {
    "type=bind,src="@ + version + ",dst="@ + target
}

/// One run.
pub struct Deployment {
    phase: Phase,
    project: String,
    repo_url: String,
    base: String,
    compose_file: String,
    mount_path: String,
    tag: String,
    service: Option<String>,
    version_path: String,
    targets: Vec<String>,
    next: usize,
    removals: Vec<String>,
    cleanup_failures: Vec<String>,
    effects: Ghost<nat>,
    version_ready: Ghost<bool>,
}

impl Deployment {
    pub closed spec fn phase(&self) -> Phase {
        self.phase
    }

    /// The project whose containers a single-host rollout recreates.
    pub closed spec fn project(&self) -> Seq<char> {
        self.project@
    }

    pub closed spec fn repo_url(&self) -> Seq<char> {
        self.repo_url@
    }

    pub closed spec fn base(&self) -> Seq<char> {
        self.base@
    }

    pub closed spec fn compose_file(&self) -> Seq<char> {
        self.compose_file@
    }

    pub closed spec fn mount_path(&self) -> Seq<char> {
        self.mount_path@
    }

    pub closed spec fn tag(&self) -> Seq<char> {
        self.tag@
    }

    /// The cluster service, in cluster mode.
    pub closed spec fn service(&self) -> Option<Seq<char>> {
        match self.service {
            Some(s) => Some(s@),
            None => None,
        }
    }

    pub closed spec fn version_path(&self) -> Seq<char> {
        self.version_path@
    }

    /// The services a single-host rollout recreates, in order.
    pub closed spec fn targets(&self) -> Seq<Seq<char>> {
        self.targets@.map_values(|s: String| s@)
    }

    /// How many services were rolled, or directories removed, so far.
    pub closed spec fn next(&self) -> int {
        self.next as int
    }

    pub closed spec fn removals(&self) -> Seq<Seq<char>> {
        self.removals@.map_values(|s: String| s@)
    }

    /// Retention failures, which are reported and do not fail the run.
    pub closed spec fn cleanup_failures(&self) -> Seq<Seq<char>> {
        self.cleanup_failures@.map_values(|s: String| s@)
    }

    /// How many actions that change something have been handed out.
    pub closed spec fn effects(&self) -> nat {
        self.effects@
    }

    /// The version directory is known to exist: it was found, or cloned.
    pub closed spec fn version_ready(&self) -> bool {
        self.version_ready@
    }

    /// The settings a run keeps from start to end.
    pub open spec fn same_settings(&self, o: &Deployment) -> bool {
        &&& self.project() == o.project()
        &&& self.repo_url() == o.repo_url()
        &&& self.base() == o.base()
        &&& self.compose_file() == o.compose_file()
        &&& self.mount_path() == o.mount_path()
        &&& self.tag() == o.tag()
        &&& self.service() == o.service()
        &&& self.version_path() == o.version_path()
    }

    pub open spec fn wf(&self) -> bool {
        &&& self.version_path() == version_dir(self.base(), self.tag())
        &&& self.phase() == Phase::ListingContainers ==> self.effects() == 0
        &&& self.phase() == Phase::CheckingVersion ==> self.effects() == 0
        &&& (self.phase() == Phase::ListingContainers || self.phase() == Phase::CheckingVersion
            || self.phase() == Phase::Cloning) ==> !self.version_ready()
        &&& self.service() is None && self.phase() != Phase::ListingContainers && self.phase() != Phase::Failed
            ==> self.targets().len() > 0
        &&& self.service() matches Some(s) ==> s.len() > 0
        &&& self.phase() == Phase::Recreating ==> self.service() is None && 0 <= self.next() < self.targets().len()
        &&& self.phase() == Phase::Removing ==> 0 <= self.next() < self.removals().len()
        &&& self.phase() == Phase::UpdatingService ==> self.service() is Some
        &&& (self.phase() == Phase::CreatingPointer || self.phase() == Phase::ReplacingPointer
            || self.phase() == Phase::ReadingCompose || self.phase() == Phase::WritingCompose
            || self.phase() == Phase::Recreating || self.phase() == Phase::UpdatingService
            || self.phase() == Phase::ListingVersions || self.phase() == Phase::Removing
            || self.phase() == Phase::Done) ==> self.version_ready()
    }
}

/// The run fails; nothing outside it is touched.
pub open spec fn fails(s0: Deployment, s1: Deployment) -> bool {
    &&& s1.phase() == Phase::Failed
    &&& s1.effects() == s0.effects()
}

/// The next action is `a`, which changes something outside the run.
pub open spec fn effect(s0: Deployment, s1: Deployment, a: Action) -> bool {
    s1.effects() == s0.effects() + 1 && is_effect(a)
}

/// The rollout starts: the cluster service is updated, or the first target
/// is recreated.
pub open spec fn starts_rollout(s0: Deployment, s1: Deployment, a: Action) -> bool {
    &&& effect(s0, s1, a)
    &&& s1.targets() == s0.targets()
    &&& match s0.service() {
        Some(svc) => s1.phase() == Phase::UpdatingService && (a matches Action::UpdateService {
            service,
            mount_rm,
            mount_add,
        } && service@ == svc && mount_rm@ == s0.mount_path() && mount_add@ == mount_spec(
            s0.version_path(),
            s0.mount_path(),
        )),
        None => s1.phase() == Phase::Recreating && s1.next() == 0 && recreates(s0, a, 0),
    }
}

/// `a` recreates target `k`.
pub open spec fn recreates(s: Deployment, a: Action, k: int) -> bool {
    a matches Action::Recreate { compose_file, service } && compose_file@ == s.compose_file()
        && service@ == s.targets()[k]
}

/// Retention starts: the base path is listed.
pub open spec fn starts_cleanup(s0: Deployment, s1: Deployment, a: Action) -> bool {
    &&& s1.phase() == Phase::ListingVersions
    &&& s1.effects() == s0.effects()
    &&& a matches Action::ListVersions(b) && b@ == s0.base()
}

/// Removal `k` of `list` comes next, or the run ends where none is left.
pub open spec fn removes_from(s0: Deployment, s1: Deployment, a: Action, list: Seq<Seq<char>>, k: int) -> bool {
    &&& s1.removals() == list
    &&& if k < list.len() {
        s1.phase() == Phase::Removing && s1.next() == k && effect(s0, s1, a) && (a matches Action::RemoveDir(
            p,
        ) && p@ == list[k])
    } else {
        s1.phase() == Phase::Done && s1.effects() == s0.effects() && a is Finish
    }
}

/// The action makes a pointer, under the temporary name, to the version.
pub open spec fn creates_pointer(s0: Deployment, a: Action) -> bool {
    a matches Action::CreatePointer { temp, target } && temp@ == pointer_temp_path(s0.base())
        && target@ == s0.version_path()
}

/// One step of a run: from `s0`, the event `e` leads to `s1` and the action `a`.
pub open spec fn step_spec(s0: Deployment, e: Event, s1: Deployment, a: Action) -> bool {
    match (s0.phase(), e) {
        (Phase::ListingContainers, Event::ContainersListed(cs)) => {
            let t = rollout_services(cs@, s0.project());
            if t.len() == 0 {
                fails(s0, s1) && (a matches Action::Abort(err) && err is NoTargets)
            } else {
                s1.phase() == Phase::CheckingVersion && s1.targets() == t && s1.effects() == s0.effects()
                    && (a matches Action::CheckVersion(p) && p@ == s0.version_path())
            }
        },
        (Phase::ListingContainers, Event::EngineFailed(x)) => fails(s0, s1) && (a matches Action::Abort(err) && err == DeployError::Engine(x)),
        (Phase::CheckingVersion, Event::VersionChecked(true)) => s1.phase() == Phase::CreatingPointer
            && s1.version_ready() && effect(s0, s1, a) && creates_pointer(s0, a),
        (Phase::CheckingVersion, Event::VersionChecked(false)) => s1.phase() == Phase::Cloning
            && effect(s0, s1, a) && (a matches Action::Clone { url, tag, dest } && url@ == s0.repo_url()
            && tag@ == s0.tag() && dest@ == s0.version_path()),
        (Phase::Cloning, Event::Succeeded) => s1.phase() == Phase::CreatingPointer && s1.version_ready()
            && effect(s0, s1, a) && creates_pointer(s0, a),
        (Phase::Cloning, Event::Failed(msg)) => fails(s0, s1) && (a matches Action::Abort(err) && (err matches DeployError::Clone(m) && m@ == msg@)),
        (Phase::CreatingPointer, Event::Succeeded) => s1.phase() == Phase::ReplacingPointer && effect(
            s0,
            s1,
            a,
        ) && (a matches Action::ReplacePointer { temp, pointer } && temp@ == pointer_temp_path(s0.base())
            && pointer@ == pointer_path(s0.base())),
        (Phase::CreatingPointer, Event::Failed(msg)) | (Phase::ReplacingPointer, Event::Failed(msg)) => fails(s0, s1) && (a matches Action::Abort(err) && (err matches DeployError::Pointer(m) && m@ == msg@)),
        (Phase::ReplacingPointer, Event::Succeeded) => s1.phase() == Phase::ReadingCompose
            && s1.effects() == s0.effects() && (a matches Action::ReadCompose(p) && p@ == s0.compose_file()),
        (Phase::ReadingCompose, Event::ComposeRead(doc)) => {
            let m = (true, s0.mount_path());
            let src = pointer_path(s0.base());
            if a is WriteCompose {
                s1.phase() == Phase::WritingCompose && effect(s0, s1, a) && (a matches Action::WriteCompose(
                    p,
                    d2,
                ) && p@ == s0.compose_file() && patch_outcome(doc, d2, m, src, true))
            } else {
                patch_outcome(doc, doc, m, src, false) && starts_rollout(s0, s1, a)
            }
        },
        (Phase::ReadingCompose, Event::Failed(msg)) | (Phase::WritingCompose, Event::Failed(msg)) => fails(s0, s1) && (a matches Action::Abort(err) && (err matches DeployError::Compose(m) && m@ == msg@)),
        (Phase::WritingCompose, Event::Succeeded) => starts_rollout(s0, s1, a),
        (Phase::Recreating, Event::Succeeded) => s1.targets() == s0.targets() && if s0.next() + 1
            < s0.targets().len() {
            s1.phase() == Phase::Recreating && s1.next() == s0.next() + 1 && effect(s0, s1, a)
                && recreates(s0, a, s0.next() + 1)
        } else {
            starts_cleanup(s0, s1, a)
        },
        (Phase::Recreating, Event::Failed(msg)) => fails(s0, s1) && (a matches Action::Abort(err) && err matches DeployError::Rollout(svc, rolled, m) && svc@ == s0.targets()[s0.next()]
                    && rolled == s0.next() && m@ == msg@),
        (Phase::UpdatingService, Event::Succeeded) => starts_cleanup(s0, s1, a),
        (Phase::UpdatingService, Event::Failed(msg)) => fails(s0, s1) && (a matches Action::Abort(err) && err matches DeployError::ServiceUpdate(svc, m) && Some(svc@) == s0.service() && m@ == msg@),
        (Phase::ListingVersions, Event::VersionsListed(entries)) => s1.cleanup_failures()
            == s0.cleanup_failures() && removes_from(
            s0,
            s1,
            a,
            removals(entries@, KEEP_VERSIONS as int),
            0,
        ),
        (Phase::ListingVersions, Event::Failed(msg)) => s1.phase() == Phase::Done && s1.effects()
            == s0.effects() && s1.cleanup_failures() == s0.cleanup_failures().push(msg@) && a is Finish,
        (Phase::Removing, Event::Succeeded) => s1.cleanup_failures() == s0.cleanup_failures()
            && removes_from(s0, s1, a, s0.removals(), s0.next() + 1),
        (Phase::Removing, Event::Failed(msg)) => s1.cleanup_failures() == s0.cleanup_failures().push(msg@)
            && removes_from(s0, s1, a, s0.removals(), s0.next() + 1),
        _ => fails(s0, s1) && (a matches Action::Abort(err) && err is Unexpected),
    }
}

impl Deployment {
    fn fail(&mut self, err: DeployError) -> (a: Action)
        ensures
            final(self).phase() == Phase::Failed,
            final(self).effects() == old(self).effects(),
            final(self).same_settings(old(self)),
            final(self).version_ready() == old(self).version_ready(),
            final(self).targets() == old(self).targets(),
            final(self).removals() == old(self).removals(),
            final(self).next() == old(self).next(),
            a == Action::Abort(err),
    {
        self.phase = Phase::Failed;
        Action::Abort(err)
    }

    fn start_rollout(&mut self) -> (a: Action)
        requires
            old(self).wf(),
            old(self).version_ready(),
            old(self).phase() == Phase::ReadingCompose || old(self).phase() == Phase::WritingCompose,
        ensures
            final(self).wf(),
            final(self).same_settings(old(self)),
            final(self).version_ready(),
            starts_rollout(*old(self), *final(self), a),
    {
        self.effects = Ghost(self.effects@ + 1);
        match &self.service {
            Some(svc) => {
                let mut add = String::from_str("type=bind,src=");
                add.append(self.version_path.as_str());
                add.append(",dst=");
                add.append(self.mount_path.as_str());
                self.phase = Phase::UpdatingService;
                Action::UpdateService {
                    service: svc.clone(),
                    mount_rm: self.mount_path.clone(),
                    mount_add: add,
                }
            },
            None => {
                self.phase = Phase::Recreating;
                self.next = 0;
                Action::Recreate {
                    compose_file: self.compose_file.clone(),
                    service: self.targets[0].clone(),
                }
            },
        }
    }

    fn start_cleanup(&mut self) -> (a: Action)
        requires
            old(self).wf(),
            old(self).phase() == Phase::Recreating || old(self).phase() == Phase::UpdatingService,
        ensures
            final(self).wf(),
            final(self).same_settings(old(self)),
            final(self).targets() == old(self).targets(),
            final(self).cleanup_failures() == old(self).cleanup_failures(),
            starts_cleanup(*old(self), *final(self), a),
    {
        self.phase = Phase::ListingVersions;
        Action::ListVersions(self.base.clone())
    }

    /// Hands out removal `k`, or ends the run where none is left.
    fn remove_from(&mut self, k: usize) -> (a: Action)
        requires
            old(self).wf(),
            old(self).phase() == Phase::ListingVersions || old(self).phase() == Phase::Removing,
        ensures
            final(self).wf(),
            final(self).same_settings(old(self)),
            final(self).targets() == old(self).targets(),
            final(self).cleanup_failures() == old(self).cleanup_failures(),
            removes_from(*old(self), *final(self), a, old(self).removals(), k as int),
    {
        if k < self.removals.len() {
            self.effects = Ghost(self.effects@ + 1);
            self.phase = Phase::Removing;
            self.next = k;
            Action::RemoveDir(self.removals[k].clone())
        } else {
            self.phase = Phase::Done;
            Action::Finish
        }
    }

    /// Takes the outcome of the last action and hands out the next one.
    pub fn step(&mut self, event: Event) -> (a: Action)
        requires
            old(self).wf(),
        ensures
            final(self).wf(),
            final(self).same_settings(old(self)),
            step_spec(*old(self), event, *final(self), a),
    {
        let ghost s0 = *self;
        match (self.phase, event) {
            (Phase::ListingContainers, Event::ContainersListed(cs)) => {
                let t = rollout_targets(&cs, self.project.as_str());
                if t.len() == 0 {
                    return self.fail(DeployError::NoTargets);
                }
                self.targets = t;
                self.phase = Phase::CheckingVersion;
                Action::CheckVersion(self.version_path.clone())
            },
            (Phase::ListingContainers, Event::EngineFailed(x)) => self.fail(DeployError::Engine(x)),
            (Phase::CheckingVersion, Event::VersionChecked(exists)) => {
                self.effects = Ghost(self.effects@ + 1);
                if exists {
                    self.version_ready = Ghost(true);
                    self.phase = Phase::CreatingPointer;
                    Action::CreatePointer {
                        temp: GitClient::current_temp_path(self.base.as_str()),
                        target: self.version_path.clone(),
                    }
                } else {
                    self.phase = Phase::Cloning;
                    Action::Clone {
                        url: self.repo_url.clone(),
                        tag: self.tag.clone(),
                        dest: self.version_path.clone(),
                    }
                }
            },
            (Phase::Cloning, Event::Succeeded) => {
                self.effects = Ghost(self.effects@ + 1);
                self.version_ready = Ghost(true);
                self.phase = Phase::CreatingPointer;
                Action::CreatePointer {
                    temp: GitClient::current_temp_path(self.base.as_str()),
                    target: self.version_path.clone(),
                }
            },
            (Phase::Cloning, Event::Failed(msg)) => self.fail(DeployError::Clone(msg)),
            (Phase::CreatingPointer, Event::Succeeded) => {
                self.effects = Ghost(self.effects@ + 1);
                self.phase = Phase::ReplacingPointer;
                Action::ReplacePointer {
                    temp: GitClient::current_temp_path(self.base.as_str()),
                    pointer: GitClient::current_path(self.base.as_str()),
                }
            },
            (Phase::CreatingPointer, Event::Failed(msg)) => self.fail(DeployError::Pointer(msg)),
            (Phase::ReplacingPointer, Event::Failed(msg)) => self.fail(DeployError::Pointer(msg)),
            (Phase::ReplacingPointer, Event::Succeeded) => {
                self.phase = Phase::ReadingCompose;
                Action::ReadCompose(self.compose_file.clone())
            },
            (Phase::ReadingCompose, Event::ComposeRead(doc)) => {
                let ghost d0 = doc;
                let mut doc = doc;
                let m = VolumeMatch::Target(self.mount_path.clone());
                let src = GitClient::current_path(self.base.as_str());
                let changed = patch_volume_source(&mut doc, &m, src.as_str());
                if changed {
                    self.effects = Ghost(self.effects@ + 1);
                    self.phase = Phase::WritingCompose;
                    Action::WriteCompose(self.compose_file.clone(), doc)
                } else {
                    assert(doc == d0);
                    self.start_rollout()
                }
            },
            (Phase::ReadingCompose, Event::Failed(msg)) => self.fail(DeployError::Compose(msg)),
            (Phase::WritingCompose, Event::Failed(msg)) => self.fail(DeployError::Compose(msg)),
            (Phase::WritingCompose, Event::Succeeded) => self.start_rollout(),
            (Phase::Recreating, Event::Succeeded) => {
                let n = self.targets.len();
                if self.next + 1 < n {
                    self.effects = Ghost(self.effects@ + 1);
                    self.next = self.next + 1;
                    Action::Recreate {
                        compose_file: self.compose_file.clone(),
                        service: self.targets[self.next].clone(),
                    }
                } else {
                    self.start_cleanup()
                }
            },
            (Phase::Recreating, Event::Failed(msg)) => {
                let svc = self.targets[self.next].clone();
                let rolled = self.next;
                self.fail(DeployError::Rollout(svc, rolled, msg))
            },
            (Phase::UpdatingService, Event::Succeeded) => self.start_cleanup(),
            (Phase::UpdatingService, Event::Failed(msg)) => {
                let svc = match &self.service {
                    Some(s) => s.clone(),
                    None => String::new(),
                };
                self.fail(DeployError::ServiceUpdate(svc, msg))
            },
            (Phase::ListingVersions, Event::VersionsListed(entries)) => {
                self.removals = GitClient::select_removals(&entries, KEEP_VERSIONS);
                self.remove_from(0)
            },
            (Phase::ListingVersions, Event::Failed(msg)) => {
                let ghost f0 = self.cleanup_failures@;
                self.cleanup_failures.push(msg);
                assert(self.cleanup_failures@.map_values(|s: String| s@) =~= f0.map_values(
                    |s: String| s@,
                ).push(msg@));
                self.phase = Phase::Done;
                Action::Finish
            },
            (Phase::Removing, Event::Succeeded) => {
                let n = self.removals.len();
                let k = self.next + 1;
                self.remove_from(k)
            },
            (Phase::Removing, Event::Failed(msg)) => {
                let n = self.removals.len();
                let ghost f0 = self.cleanup_failures@;
                self.cleanup_failures.push(msg);
                assert(self.cleanup_failures@.map_values(|s: String| s@) =~= f0.map_values(
                    |s: String| s@,
                ).push(msg@));
                let k = self.next + 1;
                self.remove_from(k)
            },
            _ => self.fail(DeployError::Unexpected),
        }
    }
}

/// The collaborators and settings of deployments.
pub struct DeploymentManager {
    docker: DockerClient,
    git: GitClient,
    config: Config,
}

/// A fresh run of `config` for `tag`: in cluster mode (`service` is some) it
/// starts by checking for the version directory, else by listing containers.
pub open spec fn fresh_run(r: Deployment, config: Config, tag: Seq<char>, service: Option<Seq<char>>) -> bool {
    &&& r.wf()
    &&& r.project() == config.name@
    &&& r.repo_url() == config.repo_url@
    &&& r.base() == config.clone_path@
    &&& r.compose_file() == config.compose_file@
    &&& r.mount_path() == config.mount_path@
    &&& r.tag() == tag
    &&& r.service() == service
    &&& r.effects() == 0
    &&& r.cleanup_failures() == Seq::<Seq<char>>::empty()
}

impl DeploymentManager {
    pub fn new(config: Config) -> (r: Self)
        ensures
            r.config() == config,
            r.socket_path() == config.socket_path@,
    {
        Self { docker: DockerClient::new(config.socket_path.clone()), git: GitClient, config }
    }

    /// The service a container belongs to, as `service_of` says: its compose
    /// label, else what the naming conventions make of its first name.
    pub fn extract_service_name(container: &Container) -> (r: String)
        ensures
            r@ == service_of(*container),
    {
        if let Some(labels) = &container.labels {
            let key = "com.docker.compose.service";
            if let Some(v) = find_label(labels, key) {
                return v.clone();
            }
        }
        if container.names.len() > 0 {
            service_name_from_name(container.names[0].as_str())
        } else {
            String::new()
        }
    }

    pub closed spec fn config(&self) -> Config {
        self.config
    }

    /// Where the runtime listens.
    pub closed spec fn socket_path(&self) -> Seq<char> {
        self.docker.socket_path()
    }

    /// The runtime client.
    pub fn docker(&self) -> (r: &DockerClient)
        ensures
            r.socket_path() == self.socket_path(),
    {
        &self.docker
    }

    /// Starts a deployment of `tag`: the run, and its first action. In cluster
    /// mode (`swarm`) a non-empty service name is required; without one the
    /// run fails at once, before anything is touched.
    pub fn rolling_deploy(&self, tag: &str, swarm: bool, swarm_service: Option<String>) -> (r: (Deployment, Action))
        ensures
            swarm && !(swarm_service matches Some(s) && s@.len() > 0) ==> r.0.phase() == Phase::Failed
                && r.0.effects() == 0 && r.1 == Action::Abort(DeployError::MissingServiceName),
            swarm && (swarm_service matches Some(s) && s@.len() > 0) ==> fresh_run(
                r.0,
                self.config(),
                tag@,
                Some(swarm_service.unwrap()@),
            ) && r.0.phase() == Phase::CheckingVersion && (r.1 matches Action::CheckVersion(p)
                && p@ == r.0.version_path()),
            !swarm ==> fresh_run(r.0, self.config(), tag@, None) && r.0.phase()
                == Phase::ListingContainers && (r.1 matches Action::ListContainers(q) && q@ == request_text(
                "GET"@,
                list_endpoint(false),
            )),
    {
        let c = &self.config;
        let service = if swarm {
            match swarm_service {
                Some(s) => {
                    if s.unicode_len() == 0 {
                        None
                    } else {
                        Some(s)
                    }
                },
                None => None,
            }
        } else {
            None
        };
        let missing = swarm && service.is_none();
        let phase = if swarm {
            Phase::CheckingVersion
        } else {
            Phase::ListingContainers
        };
        let mut run = Deployment {
            phase,
            project: c.name.clone(),
            repo_url: c.repo_url.clone(),
            base: c.clone_path.clone(),
            compose_file: c.compose_file.clone(),
            mount_path: c.mount_path.clone(),
            tag: String::from_str(tag),
            service,
            version_path: GitClient::versioned_path(c.clone_path.as_str(), tag),
            targets: Vec::new(),
            next: 0,
            removals: Vec::new(),
            cleanup_failures: Vec::new(),
            effects: Ghost(0),
            version_ready: Ghost(false),
        };
        assert(run.cleanup_failures() =~= Seq::<Seq<char>>::empty());
        if missing {
            let a = run.fail(DeployError::MissingServiceName);
            return (run, a);
        }
        let a = if swarm {
            Action::CheckVersion(run.version_path.clone())
        } else {
            Action::ListContainers(self.docker.list_containers_request(false))
        };
        (run, a)
    }

    /// Starts a rollback to `tag`: a deployment of that tag, which reuses its
    /// version directory where one exists.
    pub fn rollback(&self, tag: &str, swarm: bool, swarm_service: Option<String>) -> (r: (Deployment, Action))
        ensures
            swarm && !(swarm_service matches Some(s) && s@.len() > 0) ==> r.0.phase() == Phase::Failed
                && r.0.effects() == 0 && r.1 == Action::Abort(DeployError::MissingServiceName),
            swarm && (swarm_service matches Some(s) && s@.len() > 0) ==> fresh_run(
                r.0,
                self.config(),
                tag@,
                Some(swarm_service.unwrap()@),
            ) && r.0.phase() == Phase::CheckingVersion && (r.1 matches Action::CheckVersion(p)
                && p@ == r.0.version_path()),
            !swarm ==> fresh_run(r.0, self.config(), tag@, None) && r.0.phase()
                == Phase::ListingContainers && (r.1 matches Action::ListContainers(q) && q@ == request_text(
                "GET"@,
                list_endpoint(false),
            )),
    {
        self.rolling_deploy(tag, swarm, swarm_service)
    }
}

/// A run that finds no container of its project fails with `NoTargets`
/// before it has handed out any action that changes something: no process,
/// no pointer, no file.
pub proof fn lemma_no_targets_no_effects(s0: Deployment, e: Event, s1: Deployment, a: Action)
    requires
        s0.wf(),
        step_spec(s0, e, s1, a),
        a == Action::Abort(DeployError::NoTargets),
    ensures
        s1.effects() == 0,
        s1.phase() == Phase::Failed,
{
}

/// A run whose version directory already exists clones nothing: it goes on
/// to the pointer with that directory.
pub proof fn lemma_existing_version_not_cloned(s0: Deployment, s1: Deployment, a: Action)
    requires
        s0.wf(),
        s0.phase() == Phase::CheckingVersion,
        step_spec(s0, Event::VersionChecked(true), s1, a),
    ensures
        !(a is Clone),
        creates_pointer(s0, a),
{
}

/// A clone is only handed out before any other action that changes
/// something, and only while the version is being checked for: a run clones
/// at most once, and not at all where the directory was found.
pub proof fn lemma_clone_only_first(s0: Deployment, e: Event, s1: Deployment, a: Action)
    requires
        s0.wf(),
        step_spec(s0, e, s1, a),
        a is Clone,
    ensures
        s0.phase() == Phase::CheckingVersion,
        s0.effects() == 0,
        e == Event::VersionChecked(false),
        s1.effects() == 1,
{
}

/// The pointer is only ever made to name a version directory that is known
/// to exist, and it is made under a temporary name that differs from the
/// live pointer's, so that until the rename the old pointer stays as it was.
pub proof fn lemma_pointer_names_ready_version(s0: Deployment, e: Event, s1: Deployment, a: Action)
    requires
        s0.wf(),
        s1.wf(),
        s1.same_settings(&s0),
        step_spec(s0, e, s1, a),
        a is CreatePointer || a is ReplacePointer,
    ensures
        s1.version_ready(),
        a matches Action::CreatePointer { temp, target } ==> target@ == s1.version_path() && temp@
            != pointer_path(s1.base()),
        a matches Action::ReplacePointer { temp, pointer } ==> pointer@ == pointer_path(s1.base())
            && temp@ == pointer_temp_path(s1.base()),
{
    let b = s0.base();
    if pointer_temp_path(b) == pointer_path(b) {
        assert(pointer_temp_path(b).len() == pointer_path(b).len());
        assert(false) by {
            reveal_strlit("/.current.tmp");
            reveal_strlit("/current");
        }
    }
}

} // verus!
