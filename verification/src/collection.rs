//! The collection of one controller, as a sequence of reads.
//!
//! A collection says which read it wants next; the caller performs the read
//! on the open device and hands back the bytes or the error; the collection
//! decides what that means and what comes next. Only a failed SMART read
//! fails the collection: a failed Identify Controller leaves the labels to
//! discovery, and a failed namespace, error log or self-test read leaves a
//! gap.

use vstd::prelude::*;
use crate::config::Config;
use crate::nvme::device::AdminRequest;
use crate::nvme::discovery::{NvmeController, NvmeControllerView};
use crate::nvme::error::NvmeError;
use crate::nvme::ioctl::NvmePassthruCmd;
use crate::metrics::{
    namespace_views, unknown_label, DeviceSnapshot, DeviceSnapshotView, ErrorLogSnapshot,
    NamespaceSnapshot, NamespaceSnapshotView, SelfTestSnapshot,
};
use crate::nvme::text::optional_text;
use crate::nvme::types::{
    ErrorLogSummary, IdentifyController, IdentifyControllerView, IdentifyNamespace,
    SelfTestLogSummary, SmartLog,
};

verus! {

/// The read that a collection waits for.
#[derive(Clone, Copy, Debug, PartialEq, Eq, Structural)]
pub enum Stage {
    /// Identify Controller.
    Identify,
    /// The SMART log.
    Smart,
    /// Identify Namespace for the namespace at this place in the
    /// controller's list.
    Namespace(usize),
    /// The error log.
    ErrorLog,
    /// The self-test log.
    SelfTest,
}

/// A collection under way.
#[derive(Debug)]
pub struct Collection {
    controller: NvmeController,
    collect_namespace: bool,
    collect_error_log: bool,
    collect_self_test: bool,
    timeout_ms: u32,
    stage: Stage,
    identify: Option<IdentifyController>,
    smart: Option<SmartLog>,
    namespaces: Vec<NamespaceSnapshot>,
    error_log: Option<ErrorLogSnapshot>,
    self_test: Option<SelfTestSnapshot>,
}

/// The model of a `Collection`.
pub struct CollectionView {
    pub controller: NvmeControllerView,
    pub collect_namespace: bool,
    pub collect_error_log: bool,
    pub collect_self_test: bool,
    pub timeout_ms: u32,
    pub stage: Stage,
    pub identify: Option<IdentifyControllerView>,
    pub smart: Option<SmartLog>,
    pub namespaces: Seq<NamespaceSnapshotView>,
    pub error_log: Option<ErrorLogSnapshot>,
    pub self_test: Option<SelfTestSnapshot>,
}

/// Where a collection stands after a read: it wants another, or it is done.
#[derive(Debug)]
pub enum Progress {
    Pending(Collection),
    Done(Result<DeviceSnapshot, NvmeError>),
}

/// The model of a `Progress`.
pub enum ProgressView {
    Pending(CollectionView),
    Done(Result<DeviceSnapshotView, NvmeError>),
}

/// The model of an Identify Controller structure that may be missing.
pub open spec fn optional_identity(identify: Option<IdentifyController>) -> Option<
    IdentifyControllerView,
> {
    match identify {
        Some(identity) => Some(identity@),
        None => None,
    }
}

impl View for Collection {
    type V = CollectionView;

    closed spec fn view(&self) -> CollectionView {
        CollectionView {
            controller: self.controller@,
            collect_namespace: self.collect_namespace,
            collect_error_log: self.collect_error_log,
            collect_self_test: self.collect_self_test,
            timeout_ms: self.timeout_ms,
            stage: self.stage,
            identify: optional_identity(self.identify),
            smart: self.smart,
            namespaces: namespace_views(self.namespaces@),
            error_log: self.error_log,
            self_test: self.self_test,
        }
    }
}

impl View for Progress {
    type V = ProgressView;

    open spec fn view(&self) -> ProgressView {
        match self {
            Progress::Pending(collection) => ProgressView::Pending(collection@),
            Progress::Done(Ok(snapshot)) => ProgressView::Done(Ok(snapshot@)),
            Progress::Done(Err(error)) => ProgressView::Done(Err(*error)),
        }
    }
}

/// What the caller hands back after a read, as a model: the bytes read, or
/// the error.
pub open spec fn response_view(response: Result<Vec<u8>, NvmeError>) -> Result<
    Seq<u8>,
    NvmeError,
> {
    match response {
        Ok(bytes) => Ok(bytes@),
        Err(error) => Err(error),
    }
}

/// The label of a device: what Identify Controller says, else what discovery
/// found, else `unknown`; an empty text counts as nothing.
pub open spec fn resolved_label(
    identified: Option<Seq<char>>,
    discovered: Option<Seq<char>>,
) -> Seq<char> {
    match identified {
        Some(text) if text.len() > 0 => text,
        _ => match discovered {
            Some(text) if text.len() > 0 => text,
            _ => unknown_label(),
        },
    }
}

impl CollectionView {
    /// A collection that has read nothing yet.
    pub open spec fn begun(
        controller: NvmeControllerView,
        collect_namespace: bool,
        collect_error_log: bool,
        collect_self_test: bool,
        timeout_ms: u32,
    ) -> CollectionView {
        CollectionView {
            controller,
            collect_namespace,
            collect_error_log,
            collect_self_test,
            timeout_ms,
            stage: Stage::Identify,
            identify: None,
            smart: None,
            namespaces: Seq::empty(),
            error_log: None,
            self_test: None,
        }
    }

    /// Whether the collection is in a state that reads can lead to: it has
    /// the SMART log once it is past that read, and it only waits for what
    /// is switched on and there.
    pub open spec fn consistent(self) -> bool {
        match self.stage {
            Stage::Identify => true,
            Stage::Smart => true,
            Stage::Namespace(index) => self.smart.is_some() && self.collect_namespace && index
                < self.controller.namespaces.len(),
            Stage::ErrorLog => self.smart.is_some() && self.collect_error_log,
            Stage::SelfTest => self.smart.is_some() && self.collect_self_test,
        }
    }

    /// The read that the collection wants next.
    pub open spec fn request(self) -> AdminRequest {
        match self.stage {
            Stage::Identify => AdminRequest::IdentifyController,
            Stage::Smart => AdminRequest::SmartLog,
            Stage::Namespace(index) => AdminRequest::IdentifyNamespace {
                nsid: self.controller.namespaces[index as int].nsid,
            },
            Stage::ErrorLog => AdminRequest::ErrorLog,
            Stage::SelfTest => AdminRequest::SelfTestLog,
        }
    }

    /// The snapshot of a collection that has read all it wanted.
    pub open spec fn snapshot(self) -> DeviceSnapshotView {
        DeviceSnapshotView {
            device: self.controller.name,
            model: resolved_label(
                match self.identify {
                    Some(identity) => Some(identity.model),
                    None => None,
                },
                self.controller.model,
            ),
            serial: resolved_label(
                match self.identify {
                    Some(identity) => Some(identity.serial),
                    None => None,
                },
                self.controller.serial,
            ),
            firmware: resolved_label(
                match self.identify {
                    Some(identity) => Some(identity.firmware_revision),
                    None => None,
                },
                self.controller.firmware,
            ),
            accessible: true,
            smart: self.smart,
            namespaces: self.namespaces,
            error_log: self.error_log,
            self_test: self.self_test,
        }
    }

    /// Where the collection stands once the self-test read is the only one
    /// that may be left.
    pub open spec fn toward_self_test(self) -> ProgressView {
        if self.collect_self_test {
            ProgressView::Pending(CollectionView { stage: Stage::SelfTest, ..self })
        } else {
            ProgressView::Done(Ok(self.snapshot()))
        }
    }

    /// Where the collection stands once the namespaces are through.
    pub open spec fn toward_error_log(self) -> ProgressView {
        if self.collect_error_log {
            ProgressView::Pending(CollectionView { stage: Stage::ErrorLog, ..self })
        } else {
            self.toward_self_test()
        }
    }

    /// Where the collection stands once the namespaces before `index` are
    /// through.
    pub open spec fn toward_namespace(self, index: int) -> ProgressView {
        if self.collect_namespace && 0 <= index < self.controller.namespaces.len() {
            ProgressView::Pending(
                CollectionView { stage: Stage::Namespace(index as usize), ..self },
            )
        } else {
            self.toward_error_log()
        }
    }

    /// Where the collection stands after the read it wanted came back with
    /// `response`.
    pub open spec fn advanced(self, response: Result<Seq<u8>, NvmeError>) -> ProgressView {
        match self.stage {
            Stage::Identify => ProgressView::Pending(
                CollectionView {
                    stage: Stage::Smart,
                    identify: match response {
                        Ok(bytes) => if bytes.len() == 4096 {
                            Some(IdentifyController::decoded(bytes))
                        } else {
                            None
                        },
                        Err(_) => None,
                    },
                    ..self
                },
            ),
            Stage::Smart => match response {
                Ok(bytes) => if bytes.len() == 512 {
                    CollectionView {
                        smart: Some(SmartLog::decoded(bytes)),
                        ..self
                    }.toward_namespace(0)
                } else {
                    ProgressView::Done(
                        Err(
                            NvmeError::UnexpectedSize {
                                expected: 512,
                                actual: bytes.len() as usize,
                            },
                        ),
                    )
                },
                Err(error) => ProgressView::Done(Err(error)),
            },
            Stage::Namespace(index) => CollectionView {
                namespaces: match response {
                    Ok(bytes) => if bytes.len() == 4096 {
                        self.namespaces.push(
                            NamespaceSnapshotView {
                                namespace: self.controller.namespaces[index as int].name,
                                nsze: IdentifyNamespace::decoded(bytes).nsze,
                                ncap: IdentifyNamespace::decoded(bytes).ncap,
                                nuse: IdentifyNamespace::decoded(bytes).nuse,
                            },
                        )
                    } else {
                        self.namespaces
                    },
                    Err(_) => self.namespaces,
                },
                ..self
            }.toward_namespace(index + 1),
            Stage::ErrorLog => CollectionView {
                error_log: match response {
                    Ok(bytes) => if bytes.len() > 0 && bytes.len() % 64 == 0 {
                        Some(
                            ErrorLogSnapshot {
                                non_zero_entries: ErrorLogSummary::decoded(bytes).non_zero_entries,
                                max_error_count: ErrorLogSummary::decoded(bytes).max_error_count,
                            },
                        )
                    } else {
                        None
                    },
                    Err(_) => None,
                },
                ..self
            }.toward_self_test(),
            Stage::SelfTest => ProgressView::Done(
                Ok(
                    CollectionView {
                        self_test: match response {
                            Ok(bytes) => if bytes.len() == 564 {
                                Some(
                                    SelfTestSnapshot {
                                        current_operation: SelfTestLogSummary::decoded(
                                            bytes,
                                        ).current_operation,
                                        current_completion_percent: SelfTestLogSummary::decoded(
                                            bytes,
                                        ).current_completion_percent,
                                    },
                                )
                            } else {
                                None
                            },
                            Err(_) => None,
                        },
                        ..self
                    }.snapshot(),
                ),
            ),
        }
    }
}

/// One of the two texts, or `unknown`: the first that is there and not
/// empty.
fn resolve_label(identified: Option<&String>, discovered: &Option<String>) -> (label: String)
    ensures
        label@ == resolved_label(
            match identified {
                Some(text) => Some(text@),
                None => None,
            },
            optional_text(*discovered),
        ),
{
    match identified {
        Some(text) => {
            if !text.as_str().is_empty() {
                return text.clone();
            }
        },
        None => {},
    }
    match discovered {
        Some(text) => {
            if !text.as_str().is_empty() {
                return text.clone();
            }
        },
        None => {},
    }
    "unknown".to_owned()
}

/// Begins the collection of `controller` under the settings `config`, or
/// fails with `Parse` where the command timeout does not fit the command
/// block.
pub fn collect_controller(controller: &NvmeController, config: &Config) -> (result: Result<
    Collection,
    NvmeError,
>)
    ensures
        config.ioctl_timeout <= u32::MAX ==> (result matches Ok(collection) && collection@
            == CollectionView::begun(
            controller@,
            config.collect_namespace,
            config.collect_error_log,
            config.collect_self_test,
            config.ioctl_timeout as u32,
        ) && collection@.consistent()),
        config.ioctl_timeout > u32::MAX ==> result matches Err(NvmeError::Parse(_)),
{
    let timeout_ms = config.ioctl_timeout_ms()?;
    let collection = Collection {
        controller: controller.clone(),
        collect_namespace: config.collect_namespace,
        collect_error_log: config.collect_error_log,
        collect_self_test: config.collect_self_test,
        timeout_ms,
        stage: Stage::Identify,
        identify: None,
        smart: None,
        namespaces: Vec::new(),
        error_log: None,
        self_test: None,
    };
    assert(namespace_views(collection.namespaces@) =~= Seq::<NamespaceSnapshotView>::empty());
    Ok(collection)
}

impl Collection {
    /// A collection is always in a state that reads can lead to.
    #[verifier::type_invariant]
    spec fn well_formed(self) -> bool {
        self@.consistent()
    }

    /// The read that the collection wants next.
    pub fn request(&self) -> (request: AdminRequest)
        ensures
            request == self@.request(),
            self@.consistent(),
    {
        proof {
            use_type_invariant(self);
        }
        match self.stage {
            Stage::Identify => AdminRequest::IdentifyController,
            Stage::Smart => AdminRequest::SmartLog,
            Stage::Namespace(index) => {
                assert(self.controller@.namespaces[index as int]
                    == self.controller.namespaces@[index as int]@);
                AdminRequest::IdentifyNamespace { nsid: self.controller.namespaces[index].nsid }
            },
            Stage::ErrorLog => AdminRequest::ErrorLog,
            Stage::SelfTest => AdminRequest::SelfTestLog,
        }
    }

    /// The command of the read that the collection wants next.
    pub fn command(&self) -> (cmd: NvmePassthruCmd)
        ensures
            cmd == self@.request().spec_command(self@.timeout_ms),
    {
        self.request().command(self.timeout_ms)
    }

    /// The snapshot of a collection that has read all it wanted.
    fn into_snapshot(self) -> (snapshot: DeviceSnapshot)
        ensures
            snapshot@ == self@.snapshot(),
    {
        let model = resolve_label(
            match &self.identify {
                Some(identity) => Some(&identity.model),
                None => None,
            },
            &self.controller.model,
        );
        let serial = resolve_label(
            match &self.identify {
                Some(identity) => Some(&identity.serial),
                None => None,
            },
            &self.controller.serial,
        );
        let firmware = resolve_label(
            match &self.identify {
                Some(identity) => Some(&identity.firmware_revision),
                None => None,
            },
            &self.controller.firmware,
        );
        DeviceSnapshot {
            device: self.controller.name,
            model,
            serial,
            firmware,
            accessible: true,
            smart: self.smart,
            namespaces: self.namespaces,
            error_log: self.error_log,
            self_test: self.self_test,
        }
    }

    /// Where the collection stands once the self-test read is the only one
    /// that may be left.
    fn toward_self_test(self) -> (progress: Progress)
        requires
            self.smart.is_some(),
        ensures
            progress@ == self@.toward_self_test(),
            progress matches Progress::Pending(next) ==> next@.consistent(),
    {
        if self.collect_self_test {
            let mut next = self;
            next.stage = Stage::SelfTest;
            Progress::Pending(next)
        } else {
            Progress::Done(Ok(self.into_snapshot()))
        }
    }

    /// Where the collection stands once the namespaces are through.
    fn toward_error_log(self) -> (progress: Progress)
        requires
            self.smart.is_some(),
        ensures
            progress@ == self@.toward_error_log(),
            progress matches Progress::Pending(next) ==> next@.consistent(),
    {
        if self.collect_error_log {
            let mut next = self;
            next.stage = Stage::ErrorLog;
            Progress::Pending(next)
        } else {
            self.toward_self_test()
        }
    }

    /// Where the collection stands once the namespaces before `index` are
    /// through.
    fn toward_namespace(self, index: usize) -> (progress: Progress)
        requires
            self.smart.is_some(),
        ensures
            progress@ == self@.toward_namespace(index as int),
            progress matches Progress::Pending(next) ==> next@.consistent(),
    {
        if self.collect_namespace && index < self.controller.namespaces.len() {
            let mut next = self;
            next.stage = Stage::Namespace(index);
            Progress::Pending(next)
        } else {
            self.toward_error_log()
        }
    }

    /// Takes the outcome of the Identify Controller read.
    fn after_identify(self, response: Result<Vec<u8>, NvmeError>) -> (progress: Progress)
        requires
            self.stage == Stage::Identify,
        ensures
            progress@ == self@.advanced(response_view(response)),
            progress matches Progress::Pending(next) ==> next@.consistent(),
    {
        let mut next = self;
        next.identify = match response {
            Ok(bytes) => match IdentifyController::parse(bytes.as_slice()) {
                Ok(identity) => Some(identity),
                Err(_) => None,
            },
            Err(_) => None,
        };
        next.stage = Stage::Smart;
        Progress::Pending(next)
    }

    /// Takes the outcome of the SMART read.
    fn after_smart(self, response: Result<Vec<u8>, NvmeError>) -> (progress: Progress)
        requires
            self.stage == Stage::Smart,
        ensures
            progress@ == self@.advanced(response_view(response)),
            progress matches Progress::Pending(next) ==> next@.consistent(),
    {
        let bytes = match response {
            Ok(bytes) => bytes,
            Err(error) => {
                return Progress::Done(Err(error));
            },
        };
        match SmartLog::parse(bytes.as_slice()) {
            Ok(smart) => {
                let mut next = self;
                next.smart = Some(smart);
                next.toward_namespace(0)
            },
            Err(error) => Progress::Done(Err(error)),
        }
    }

    /// Takes the outcome of the Identify Namespace read for the namespace at
    /// `index`.
    fn after_namespace(self, index: usize, response: Result<Vec<u8>, NvmeError>) -> (progress:
        Progress)
        requires
            self.stage == Stage::Namespace(index),
        ensures
            progress@ == self@.advanced(response_view(response)),
            progress matches Progress::Pending(next) ==> next@.consistent(),
    {
        proof {
            use_type_invariant(&self);
        }
        assert(self.controller@.namespaces.len() == self.controller.namespaces.len());
        let sizes = match response {
            Ok(bytes) => match IdentifyNamespace::parse(bytes.as_slice()) {
                Ok(sizes) => Some(sizes),
                Err(_) => None,
            },
            Err(_) => None,
        };
        let next = match sizes {
            Some(sizes) => {
                let snapshot = NamespaceSnapshot {
                    namespace: self.controller.namespaces[index].name.clone(),
                    nsze: sizes.nsze,
                    ncap: sizes.ncap,
                    nuse: sizes.nuse,
                };
                assert(self.controller@.namespaces[index as int]
                    == self.controller.namespaces@[index as int]@);
                let ghost before = namespace_views(self.namespaces@);
                let mut namespaces = self.namespaces;
                namespaces.push(snapshot);
                assert(namespace_views(namespaces@) =~= before.push(snapshot@));
                Collection {
                    controller: self.controller,
                    collect_namespace: self.collect_namespace,
                    collect_error_log: self.collect_error_log,
                    collect_self_test: self.collect_self_test,
                    timeout_ms: self.timeout_ms,
                    stage: self.stage,
                    identify: self.identify,
                    smart: self.smart,
                    namespaces,
                    error_log: self.error_log,
                    self_test: self.self_test,
                }
            },
            None => self,
        };
        next.toward_namespace(index + 1)
    }

    /// Takes the outcome of the error log read.
    fn after_error_log(self, response: Result<Vec<u8>, NvmeError>) -> (progress: Progress)
        requires
            self.stage == Stage::ErrorLog,
        ensures
            progress@ == self@.advanced(response_view(response)),
            progress matches Progress::Pending(next) ==> next@.consistent(),
    {
        proof {
            use_type_invariant(&self);
        }
        let mut next = self;
        next.error_log = match response {
            Ok(bytes) => match ErrorLogSummary::parse(bytes.as_slice()) {
                Ok(summary) => Some(
                    ErrorLogSnapshot {
                        non_zero_entries: summary.non_zero_entries,
                        max_error_count: summary.max_error_count,
                    },
                ),
                Err(_) => None,
            },
            Err(_) => None,
        };
        next.toward_self_test()
    }

    /// Takes the outcome of the self-test read.
    fn after_self_test(self, response: Result<Vec<u8>, NvmeError>) -> (progress: Progress)
        requires
            self.stage == Stage::SelfTest,
        ensures
            progress@ == self@.advanced(response_view(response)),
    {
        proof {
            use_type_invariant(&self);
        }
        let mut next = self;
        next.self_test = match response {
            Ok(bytes) => match SelfTestLogSummary::parse(bytes.as_slice()) {
                Ok(summary) => Some(
                    SelfTestSnapshot {
                        current_operation: summary.current_operation,
                        current_completion_percent: summary.current_completion_percent,
                    },
                ),
                Err(_) => None,
            },
            Err(_) => None,
        };
        Progress::Done(Ok(next.into_snapshot()))
    }

    /// Takes the outcome of the read that the collection wanted, and says
    /// where the collection stands now.
    pub fn advance(self, response: Result<Vec<u8>, NvmeError>) -> (progress: Progress)
        ensures
            progress@ == self@.advanced(response_view(response)),
            progress matches Progress::Pending(next) ==> next@.consistent(),
    {
        match self.stage {
            Stage::Identify => self.after_identify(response),
            Stage::Smart => self.after_smart(response),
            Stage::Namespace(index) => self.after_namespace(index, response),
            Stage::ErrorLog => self.after_error_log(response),
            Stage::SelfTest => self.after_self_test(response),
        }
    }
}

/// Only the SMART read can fail a collection, and it does so exactly where
/// the read fails or returns anything but a whole page. A collection that
/// ends well reports the device as accessible, under the name of its
/// controller and with its SMART log.
pub proof fn lemma_only_smart_fails(
    collection: CollectionView,
    response: Result<Seq<u8>, NvmeError>,
)
    requires
        collection.consistent(),
    ensures
        collection.advanced(response) matches ProgressView::Done(Err(_)) <==> collection.stage
            == Stage::Smart && !(response matches Ok(bytes) && bytes.len() == 512),
        collection.advanced(response) matches ProgressView::Done(Ok(snapshot))
            ==> snapshot.accessible && snapshot.device == collection.controller.name
            && snapshot.smart.is_some(),
        collection.advanced(response) matches ProgressView::Pending(next) ==> next.consistent(),
{
}

} // verus!
