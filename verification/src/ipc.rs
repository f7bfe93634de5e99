//! What travels between the service and its clients.

use crate::errors::{BusFailure, SupervisorError};
use crate::supervisor::state::{DiscoveredMount, MountState};
use crate::text::{debug_text, opt_text, quoted, same_text, views};
use crate::transfer::{
    copy_files, tier_from_name, tier_name, tier_of_name, Pending, TransferFile, TransferModel,
    TransferState,
};
use vstd::prelude::*;
use vstd::string::*;

verus! {

/// The version of the interface that this build speaks.
pub const INTERFACE_VERSION: u32 = 1;

/// The name of the interface.
pub const INTERFACE_NAME: &'static str = "io.github.stuckj.RcloneVfsmountTray1";

/// The name that the service takes on the session bus.
pub const BUS_NAME: &'static str = "io.github.stuckj.RcloneVfsmountTray1";

/// The path of the object that the service exports.
pub const OBJECT_PATH: &'static str = "/io/github/stuckj/RcloneVfsmountTray1";

/// A file that has not been uploaded yet, as it travels.
pub type TransferFileView<S = String> = TransferFile<S>;

/// One mount, as it travels.
#[derive(Debug, Clone, PartialEq, Eq)]
pub struct MountView<S = String> {
    pub name: S,
    pub state: S,
    /// Whether something is serving there.
    pub live: bool,
    /// Whether it is this service's.
    pub managed: bool,
    /// Why it failed, if it did.
    pub reason: Option<S>,
    pub mount_point: Option<S>,
    pub remote: Option<S>,
}

impl View for MountView {
    type V = MountView<Seq<char>>;

    open spec fn view(&self) -> MountView<Seq<char>> {
        MountView {
            name: self.name@,
            state: self.state@,
            live: self.live,
            managed: self.managed,
            reason: opt_text(self.reason),
            mount_point: opt_text(self.mount_point),
            remote: opt_text(self.remote),
        }
    }
}

/// The same optional text again.
pub fn copy_opt(s: &Option<String>) -> (r: Option<String>)
    ensures
        opt_text(r) == opt_text(*s),
{
    match s {
        Some(t) => Some(t.clone()),
        None => None,
    }
}

/// Whether two optional texts are the same.
pub fn same_opt(a: &Option<String>, b: &Option<String>) -> (r: bool)
    ensures
        r == (opt_text(*a) == opt_text(*b)),
{
    match (a, b) {
        (Some(x), Some(y)) => same_text(x.as_str(), y.as_str()),
        (None, None) => true,
        _ => false,
    }
}

impl MountView {
    /// The same mount again.
    pub fn copy(&self) -> (r: MountView)
        ensures
            r@ == self@,
    {
        MountView {
            name: self.name.clone(),
            state: self.state.clone(),
            live: self.live,
            managed: self.managed,
            reason: copy_opt(&self.reason),
            mount_point: copy_opt(&self.mount_point),
            remote: copy_opt(&self.remote),
        }
    }

    /// Whether this is the same as another.
    pub fn same(&self, other: &MountView) -> (r: bool)
        ensures
            r == (self@ == other@),
    {
        same_text(self.name.as_str(), other.name.as_str()) && same_text(
            self.state.as_str(),
            other.state.as_str(),
        ) && self.live == other.live && self.managed == other.managed && same_opt(
            &self.reason,
            &other.reason,
        ) && same_opt(&self.mount_point, &other.mount_point) && same_opt(
            &self.remote,
            &other.remote,
        )
    }
}

/// What is outstanding on one mount, as it travels.
#[derive(Debug, Clone, PartialEq, Eq)]
pub struct TransferView<S = String, F = Vec<TransferFile>> {
    pub mount: S,
    pub fidelity: Option<S>,
    pub outstanding_known: bool,
    pub has_progress: bool,
    pub pending_files: u64,
    pub pending_known_bytes: u64,
    pub pending_unknown_size_files: u64,
    pub uploading: Option<u64>,
    pub errored_files: Option<u64>,
    pub out_of_space: Option<bool>,
    pub rate_bytes_per_sec: Option<u64>,
    pub files: F,
    pub degraded_reason: Option<S>,
}

/// A transfer view by its own view.
pub type TransferViewModel = TransferView<Seq<char>, Seq<TransferFile<Seq<char>>>>;

impl View for TransferView {
    type V = TransferViewModel;

    open spec fn view(&self) -> TransferViewModel {
        TransferView {
            mount: self.mount@,
            fidelity: opt_text(self.fidelity),
            outstanding_known: self.outstanding_known,
            has_progress: self.has_progress,
            pending_files: self.pending_files,
            pending_known_bytes: self.pending_known_bytes,
            pending_unknown_size_files: self.pending_unknown_size_files,
            uploading: self.uploading,
            errored_files: self.errored_files,
            out_of_space: self.out_of_space,
            rate_bytes_per_sec: self.rate_bytes_per_sec,
            files: views(self.files@),
            degraded_reason: opt_text(self.degraded_reason),
        }
    }
}

fn same_files(a: &Vec<TransferFile>, b: &Vec<TransferFile>) -> (r: bool)
    ensures
        r == (views(a@) == views(b@)),
{
    if a.len() != b.len() {
        assert(views(a@).len() != views(b@).len());
        return false;
    }
    let mut i: usize = 0;
    while i < a.len()
        invariant
            i <= a@.len(),
            a@.len() == b@.len(),
            forall|k: int| 0 <= k < i ==> views(a@)[k] == views(b@)[k],
        decreases a@.len() - i,
    {
        let same = same_text(a[i].name.as_str(), b[i].name.as_str()) && a[i].size == b[i].size
            && a[i].in_flight == b[i].in_flight && a[i].tries == b[i].tries && a[i].bytes_sent
            == b[i].bytes_sent;
        assert(same == (views(a@)[i as int] == views(b@)[i as int]));
        if !same {
            return false;
        }
        i = i + 1;
    }
    assert(views(a@) == views(b@));
    true
}

impl TransferView {
    /// The same reading again.
    pub fn copy(&self) -> (r: TransferView)
        ensures
            r@ == self@,
    {
        TransferView {
            mount: self.mount.clone(),
            fidelity: copy_opt(&self.fidelity),
            outstanding_known: self.outstanding_known,
            has_progress: self.has_progress,
            pending_files: self.pending_files,
            pending_known_bytes: self.pending_known_bytes,
            pending_unknown_size_files: self.pending_unknown_size_files,
            uploading: self.uploading,
            errored_files: self.errored_files,
            out_of_space: self.out_of_space,
            rate_bytes_per_sec: self.rate_bytes_per_sec,
            files: copy_files(&self.files),
            degraded_reason: copy_opt(&self.degraded_reason),
        }
    }

    /// Whether this is the same as another.
    pub fn same(&self, other: &TransferView) -> (r: bool)
        ensures
            r == (self@ == other@),
    {
        same_text(self.mount.as_str(), other.mount.as_str()) && same_opt(
            &self.fidelity,
            &other.fidelity,
        ) && self.outstanding_known == other.outstanding_known && self.has_progress
            == other.has_progress && self.pending_files == other.pending_files
            && self.pending_known_bytes == other.pending_known_bytes
            && self.pending_unknown_size_files == other.pending_unknown_size_files
            && self.uploading == other.uploading && self.errored_files == other.errored_files
            && self.out_of_space == other.out_of_space && self.rate_bytes_per_sec
            == other.rate_bytes_per_sec && same_files(&self.files, &other.files) && same_opt(
            &self.degraded_reason,
            &other.degraded_reason,
        )
    }
}

impl MountState<Seq<char>> {
    /// The name that a state goes by.
    pub open spec fn named(self) -> Seq<char> {
        match self {
            MountState::Mounted => "mounted"@,
            MountState::Unmounted => "unmounted"@,
            MountState::Mounting => "mounting"@,
            MountState::Unmounting => "unmounting"@,
            MountState::Failed { .. } => "failed"@,
            MountState::Foreign => "foreign"@,
            MountState::Orphaned => "orphaned"@,
        }
    }

    /// Whether something is serving in this state.
    pub open spec fn serving(self) -> bool {
        match self {
            MountState::Mounted | MountState::Foreign | MountState::Orphaned => true,
            _ => false,
        }
    }

    /// Why it failed, if it did.
    pub open spec fn failure(self) -> Option<Seq<char>> {
        match self {
            MountState::Failed { reason } => Some(reason),
            _ => None,
        }
    }
}

/// The name that a state goes by.
pub fn state_name(s: &MountState) -> (r: String)
    ensures
        r@ == s@.named(),
{
    match s {
        MountState::Mounted => "mounted".to_owned(),
        MountState::Unmounted => "unmounted".to_owned(),
        MountState::Mounting => "mounting".to_owned(),
        MountState::Unmounting => "unmounting".to_owned(),
        MountState::Failed { .. } => "failed".to_owned(),
        MountState::Foreign => "foreign".to_owned(),
        MountState::Orphaned => "orphaned".to_owned(),
    }
}

/// The state of a name, if it names one this build knows. A failure keeps its reason.
pub open spec fn state_named(name: Seq<char>, reason: Option<Seq<char>>) -> Option<
    MountState<Seq<char>>,
> {
    if name == "mounted"@ {
        Some(MountState::Mounted)
    } else if name == "unmounted"@ {
        Some(MountState::Unmounted)
    } else if name == "mounting"@ {
        Some(MountState::Mounting)
    } else if name == "unmounting"@ {
        Some(MountState::Unmounting)
    } else if name == "failed"@ {
        Some(
            MountState::Failed {
                reason: match reason {
                    Some(t) => t,
                    None => Seq::<char>::empty(),
                },
            },
        )
    } else if name == "foreign"@ {
        Some(MountState::Foreign)
    } else if name == "orphaned"@ {
        Some(MountState::Orphaned)
    } else {
        None
    }
}

/// The state of a name, if it names one this build knows.
pub fn state_from_name(name: &str, reason: &Option<String>) -> (r: Option<MountState>)
    ensures
        match r {
            Some(s) => state_named(name@, opt_text(*reason)) == Some(s@),
            None => state_named(name@, opt_text(*reason)) is None,
        },
{
    if same_text(name, "mounted") {
        Some(MountState::Mounted)
    } else if same_text(name, "unmounted") {
        Some(MountState::Unmounted)
    } else if same_text(name, "mounting") {
        Some(MountState::Mounting)
    } else if same_text(name, "unmounting") {
        Some(MountState::Unmounting)
    } else if same_text(name, "failed") {
        let reason = match reason {
            Some(t) => t.clone(),
            None => String::new(),
        };
        Some(MountState::Failed { reason })
    } else if same_text(name, "foreign") {
        Some(MountState::Foreign)
    } else if same_text(name, "orphaned") {
        Some(MountState::Orphaned)
    } else {
        None
    }
}

/// Every state is found again under its own name, with its reason.
pub proof fn a_state_is_found_under_its_name(s: MountState<Seq<char>>)
    ensures
        state_named(s.named(), s.failure()) == Some(s),
{
    reveal_strlit("mounted");
    reveal_strlit("unmounted");
    reveal_strlit("mounting");
    reveal_strlit("unmounting");
    reveal_strlit("failed");
    reveal_strlit("foreign");
    reveal_strlit("orphaned");
    assert("mounted"@.len() == 7 && "unmounted"@.len() == 9 && "mounting"@.len() == 8
        && "unmounting"@.len() == 10 && "failed"@.len() == 6 && "foreign"@.len() == 7
        && "orphaned"@.len() == 8);
    assert("mounted"@[0] != "foreign"@[0]);
    assert("mounting"@[0] != "orphaned"@[0]);
}

/// A discovered mount as it travels, with what the configuration says that it serves.
pub open spec fn view_of_mount(
    found: DiscoveredMount<Seq<char>>,
    remote: Option<Seq<char>>,
) -> MountView<Seq<char>> {
    MountView {
        name: found.name,
        state: found.state.named(),
        live: found.state.serving(),
        managed: !(found.state is Foreign),
        reason: found.state.failure(),
        mount_point: found.mount_point,
        remote,
    }
}

/// A discovered mount as it travels, with what the configuration says that it serves.
pub fn mount_view(found: &DiscoveredMount, remote: Option<String>) -> (r: MountView)
    ensures
        r@ == view_of_mount(found@, opt_text(remote)),
{
    let (live, managed) = match &found.state {
        MountState::Mounted | MountState::Orphaned => (true, true),
        MountState::Foreign => (true, false),
        _ => (false, true),
    };
    let reason = match &found.state {
        MountState::Failed { reason } => Some(reason.clone()),
        _ => None,
    };
    MountView {
        name: found.name.clone(),
        state: state_name(&found.state),
        live,
        managed,
        reason,
        mount_point: copy_opt(&found.mount_point),
        remote,
    }
}

/// A reading as it travels.
pub open spec fn view_of_transfer(s: TransferModel) -> TransferViewModel {
    TransferView {
        mount: s.mount,
        fidelity: match s.fidelity {
            Some(t) => Some(t.named()),
            None => None,
        },
        outstanding_known: s.outstanding_known,
        has_progress: s.has_progress,
        pending_files: s.pending.files,
        pending_known_bytes: s.pending.known_bytes,
        pending_unknown_size_files: s.pending.unknown_size_files,
        uploading: s.uploading,
        errored_files: s.errored_files,
        out_of_space: s.out_of_space,
        rate_bytes_per_sec: s.rate_bytes_per_sec,
        files: s.files,
        degraded_reason: s.degraded_reason,
    }
}

/// A reading as it travels.
pub fn transfer_view(s: &TransferState) -> (r: TransferView)
    ensures
        r@ == view_of_transfer(s@),
{
    TransferView {
        mount: s.mount.clone(),
        fidelity: match s.fidelity {
            Some(t) => Some(tier_name(t)),
            None => None,
        },
        outstanding_known: s.outstanding_known,
        has_progress: s.has_progress,
        pending_files: s.pending.files,
        pending_known_bytes: s.pending.known_bytes,
        pending_unknown_size_files: s.pending.unknown_size_files,
        uploading: s.uploading,
        errored_files: s.errored_files,
        out_of_space: s.out_of_space,
        rate_bytes_per_sec: s.rate_bytes_per_sec,
        files: copy_files(&s.files),
        degraded_reason: copy_opt(&s.degraded_reason),
    }
}

/// A reading that has travelled. A tier this build does not know is none.
pub open spec fn transfer_of_view(v: TransferViewModel) -> TransferModel {
    TransferState {
        mount: v.mount,
        fidelity: match v.fidelity {
            Some(n) => tier_of_name(n),
            None => None,
        },
        outstanding_known: v.outstanding_known,
        has_progress: v.has_progress,
        pending: Pending {
            files: v.pending_files,
            known_bytes: v.pending_known_bytes,
            unknown_size_files: v.pending_unknown_size_files,
        },
        uploading: v.uploading,
        errored_files: v.errored_files,
        out_of_space: v.out_of_space,
        rate_bytes_per_sec: v.rate_bytes_per_sec,
        files: v.files,
        degraded_reason: v.degraded_reason,
    }
}

/// A reading that has travelled.
pub fn transfer_state(v: &TransferView) -> (r: TransferState)
    ensures
        r@ == transfer_of_view(v@),
{
    TransferState {
        mount: v.mount.clone(),
        fidelity: match &v.fidelity {
            Some(n) => tier_from_name(n.as_str()),
            None => None,
        },
        outstanding_known: v.outstanding_known,
        has_progress: v.has_progress,
        pending: Pending {
            files: v.pending_files,
            known_bytes: v.pending_known_bytes,
            unknown_size_files: v.pending_unknown_size_files,
        },
        uploading: v.uploading,
        errored_files: v.errored_files,
        out_of_space: v.out_of_space,
        rate_bytes_per_sec: v.rate_bytes_per_sec,
        files: copy_files(&v.files),
        degraded_reason: copy_opt(&v.degraded_reason),
    }
}

/// A reading arrives as it was sent.
pub proof fn a_reading_arrives_as_it_was_sent(s: TransferModel)
    ensures
        transfer_of_view(view_of_transfer(s)) == s,
{
    if let Some(t) = s.fidelity {
        crate::transfer::a_tier_is_found_under_its_name(t);
    }
}

/// How a call to the service was answered, other than with a reply.
#[derive(Debug, Clone, PartialEq, Eq)]
pub enum IpcError<S = String> {
    UnknownMount(S),
    NotManaged(S),
    Busy(S),
    /// Any other refusal, in the service's words where it gave any.
    Refused(Option<S>),
    /// Not by the service at all: the call failed on its way.
    ZBus(BusFailure<S>),
}

impl View for IpcError {
    type V = IpcError<Seq<char>>;

    open spec fn view(&self) -> IpcError<Seq<char>> {
        match *self {
            IpcError::UnknownMount(t) => IpcError::UnknownMount(t@),
            IpcError::NotManaged(t) => IpcError::NotManaged(t@),
            IpcError::Busy(t) => IpcError::Busy(t@),
            IpcError::Refused(t) => IpcError::Refused(opt_text(t)),
            IpcError::ZBus(e) => IpcError::ZBus(e@),
        }
    }
}

/// What is said of a name that no mount goes by.
pub open spec fn no_mount_named(name: Seq<char>) -> Seq<char> {
    "no mount named "@ + debug_text(name)
}

/// The refusal for a name that no mount goes by.
pub fn unknown_mount(name: &str) -> (r: IpcError)
    ensures
        r@ == IpcError::UnknownMount(no_mount_named(name@)),
{
    let mut s = "no mount named ".to_owned();
    s.append(quoted(name).as_str());
    IpcError::UnknownMount(s)
}

/// A failure with what caused it.
pub open spec fn caused(text: Seq<char>, source: Option<Seq<char>>) -> Seq<char> {
    match source {
        Some(s) => text + ": "@ + s,
        None => text,
    }
}

fn with_cause(text: String, source: Option<String>) -> (r: String)
    ensures
        r@ == caused(text@, opt_text(source)),
{
    let mut t = text;
    if let Some(s) = source {
        t.append(": ");
        t.append(s.as_str());
    }
    t
}

/// What a client is told of an operation that did not do what was asked.
pub open spec fn refusal(e: SupervisorError<Seq<char>>) -> IpcError<Seq<char>> {
    match e {
        SupervisorError::UnknownMount(n) => IpcError::UnknownMount(no_mount_named(n)),
        SupervisorError::NotManaged(t) => IpcError::NotManaged(t),
        SupervisorError::Busy { detail } => IpcError::Busy(detail),
        SupervisorError::RcloneFailed { reason, source } => IpcError::Refused(
            Some(caused(reason, source)),
        ),
        SupervisorError::BadMountPoint { path, reason, source } => IpcError::Refused(
            Some(caused(path + " "@ + reason, source)),
        ),
        SupervisorError::Supervision { context, source } => IpcError::Refused(
            Some(caused(context, source)),
        ),
    }
}

/// What a client is told of an operation that did not do what was asked. A refusal because
/// the mount is in use keeps its own kind, so that a client can offer to force it.
pub fn ipc_error(e: SupervisorError) -> (r: IpcError)
    ensures
        r@ == refusal(e@),
{
    match e {
        SupervisorError::UnknownMount(n) => unknown_mount(n.as_str()),
        SupervisorError::NotManaged(t) => IpcError::NotManaged(t),
        SupervisorError::Busy { detail } => IpcError::Busy(detail),
        SupervisorError::RcloneFailed { reason, source } => IpcError::Refused(
            Some(with_cause(reason, source)),
        ),
        SupervisorError::BadMountPoint { path, reason, source } => {
            let mut t = path;
            t.append(" ");
            t.append(reason.as_str());
            IpcError::Refused(Some(with_cause(t, source)))
        },
        SupervisorError::Supervision { context, source } => IpcError::Refused(
            Some(with_cause(context, source)),
        ),
    }
}

} // verus!
