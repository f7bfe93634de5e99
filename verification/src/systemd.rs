//! rclone as a transient systemd user unit: what a unit is, what its state means, and
//! what systemd's answers say.
//!
//! Types that hold text are generic in it: `S` is `String` in running code, and the
//! sequence of characters where a contract speaks of a value by its view.

use crate::errors::{outcome, BusFailure, SupervisorError};
use crate::text::{contains_text, finishes_with, occurs_in, same_text, strip_suffix, texts, views};
use vstd::prelude::*;
use vstd::string::*;

verus! {

/// Whether a unit is running, from systemd's point of view.
#[derive(Debug, Clone, Copy, PartialEq, Eq, Structural)]
pub enum UnitStatus {
    Active,
    Activating,
    /// Being stopped. Distinct from `Activating`: a mount being torn down must not report
    /// as coming up.
    Deactivating,
    Failed,
    /// Not loaded, or loaded and dead. Both mean "not running and not trying to".
    Inactive,
}

impl Default for UnitStatus {
    fn default() -> (r: UnitStatus)
        ensures
            r == UnitStatus::Inactive,
    {
        UnitStatus::Inactive
    }
}

impl UnitStatus {
    /// The states in which a unit can be what is mounted at a point right now.
    pub open spec fn serves(self) -> bool {
        self == UnitStatus::Active || self == UnitStatus::Deactivating
    }

    /// Whether this unit can be what is mounted at a point right now.
    ///
    /// `Failed` cannot: its main process is gone, and the unit stays loaded only so that
    /// its state and log survive. Neither can `Activating`, which is both the moments
    /// before rclone is exec'd and the gap systemd leaves before a restart.
    pub fn is_serving(self) -> (r: bool)
        ensures
            r == self.serves(),
    {
        match self {
            UnitStatus::Active | UnitStatus::Deactivating => true,
            UnitStatus::Activating | UnitStatus::Failed | UnitStatus::Inactive => false,
        }
    }
}

/// What a unit's own argv says it mounts, and where.
#[derive(Debug, Clone, PartialEq, Eq)]
pub struct Serving<S = String> {
    /// The `remote:path` rclone was given.
    pub fs_spec: S,
    pub mount_point: S,
}

impl View for Serving {
    type V = Serving<Seq<char>>;

    open spec fn view(&self) -> Serving<Seq<char>> {
        Serving { fs_spec: self.fs_spec@, mount_point: self.mount_point@ }
    }
}

/// A unit systemd has loaded.
#[derive(Debug, Clone, PartialEq, Eq)]
pub struct LoadedUnit<S = String> {
    pub name: S,
    pub status: UnitStatus,
    /// Read back from the unit's argv, for units shaped like the ones this service
    /// starts. `None` for anything else, and for a read that failed.
    pub serving: Option<Serving<S>>,
}

impl View for LoadedUnit {
    type V = LoadedUnit<Seq<char>>;

    open spec fn view(&self) -> LoadedUnit<Seq<char>> {
        LoadedUnit {
            name: self.name@,
            status: self.status,
            serving: match self.serving {
                Some(s) => Some(s@),
                None => None,
            },
        }
    }
}

/// Everything needed to start one rclone unit.
#[derive(Debug, Clone, PartialEq, Eq)]
pub struct UnitSpec<S = String, L = Vec<String>> {
    pub name: S,
    pub description: S,
    pub executable: S,
    pub args: L,
    /// Run before the main process, on every start including systemd's own restarts.
    ///
    /// Failure is ignored: this only clears leftovers, and refusing to start because the
    /// cleanup could not run would turn a recoverable state into a permanent one.
    pub pre_start: Option<(S, L)>,
    /// rclone applies this to every file it creates inside the mount, so it must stay
    /// ordinary: the rc socket is protected by the mode of the directory holding it.
    pub umask: u32,
}

impl View for UnitSpec {
    type V = UnitSpec<Seq<char>, Seq<Seq<char>>>;

    open spec fn view(&self) -> UnitSpec<Seq<char>, Seq<Seq<char>>> {
        UnitSpec {
            name: self.name@,
            description: self.description@,
            executable: self.executable@,
            args: texts(self.args@),
            pre_start: match self.pre_start {
                Some((bin, args)) => Some((bin@, texts(args@))),
                None => None,
            },
            umask: self.umask,
        }
    }
}

/// What systemd's `ActiveState` means.
pub open spec fn status_named(active_state: Seq<char>) -> UnitStatus {
    if active_state == "active"@ || active_state == "reloading"@ {
        UnitStatus::Active
    } else if active_state == "activating"@ {
        UnitStatus::Activating
    } else if active_state == "deactivating"@ {
        UnitStatus::Deactivating
    } else if active_state == "failed"@ {
        UnitStatus::Failed
    } else {
        UnitStatus::Inactive
    }
}

/// systemd's `ActiveState` as this service reads it.
pub fn unit_status(active_state: &str) -> (r: UnitStatus)
    ensures
        r == status_named(active_state@),
{
    if same_text(active_state, "active") || same_text(active_state, "reloading") {
        UnitStatus::Active
    } else if same_text(active_state, "activating") {
        UnitStatus::Activating
    } else if same_text(active_state, "deactivating") {
        UnitStatus::Deactivating
    } else if same_text(active_state, "failed") {
        UnitStatus::Failed
    } else {
        UnitStatus::Inactive
    }
}

/// What an `ExecStart` list says its unit mounts: the first command's argv is the binary,
/// the word `mount`, the `remote:path` and the mount point.
pub open spec fn argv_serving(exec_start: Seq<Seq<Seq<char>>>) -> Option<Serving<Seq<char>>> {
    if exec_start.len() == 0 {
        None
    } else {
        let argv = exec_start[0];
        if argv.len() >= 4 && argv[1] == "mount"@ {
            Some(Serving { fs_spec: argv[2], mount_point: argv[3] })
        } else {
            None
        }
    }
}

/// The argvs of an `ExecStart` list, by their texts.
pub open spec fn argvs(exec_start: Seq<Vec<String>>) -> Seq<Seq<Seq<char>>> {
    exec_start.map_values(|a: Vec<String>| texts(a@))
}

/// What a unit mounts, read back from the argvs systemd holds for it.
///
/// `None` rather than an error: this only adds detail to a unit already listed, and a unit
/// whose argv is not one of ours is not something to fail a sweep over.
pub fn serving(exec_start: &Vec<Vec<String>>) -> (r: Option<Serving>)
    ensures
        match r {
            Some(s) => argv_serving(argvs(exec_start@)) == Some(s@),
            None => argv_serving(argvs(exec_start@)) is None,
        },
{
    if exec_start.len() == 0 {
        return None;
    }
    let argv = &exec_start[0];
    assert(argvs(exec_start@)[0] == texts(argv@));
    if argv.len() < 2 || !same_text(argv[1].as_str(), "mount") {
        return None;
    }
    if argv.len() < 4 {
        return None;
    }
    Some(Serving { fs_spec: argv[2].clone(), mount_point: argv[3].clone() })
}

/// The last part of the error name with which systemd denies knowing a unit.
pub open spec fn says_no_such_unit(e: BusFailure<Seq<char>>) -> bool {
    e.name matches Some(n) && finishes_with(n, ".NoSuchUnit"@)
}

/// Whether an error reply says that the unit is not loaded.
pub open spec fn says_not_loaded(e: BusFailure<Seq<char>>) -> bool {
    &&& e.name is Some
    &&& e.message matches Some(m)
    &&& occurs_in("not loaded"@, m)
}

fn is_no_such_unit(e: &BusFailure) -> (r: bool)
    ensures
        r == says_no_such_unit(e@),
{
    match &e.name {
        Some(n) => match strip_suffix(n.as_str(), ".NoSuchUnit") {
            Some(_) => true,
            None => false,
        },
        None => false,
    }
}

/// The error for machinery that failed while doing `context`.
pub fn supervision(context: String, source: String) -> (r: SupervisorError)
    ensures
        r@ == (SupervisorError::Supervision { context: context@, source: Some(source@) }),
{
    SupervisorError::Supervision { context, source: Some(source) }
}

/// What stopping a unit comes to: a unit that systemd no longer has is stopped.
pub open spec fn stop_result(
    unit: Seq<char>,
    reply: Result<(), BusFailure<Seq<char>>>,
) -> Result<(), SupervisorError<Seq<char>>> {
    match reply {
        Ok(_) => Ok(()),
        Err(e) => if says_no_such_unit(e) || says_not_loaded(e) {
            Ok(())
        } else {
            Err(
                SupervisorError::Supervision {
                    context: "stopping unit "@ + unit,
                    source: Some(e.text),
                },
            )
        },
    }
}

/// What systemd's reply to a stop request means.
pub fn stopped(unit: &str, reply: Result<(), BusFailure>) -> (r: Result<(), SupervisorError>)
    ensures
        outcome(r) == stop_result(
            unit@,
            match reply {
                Ok(_) => Ok(()),
                Err(e) => Err(e@),
            },
        ),
{
    match reply {
        Ok(_) => Ok(()),
        Err(e) => {
            // It stopped between the status read and here, and systemd collected it.
            let unloaded = match (&e.name, &e.message) {
                (Some(_), Some(m)) => contains_text(m.as_str(), "not loaded"),
                _ => false,
            };
            if is_no_such_unit(&e) || unloaded {
                return Ok(());
            }
            let mut context = "stopping unit ".to_owned();
            context.append(unit);
            Err(supervision(context, e.text))
        },
    }
}

/// What a failed lookup of a unit means. Only being told that there is no such unit makes
/// it inactive: an unreachable manager read as "no unit" would make every live mount
/// somebody else's.
pub open spec fn lookup_result(unit: Seq<char>, e: BusFailure<Seq<char>>) -> Result<
    UnitStatus,
    SupervisorError<Seq<char>>,
> {
    if says_no_such_unit(e) {
        Ok(UnitStatus::Inactive)
    } else {
        Err(
            SupervisorError::Supervision {
                context: "looking up unit "@ + unit,
                source: Some(e.text),
            },
        )
    }
}

/// What a failed lookup of a unit means.
pub fn not_found(unit: &str, e: BusFailure) -> (r: Result<UnitStatus, SupervisorError>)
    ensures
        outcome(r) == lookup_result(unit@, e@),
{
    if is_no_such_unit(&e) {
        return Ok(UnitStatus::Inactive);
    }
    let mut context = "looking up unit ".to_owned();
    context.append(unit);
    Err(supervision(context, e.text))
}

/// One command of an `ExecStart` property: the binary, its full argv including the binary,
/// and whether a non-zero exit is ignored.
#[derive(Debug, Clone, PartialEq, Eq)]
pub struct ExecCommand<S = String, L = Vec<String>> {
    pub binary: S,
    pub argv: L,
    pub ignore_errors: bool,
}

impl View for ExecCommand {
    type V = ExecCommand<Seq<char>, Seq<Seq<char>>>;

    open spec fn view(&self) -> ExecCommand<Seq<char>, Seq<Seq<char>>> {
        ExecCommand {
            binary: self.binary@,
            argv: texts(self.argv@),
            ignore_errors: self.ignore_errors,
        }
    }
}

/// The value of one unit property, by its D-Bus type.
#[derive(Debug, Clone, PartialEq, Eq)]
pub enum PropertyValue<S = String, L = Vec<String>> {
    Text(S),
    U32(u32),
    U64(u64),
    /// A list of one command.
    Command(ExecCommand<S, L>),
}

impl View for PropertyValue {
    type V = PropertyValue<Seq<char>, Seq<Seq<char>>>;

    open spec fn view(&self) -> PropertyValue<Seq<char>, Seq<Seq<char>>> {
        match *self {
            PropertyValue::Text(t) => PropertyValue::Text(t@),
            PropertyValue::U32(n) => PropertyValue::U32(n),
            PropertyValue::U64(n) => PropertyValue::U64(n),
            PropertyValue::Command(c) => PropertyValue::Command(c@),
        }
    }
}

/// One named property of a unit.
#[derive(Debug, Clone, PartialEq, Eq)]
pub struct Property<S = String, L = Vec<String>> {
    pub name: S,
    pub value: PropertyValue<S, L>,
}

impl View for Property {
    type V = Property<Seq<char>, Seq<Seq<char>>>;

    open spec fn view(&self) -> Property<Seq<char>, Seq<Seq<char>>> {
        Property { name: self.name@, value: self.value@ }
    }
}

/// A text property.
pub open spec fn text_property(name: Seq<char>, value: Seq<char>) -> Property<
    Seq<char>,
    Seq<Seq<char>>,
> {
    Property { name, value: PropertyValue::Text(value) }
}

/// A command property.
pub open spec fn command_property(
    name: Seq<char>,
    binary: Seq<char>,
    args: Seq<Seq<char>>,
    ignore_errors: bool,
) -> Property<Seq<char>, Seq<Seq<char>>> {
    Property {
        name,
        value: PropertyValue::Command(
            ExecCommand { binary, argv: seq![binary] + args, ignore_errors },
        ),
    }
}

/// The properties a rclone unit is started with.
///
/// It is restarted if rclone dies, but three starts within a minute end the retries: a
/// unit that never reaches `failed` never carries rclone's reason to the user. Stopping
/// signals rclone alone and gives it half a minute, because killing the whole control group
/// at once would leave the mount point stale.
pub open spec fn transient_properties(spec: UnitSpec<Seq<char>, Seq<Seq<char>>>) -> Seq<
    Property<Seq<char>, Seq<Seq<char>>>,
> {
    let base = seq![
        text_property("Description"@, spec.description),
        command_property("ExecStart"@, spec.executable, spec.args, false),
        text_property("Type"@, "exec"@),
        Property { name: "UMask"@, value: PropertyValue::U32(spec.umask) },
        text_property("Restart"@, "on-failure"@),
        Property { name: "StartLimitIntervalUSec"@, value: PropertyValue::U64(60_000_000) },
        Property { name: "StartLimitBurst"@, value: PropertyValue::U32(3) },
        Property { name: "RestartUSec"@, value: PropertyValue::U64(5_000_000) },
        text_property("KillMode"@, "mixed"@),
        Property { name: "TimeoutStopUSec"@, value: PropertyValue::U64(30_000_000) },
    ];
    match spec.pre_start {
        Some((bin, args)) => base.push(command_property("ExecStartPre"@, bin, args, true)),
        None => base,
    }
}

fn text_prop(name: &str, value: &str) -> (r: Property)
    ensures
        r@ == text_property(name@, value@),
{
    Property { name: name.to_owned(), value: PropertyValue::Text(value.to_owned()) }
}

fn command_prop(name: &str, binary: &str, args: &Vec<String>, ignore_errors: bool) -> (r: Property)
    ensures
        r@ == command_property(name@, binary@, texts(args@), ignore_errors),
{
    let mut argv: Vec<String> = Vec::new();
    argv.push(binary.to_owned());
    let mut i: usize = 0;
    assert(texts(argv@) == seq![binary@] + texts(args@).take(0));
    while i < args.len()
        invariant
            i <= args@.len(),
            texts(argv@) == seq![binary@] + texts(args@).take(i as int),
        decreases args@.len() - i,
    {
        let ghost before = argv@;
        argv.push(args[i].clone());
        assert(texts(argv@) == texts(before).push(args@[i as int]@));
        assert(texts(args@).take(i + 1) == texts(args@).take(i as int).push(args@[i as int]@));
        i = i + 1;
    }
    assert(texts(args@).take(args@.len() as int) == texts(args@));
    Property {
        name: name.to_owned(),
        value: PropertyValue::Command(
            ExecCommand { binary: binary.to_owned(), argv, ignore_errors },
        ),
    }
}

/// The properties a rclone unit is started with. The names are those of the D-Bus
/// interface, not unit-file directives, and an unknown one fails the whole call.
pub fn start_properties(spec: &UnitSpec) -> (r: Vec<Property>)
    ensures
        views(r@) == transient_properties(spec@),
{
    let mut v: Vec<Property> = Vec::new();
    v.push(text_prop("Description", spec.description.as_str()));
    v.push(command_prop("ExecStart", spec.executable.as_str(), &spec.args, false));
    v.push(text_prop("Type", "exec"));
    v.push(Property { name: "UMask".to_owned(), value: PropertyValue::U32(spec.umask) });
    v.push(text_prop("Restart", "on-failure"));
    v.push(
        Property {
            name: "StartLimitIntervalUSec".to_owned(),
            value: PropertyValue::U64(60_000_000),
        },
    );
    v.push(Property { name: "StartLimitBurst".to_owned(), value: PropertyValue::U32(3) });
    v.push(Property { name: "RestartUSec".to_owned(), value: PropertyValue::U64(5_000_000) });
    v.push(text_prop("KillMode", "mixed"));
    v.push(Property { name: "TimeoutStopUSec".to_owned(), value: PropertyValue::U64(30_000_000) });
    if let Some((bin, args)) = &spec.pre_start {
        v.push(command_prop("ExecStartPre", bin.as_str(), args, true));
    }
    v
}

/// One row of a unit listing as this service reads it. Only a service has an `ExecStart`,
/// so no other unit is asked for one.
pub fn loaded_unit(name: String, active_state: &str, exec_start: &Vec<Vec<String>>) -> (r:
    LoadedUnit)
    ensures
        r@ == (LoadedUnit {
            name: name@,
            status: status_named(active_state@),
            serving: if finishes_with(name@, ".service"@) {
                argv_serving(argvs(exec_start@))
            } else {
                None
            },
        }),
{
    let status = unit_status(active_state);
    let serving = if has_exec_start(name.as_str()) {
        serving(exec_start)
    } else {
        None
    };
    LoadedUnit { name, status, serving }
}

/// Whether a unit of this name can have an `ExecStart` to read.
pub fn has_exec_start(name: &str) -> (r: bool)
    ensures
        r == finishes_with(name@, ".service"@),
{
    match strip_suffix(name, ".service") {
        Some(_) => true,
        None => false,
    }
}

} // verus!
