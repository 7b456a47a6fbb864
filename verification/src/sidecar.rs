//! The decisions of the privileged sidecars and of the server's command
//! line: which probe modules run for a configuration, how a sidecar session
//! starts, which trace command the input sidecar runs, and where the
//! server's keyboard trace comes from.
use crate::probe::{
    input_event_probe_program, zleread_probe_program, InputTracePreset, ModuleState, ModuleStatus,
    ProbeModuleConfig, ProbeModuleId, ServerMessage, ShellTracePreset, SidecarMessage,
    SIDECAR_PROTOCOL_VERSION,
};
use vstd::prelude::*;

verus! {

/// The keyboard probe: the bpftrace `input_event` preset.
#[derive(Debug)]
pub struct KeyboardInputModule {
    pub program: String,
    pub args: Vec<String>,
}

impl KeyboardInputModule {
    pub fn new() -> (r: Self)
        ensures
            r.program@ == "bpftrace"@,
            r.args.deep_view() == seq!["-e"@, input_event_probe_program()],
    {
        let (program, args) = InputTracePreset::BpftraceInputEvent.command();
        KeyboardInputModule { program, args }
    }
}

/// The shell probe: the bpftrace `zleread` preset for the zsh line-editor
/// module.
#[derive(Debug)]
pub struct ShellCommandModule {
    pub program: String,
    pub args: Vec<String>,
}

/// Why the shell probe cannot run when zsh's line-editor module is not found.
pub open spec fn zle_not_found_detail() -> Seq<char> {
    "failed to locate zsh zle module for shell probe"@
}

/// Why the DNS probe cannot run.
pub open spec fn dns_unsupported_detail() -> Seq<char> {
    "dns sidecar probe is not implemented yet"@
}

impl ShellCommandModule {
    /// The shell probe for the line-editor module that discovery found at
    /// `zsh_module_path`; an error when discovery found none.
    pub fn new(zsh_module_path: Option<String>) -> (r: Result<Self, String>)
        ensures
            match zsh_module_path {
                Some(p) => r matches Ok(m) && m.program@ == "bpftrace"@ && m.args.deep_view()
                    == seq!["-e"@, zleread_probe_program(p@)],
                None => r matches Err(e) && e@ == zle_not_found_detail(),
            },
    {
        match zsh_module_path {
            Some(p) => {
                let (program, args) = ShellTracePreset::BpftraceZshZleread.program(p.as_str());
                Ok(ShellCommandModule { program, args })
            },
            None => Err(String::from_str("failed to locate zsh zle module for shell probe")),
        }
    }
}

/// A probe module the sidecar can run.
#[derive(Debug)]
pub enum SidecarProbeModule {
    Keyboard(KeyboardInputModule),
    Shell(ShellCommandModule),
}

impl SidecarProbeModule {
    pub open spec fn spec_id(&self) -> ProbeModuleId {
        match self {
            SidecarProbeModule::Keyboard(_) => ProbeModuleId::KeyboardInput,
            SidecarProbeModule::Shell(_) => ProbeModuleId::ShellCommands,
        }
    }

    pub fn id(&self) -> (r: ProbeModuleId)
        ensures
            r == self.spec_id(),
    {
        match self {
            SidecarProbeModule::Keyboard(_) => ProbeModuleId::KeyboardInput,
            SidecarProbeModule::Shell(_) => ProbeModuleId::ShellCommands,
        }
    }

    /// The program and arguments the module runs are its preset's.
    pub open spec fn runs_preset(&self, zsh_module_path: Option<Seq<char>>) -> bool {
        match self {
            SidecarProbeModule::Keyboard(m) => m.program@ == "bpftrace"@ && m.args.deep_view()
                == seq!["-e"@, input_event_probe_program()],
            SidecarProbeModule::Shell(m) => zsh_module_path matches Some(p) && m.program@
                == "bpftrace"@ && m.args.deep_view() == seq!["-e"@, zleread_probe_program(p)],
        }
    }
}

/// Whether a requested module can run: the keyboard probe always, the shell
/// probe when zsh's line-editor module was found, the DNS probe never.
pub open spec fn runnable(id: ProbeModuleId, zle_found: bool) -> bool {
    id == ProbeModuleId::KeyboardInput || (id == ProbeModuleId::ShellCommands && zle_found)
}

/// The status reported for a requested module that cannot run.
pub open spec fn refusal(id: ProbeModuleId) -> (ModuleState, Seq<char>) {
    if id == ProbeModuleId::DnsQueries {
        (ModuleState::Unsupported, dns_unsupported_detail())
    } else {
        (ModuleState::Failed, zle_not_found_detail())
    }
}

/// The modules that run for `ids`, in request order.
pub open spec fn runnable_ids(ids: Seq<ProbeModuleId>, zle_found: bool) -> Seq<ProbeModuleId>
    decreases ids.len(),
{
    if ids.len() == 0 {
        Seq::empty()
    } else {
        let rest = runnable_ids(ids.drop_last(), zle_found);
        if runnable(ids.last(), zle_found) {
            rest.push(ids.last())
        } else {
            rest
        }
    }
}

/// The modules refused for `ids`, in request order, with their state and
/// detail.
pub open spec fn refused(ids: Seq<ProbeModuleId>, zle_found: bool) -> Seq<
    (ProbeModuleId, ModuleState, Seq<char>),
>
    decreases ids.len(),
{
    if ids.len() == 0 {
        Seq::empty()
    } else {
        let rest = refused(ids.drop_last(), zle_found);
        if runnable(ids.last(), zle_found) {
            rest
        } else {
            rest.push((ids.last(), refusal(ids.last()).0, refusal(ids.last()).1))
        }
    }
}

/// The module identifiers of a configuration.
pub open spec fn requested_ids(configs: Seq<ProbeModuleConfig>) -> Seq<ProbeModuleId> {
    configs.map_values(|c: ProbeModuleConfig| c.module)
}

/// Whether `s` reports exactly `(module, state, detail)`.
pub open spec fn status_is(s: ModuleStatus, r: (ProbeModuleId, ModuleState, Seq<char>)) -> bool {
    s.module == r.0 && s.state == r.1 && s.detail.deep_view() == Some(r.2)
}

/// Splits the requested modules into those that run and the statuses of
/// those that cannot. `zsh_module_path` is what discovery of zsh's
/// line-editor module found.
pub fn build_modules(requested_modules: Vec<ProbeModuleConfig>, zsh_module_path: Option<String>) -> (r: (
    Vec<SidecarProbeModule>,
    Vec<ModuleStatus>,
))
    ensures
        r.0@.map_values(|m: SidecarProbeModule| m.spec_id()) == runnable_ids(
            requested_ids(requested_modules@),
            zsh_module_path is Some,
        ),
        forall|i: int|
            0 <= i < r.0@.len() ==> (#[trigger] r.0@[i]).runs_preset(zsh_module_path.deep_view()),
        r.1@.len() == refused(requested_ids(requested_modules@), zsh_module_path is Some).len(),
        forall|i: int|
            0 <= i < r.1@.len() ==> status_is(
                #[trigger] r.1@[i],
                refused(requested_ids(requested_modules@), zsh_module_path is Some)[i],
            ),
{
    let ghost ids = requested_ids(requested_modules@);
    let ghost found = zsh_module_path is Some;
    let ghost zsh_view = zsh_module_path.deep_view();
    let mut runnable_modules: Vec<SidecarProbeModule> = Vec::new();
    let mut statuses: Vec<ModuleStatus> = Vec::new();
    let mut i: usize = 0;
    while i < requested_modules.len()
        invariant
            i <= requested_modules.len(),
            ids == requested_ids(requested_modules@),
            found == zsh_module_path is Some,
            zsh_view == zsh_module_path.deep_view(),
            runnable_modules@.map_values(|m: SidecarProbeModule| m.spec_id()) == runnable_ids(
                ids.take(i as int),
                found,
            ),
            forall|k: int|
                0 <= k < runnable_modules@.len() ==> (#[trigger] runnable_modules@[k]).runs_preset(
                    zsh_view,
                ),
            statuses@.len() == refused(ids.take(i as int), found).len(),
            forall|k: int|
                0 <= k < statuses@.len() ==> status_is(
                    #[trigger] statuses@[k],
                    refused(ids.take(i as int), found)[k],
                ),
        decreases requested_modules.len() - i,
    {
        let ghost before_modules = runnable_modules@;
        let ghost before_statuses = statuses@;
        proof {
            assert(ids.take(i + 1).drop_last() =~= ids.take(i as int));
            assert(ids.take(i + 1).last() == requested_modules@[i as int].module);
        }
        match requested_modules[i].module {
            ProbeModuleId::KeyboardInput => {
                runnable_modules.push(SidecarProbeModule::Keyboard(KeyboardInputModule::new()));
            },
            ProbeModuleId::DnsQueries => {
                statuses.push(
                    ModuleStatus {
                        module: ProbeModuleId::DnsQueries,
                        state: ModuleState::Unsupported,
                        detail: Some(String::from_str("dns sidecar probe is not implemented yet")),
                    },
                );
            },
            ProbeModuleId::ShellCommands => {
                let path = match &zsh_module_path {
                    Some(p) => Some(p.clone()),
                    None => None,
                };
                match ShellCommandModule::new(path) {
                    Ok(module) => runnable_modules.push(SidecarProbeModule::Shell(module)),
                    Err(error) => statuses.push(
                        ModuleStatus {
                            module: ProbeModuleId::ShellCommands,
                            state: ModuleState::Failed,
                            detail: Some(error),
                        },
                    ),
                }
            },
        }
        proof {
            assert(runnable_modules@.map_values(|m: SidecarProbeModule| m.spec_id())
                =~= runnable_ids(ids.take(i + 1), found));
            assert forall|k: int| 0 <= k < statuses@.len() implies status_is(
                #[trigger] statuses@[k],
                refused(ids.take(i + 1), found)[k],
            ) by {
                if k < before_statuses.len() {
                    assert(statuses@[k] == before_statuses[k]);
                }
            }
            assert forall|k: int| 0 <= k < runnable_modules@.len() implies (
            #[trigger] runnable_modules@[k]).runs_preset(zsh_view) by {
                if k < before_modules.len() {
                    assert(runnable_modules@[k] == before_modules[k]);
                }
            }
        }
        i += 1;
    }
    assert(ids.take(requested_modules.len() as int) =~= ids);
    (runnable_modules, statuses)
}

/// Every requested module is accounted for exactly once: it either runs or
/// is reported as refused.
pub proof fn law_every_request_answered(ids: Seq<ProbeModuleId>, found: bool)
    ensures
        runnable_ids(ids, found).len() + refused(ids, found).len() == ids.len(),
    decreases ids.len(),
{
    if ids.len() > 0 {
        law_every_request_answered(ids.drop_last(), found);
    }
}

/// Why a sidecar session could not start.
#[derive(Clone, Copy, Debug, PartialEq, Eq, Structural)]
pub enum SidecarSessionError {
    /// The server speaks another protocol version.
    UnsupportedProtocolVersion(u32),
    /// The server asked for a shutdown before any probe ran.
    ShutdownRequested,
    /// None of the requested probes can run.
    NoSupportedProbes,
}

/// A started session runs the runnable modules, in request order, each with
/// its preset, and reports, at the current protocol version, the refused
/// modules followed by every running module as running.
pub open spec fn session_started(
    ids: Seq<ProbeModuleId>,
    found: bool,
    zsh_module_path: Option<Seq<char>>,
    running: Seq<SidecarProbeModule>,
    status: SidecarMessage,
) -> bool {
    &&& running.map_values(|m: SidecarProbeModule| m.spec_id()) == runnable_ids(ids, found)
    &&& forall|i: int| 0 <= i < running.len() ==> (#[trigger] running[i]).runs_preset(zsh_module_path)
    &&& status matches SidecarMessage::Status { protocol_version: v, modules: statuses }
    &&& v == SIDECAR_PROTOCOL_VERSION
    &&& statuses@.len() == refused(ids, found).len() + running.len()
    &&& forall|i: int|
        0 <= i < refused(ids, found).len() ==> status_is(
            #[trigger] statuses@[i],
            refused(ids, found)[i],
        )
    &&& forall|j: int|
        0 <= j < running.len() ==> {
            let s = #[trigger] statuses@[refused(ids, found).len() + j];
            s.module == running[j].spec_id() && s.state == ModuleState::Running && s.detail is None
        }
}

/// Starts a sidecar session from the server's first message: the modules to
/// run and the status message to send back, which lists the refused modules
/// and then every running module as running.
pub fn start_session(message: ServerMessage, zsh_module_path: Option<String>) -> (r: Result<
    (Vec<SidecarProbeModule>, SidecarMessage),
    SidecarSessionError,
>)
    ensures
        match message {
            ServerMessage::Shutdown { .. } => r == Err::<
                (Vec<SidecarProbeModule>, SidecarMessage),
                SidecarSessionError,
            >(SidecarSessionError::ShutdownRequested),
            ServerMessage::Configure { protocol_version, modules } => {
                let ids = requested_ids(modules@);
                let found = zsh_module_path is Some;
                if protocol_version != SIDECAR_PROTOCOL_VERSION {
                    r == Err::<(Vec<SidecarProbeModule>, SidecarMessage), SidecarSessionError>(
                        SidecarSessionError::UnsupportedProtocolVersion(protocol_version),
                    )
                } else if runnable_ids(ids, found).len() == 0 {
                    r == Err::<(Vec<SidecarProbeModule>, SidecarMessage), SidecarSessionError>(
                        SidecarSessionError::NoSupportedProbes,
                    )
                } else {
                    r matches Ok((running, status)) && session_started(
                        ids,
                        found,
                        zsh_module_path.deep_view(),
                        running@,
                        status,
                    )
                }
            },
        },
{
    let requested = match message {
        ServerMessage::Configure { protocol_version, modules } => {
            if protocol_version != SIDECAR_PROTOCOL_VERSION {
                return Err(SidecarSessionError::UnsupportedProtocolVersion(protocol_version));
            }
            modules
        },
        ServerMessage::Shutdown { .. } => {
            return Err(SidecarSessionError::ShutdownRequested);
        },
    };
    let (modules, mut statuses) = build_modules(requested, zsh_module_path);
    if modules.len() == 0 {
        return Err(SidecarSessionError::NoSupportedProbes);
    }
    let ghost refused_count = statuses@.len();
    let ghost before = statuses@;
    let mut i: usize = 0;
    while i < modules.len()
        invariant
            i <= modules.len(),
            statuses@.len() == refused_count + i,
            forall|k: int| 0 <= k < refused_count ==> #[trigger] statuses@[k] == before[k],
            forall|j: int|
                0 <= j < i ==> {
                    let s = #[trigger] statuses@[refused_count + j];
                    s.module == modules@[j].spec_id() && s.state == ModuleState::Running
                        && s.detail is None
                },
        decreases modules.len() - i,
    {
        statuses.push(ModuleStatus { module: modules[i].id(), state: ModuleState::Running, detail: None });
        i += 1;
    }
    Ok((modules, SidecarMessage::Status { protocol_version: SIDECAR_PROTOCOL_VERSION, modules: statuses }))
}

/// `f(value)` when `condition` holds, else `value` unchanged.
pub fn pipe_if<T, F: FnOnce(T) -> T>(value: T, condition: bool, f: F) -> (r: T)
    requires
        condition ==> f.requires((value,)),
    ensures
        condition ==> f.ensures((value,), r),
        !condition ==> r == value,
{
    if condition {
        f(value)
    } else {
        value
    }
}

/// A program and its arguments.
pub type TraceCommand = (String, Vec<String>);

/// The given program with its arguments, or `current` when none is given.
pub open spec fn given_or(
    program: Option<String>,
    args: Vec<String>,
    current: (String, Vec<String>),
) -> (String, Vec<String>) {
    match program {
        Some(p) => (p, args),
        None => current,
    }
}

/// The trace command of the input sidecar: the given program and
/// arguments when a program is given, else the preset (by default the
/// bpftrace `input_event` preset).
pub fn resolve_trace_command(
    trace_preset: Option<InputTracePreset>,
    trace_program: Option<String>,
    trace_arg: Vec<String>,
) -> (r: (String, Vec<String>))
    ensures
        match trace_program {
            Some(p) => r.0 == p && r.1 == trace_arg,
            None => r.0@ == "bpftrace"@ && r.1.deep_view() == seq!["-e"@, input_event_probe_program()],
        },
{
    let preset = match trace_preset {
        Some(p) => p,
        None => InputTracePreset::BpftraceInputEvent,
    };
    let has_program = trace_program.is_some();
    pipe_if(
        preset.command(),
        has_program,
        move |current: TraceCommand| -> (chosen: TraceCommand)
            ensures
                chosen == given_or(trace_program, trace_arg, current)
            {
                match trace_program {
                    Some(p) => (p, trace_arg),
                    None => current,
                }
            },
    )
}

/// Where the server's keyboard trace comes from.
#[derive(Debug)]
pub enum KeyboardTraceSource {
    /// A sidecar connecting to this socket path.
    Socket(String),
    /// A command started by the server.
    Command { program: String, args: Vec<String> },
}

/// The keyboard trace the server runs: a socket when one is given, else the
/// preset's command, else the given program with its arguments, else none.
pub fn select_keyboard_trace_source(
    input_trace_socket: Option<String>,
    input_trace_preset: Option<InputTracePreset>,
    input_trace_program: Option<String>,
    input_trace_arg: Vec<String>,
) -> (r: Option<KeyboardTraceSource>)
    ensures
        match input_trace_socket {
            Some(s) => r == Some(KeyboardTraceSource::Socket(s)),
            None => match input_trace_preset {
                Some(_) => r matches Some(KeyboardTraceSource::Command { program, args })
                    && program@ == "bpftrace"@ && args.deep_view() == seq![
                    "-e"@,
                    input_event_probe_program(),
                ],
                None => match input_trace_program {
                    Some(p) => r == Some(
                        KeyboardTraceSource::Command { program: p, args: input_trace_arg },
                    ),
                    None => r is None,
                },
            },
        },
{
    if let Some(socket) = input_trace_socket {
        return Some(KeyboardTraceSource::Socket(socket));
    }
    match input_trace_preset {
        Some(preset) => {
            let (program, args) = preset.command();
            Some(KeyboardTraceSource::Command { program, args })
        },
        None => match input_trace_program {
            Some(program) => Some(KeyboardTraceSource::Command { program, args: input_trace_arg }),
            None => None,
        },
    }
}

} // verus!
