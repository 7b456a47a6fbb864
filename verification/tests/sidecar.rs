use watchmedo::probe::{
    InputTracePreset, ModuleState, ProbeModuleConfig, ProbeModuleId, ServerMessage, SidecarMessage,
};
use watchmedo::sidecar::{
    build_modules, pipe_if, resolve_trace_command, select_keyboard_trace_source, start_session,
    KeyboardTraceSource, SidecarProbeModule, SidecarSessionError,
};

#[test]
fn keeps_keyboard_runnable_and_marks_future_modules_unsupported() {
    let (modules, statuses) = build_modules(
        vec![
            ProbeModuleConfig::enabled(ProbeModuleId::KeyboardInput),
            ProbeModuleConfig::enabled(ProbeModuleId::DnsQueries),
        ],
        None,
    );

    assert_eq!(modules.len(), 1);
    assert_eq!(modules[0].id(), ProbeModuleId::KeyboardInput);
    assert!(statuses.iter().any(|status| {
        status.module == ProbeModuleId::DnsQueries && status.state == ModuleState::Unsupported
    }));
}

#[test]
fn shell_module_is_runnable_or_returns_failure_status() {
    for discovered in [Some("/usr/lib/zsh/5.9/zsh/zle.so".to_owned()), None] {
        let (modules, statuses) =
            build_modules(vec![ProbeModuleConfig::enabled(ProbeModuleId::ShellCommands)], discovered);

        assert!(modules.iter().all(|module| module.id() == ProbeModuleId::ShellCommands));
        assert!(modules.len() + statuses.len() >= 1);
    }
}

#[test]
fn shell_module_uses_discovered_path_or_reports_failure() {
    let (modules, statuses) = build_modules(
        vec![ProbeModuleConfig::enabled(ProbeModuleId::ShellCommands)],
        Some("/usr/lib/zsh/5.9/zsh/zle.so".to_owned()),
    );
    assert!(statuses.is_empty());
    match &modules[0] {
        SidecarProbeModule::Shell(m) => {
            assert_eq!(m.program, "bpftrace");
            assert!(m.args[1].starts_with("uretprobe:/usr/lib/zsh/5.9/zsh/zle.so:zleread"));
        }
        SidecarProbeModule::Keyboard(_) => panic!("expected shell module"),
    }
    let (modules, statuses) =
        build_modules(vec![ProbeModuleConfig::enabled(ProbeModuleId::ShellCommands)], None);
    assert!(modules.is_empty());
    assert_eq!(statuses[0].state, ModuleState::Failed);
    assert_eq!(
        statuses[0].detail.as_deref(),
        Some("failed to locate zsh zle module for shell probe")
    );
}

#[test]
fn sidecar_defaults_to_bpftrace_preset() {
    let (program, args) = resolve_trace_command(None, None, Vec::new());
    assert_eq!(program, "bpftrace");
    assert_eq!(args[0], "-e");
    assert!(args[1].contains("kprobe:input_event"));
}

#[test]
fn trace_program_overrides_preset() {
    let (program, args) = resolve_trace_command(
        Some(InputTracePreset::BpftraceInputEvent),
        Some("cat".to_owned()),
        vec!["/tmp/trace".to_owned()],
    );
    assert_eq!(program, "cat");
    assert_eq!(args, vec!["/tmp/trace".to_owned()]);
    assert_eq!(pipe_if(3, false, |x: i32| x + 1), 3);
    assert_eq!(pipe_if(3, true, |x: i32| x + 1), 4);
}

#[test]
fn bpftrace_input_event_preset_expands_to_expected_command() {
    let (program, args) = InputTracePreset::BpftraceInputEvent.command();

    assert_eq!(program, "bpftrace");
    assert_eq!(args, vec![
        "-e".to_owned(),
        "kprobe:input_event { printf(\"dev_ptr=%p type=%u code=%u value=%d\\n\", arg0, arg1, arg2, arg3); }".to_owned(),
    ]);
}

#[test]
fn trace_source_prefers_socket_then_preset_then_program() {
    match select_keyboard_trace_source(
        Some("/tmp/s.sock".to_owned()),
        Some(InputTracePreset::BpftraceInputEvent),
        None,
        Vec::new(),
    ) {
        Some(KeyboardTraceSource::Socket(path)) => assert_eq!(path, "/tmp/s.sock"),
        other => panic!("unexpected {other:?}"),
    }
    match select_keyboard_trace_source(None, Some(InputTracePreset::BpftraceInputEvent), Some("x".to_owned()), Vec::new()) {
        Some(KeyboardTraceSource::Command { program, .. }) => assert_eq!(program, "bpftrace"),
        other => panic!("unexpected {other:?}"),
    }
    match select_keyboard_trace_source(None, None, Some("x".to_owned()), vec!["-y".to_owned()]) {
        Some(KeyboardTraceSource::Command { program, args }) => {
            assert_eq!(program, "x");
            assert_eq!(args, vec!["-y".to_owned()]);
        }
        other => panic!("unexpected {other:?}"),
    }
    assert!(select_keyboard_trace_source(None, None, None, vec!["-y".to_owned()]).is_none());
}

#[test]
fn session_start_checks_version_and_reports_statuses() {
    let wrong = ServerMessage::Configure { protocol_version: 2, modules: Vec::new() };
    assert_eq!(start_session(wrong, None).err(), Some(SidecarSessionError::UnsupportedProtocolVersion(2)));
    let shutdown = ServerMessage::Shutdown { protocol_version: 1 };
    assert_eq!(start_session(shutdown, None).err(), Some(SidecarSessionError::ShutdownRequested));
    let dns_only = ServerMessage::configure(vec![ProbeModuleConfig::enabled(ProbeModuleId::DnsQueries)]);
    assert_eq!(start_session(dns_only, None).err(), Some(SidecarSessionError::NoSupportedProbes));

    let both = ServerMessage::configure(vec![
        ProbeModuleConfig::enabled(ProbeModuleId::DnsQueries),
        ProbeModuleConfig::enabled(ProbeModuleId::KeyboardInput),
    ]);
    let (running, status) = start_session(both, None).expect("session should start");
    assert_eq!(running.len(), 1);
    match status {
        SidecarMessage::Status { protocol_version, modules } => {
            assert_eq!(protocol_version, 1);
            assert_eq!(modules.len(), 2);
            assert_eq!(modules[0].module, ProbeModuleId::DnsQueries);
            assert_eq!(modules[0].state, ModuleState::Unsupported);
            assert_eq!(modules[1].module, ProbeModuleId::KeyboardInput);
            assert_eq!(modules[1].state, ModuleState::Running);
            assert!(modules[1].detail.is_none());
        }
        SidecarMessage::Event { .. } => panic!("expected status"),
    }
}
