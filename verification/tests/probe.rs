use watchmedo::probe::{
    parse_bpftrace_input_event_line, parse_bpftrace_shell_command_line, parse_field,
    parse_remainder_field, shell_executable, InputTracePreset, KeyboardRawEventPayload,
    ProbeModuleConfig, ProbeModuleId, ServerMessage, ShellCommandPayload, ShellTracePreset,
    SIDECAR_PROTOCOL_VERSION,
};

#[test]
fn keyboard_preset_expands_to_expected_command() {
    let (program, args) = InputTracePreset::BpftraceInputEvent.command();

    assert_eq!(program, "bpftrace");
    assert_eq!(args[0], "-e");
    assert!(args[1].contains("kprobe:input_event"));
}

#[test]
fn parses_bpftrace_input_event_lines() {
    let parsed = parse_bpftrace_input_event_line("dev_ptr=0xffff894a62670000 type=1 code=20 value=1")
        .expect("expected valid parse result")
        .expect("expected parsed payload");

    assert_eq!(
        parsed,
        KeyboardRawEventPayload::new(Some("0xffff894a62670000".to_owned()), 1, 20, 1)
    );
}

#[test]
fn ignores_non_matching_lines() {
    assert!(parse_bpftrace_input_event_line("Attached 1 probe")
        .expect("expected ignored line")
        .is_none());
}

#[test]
fn shell_preset_expands_to_expected_command() {
    let (program, args) = ShellTracePreset::BpftraceZshZleread.program("/usr/lib/zsh/5.9/zsh/zle.so");

    assert_eq!(program, "bpftrace");
    assert_eq!(args[0], "-e");
    assert!(args[1].contains("zleread"));
}

#[test]
fn parses_bpftrace_shell_command_lines() {
    let parsed = parse_bpftrace_shell_command_line("pid=133582 uid=1000 cmd=echo hello")
        .expect("expected valid parse result")
        .expect("expected parsed payload");

    assert_eq!(parsed, ShellCommandPayload::new(133582, 1000, "echo hello"));
    assert_eq!(parsed.executable.as_deref(), Some("echo"));
}

#[test]
fn parses_colon_form_shell_command_lines() {
    let parsed = parse_bpftrace_shell_command_line("01:32:49 pid=133582 uid=1000 cmd: date +%s")
        .expect("expected valid parse result")
        .expect("expected parsed payload");

    assert_eq!(parsed.command, "date +%s");
    assert_eq!(parsed.executable.as_deref(), Some("date"));
}

#[test]
fn shell_preset_embeds_module_path_exactly() {
    let (_, args) = ShellTracePreset::BpftraceZshZleread.program("/usr/lib/zsh/5.9/zsh/zle.so");
    assert_eq!(
        args,
        vec![
            "-e".to_owned(),
            "uretprobe:/usr/lib/zsh/5.9/zsh/zle.so:zleread { printf(\"pid=%d uid=%d cmd=%s\\n\", pid, uid, str(retval)); }".to_owned(),
        ]
    );
}

#[test]
fn keyboard_preset_args_are_exact() {
    let (_, args) = InputTracePreset::BpftraceInputEvent.command();
    assert_eq!(
        args,
        vec![
            "-e".to_owned(),
            "kprobe:input_event { printf(\"dev_ptr=%p type=%u code=%u value=%d\\n\", arg0, arg1, arg2, arg3); }".to_owned(),
        ]
    );
}

#[test]
fn input_event_line_errors_name_the_first_bad_field() {
    assert_eq!(parse_bpftrace_input_event_line("dev_ptr=0x1 code=2 value=1"), Err("missing field"));
    assert_eq!(parse_bpftrace_input_event_line("dev_ptr= "), Err("missing field value"));
    assert_eq!(parse_bpftrace_input_event_line("dev_ptr=0x1 type=x code=2 value=1"), Err("invalid type field"));
    assert_eq!(parse_bpftrace_input_event_line("dev_ptr=0x1 type=1 code=70000 value=1"), Err("invalid code field"));
    assert_eq!(parse_bpftrace_input_event_line("dev_ptr=0x1 type=1 code=2 value=1.5"), Err("invalid value field"));
    assert_eq!(parse_bpftrace_input_event_line("dev_ptr=0x1 type=1 code=2 value=-"), Err("invalid value field"));
}

#[test]
fn input_event_line_accepts_signs_and_extremes() {
    let parsed = parse_bpftrace_input_event_line("noise dev_ptr=0x1\ttype=+65535  code=00020 value=-2147483648")
        .unwrap()
        .unwrap();
    assert_eq!(parsed, KeyboardRawEventPayload::new(Some("0x1".to_owned()), 65535, 20, i32::MIN));
    assert_eq!(
        parse_bpftrace_input_event_line("dev_ptr=0x1 type=1 code=2 value=2147483648"),
        Err("invalid value field")
    );
    assert_eq!(
        parse_bpftrace_input_event_line("dev_ptr=0x1 type=-1 code=2 value=1"),
        Err("invalid type field")
    );
}

#[test]
fn shell_line_errors() {
    assert_eq!(parse_bpftrace_shell_command_line("hello"), Ok(None));
    assert_eq!(parse_bpftrace_shell_command_line("pid=1 uid=2"), Err("missing command field"));
    assert_eq!(parse_bpftrace_shell_command_line("pid=1 uid=2 cmd=   "), Err("empty command field"));
    assert_eq!(parse_bpftrace_shell_command_line("pid=a uid=2 cmd=ls"), Err("invalid pid field"));
    assert_eq!(parse_bpftrace_shell_command_line("pid=1 uid=4294967296 cmd=ls"), Err("invalid uid field"));
    assert_eq!(parse_bpftrace_shell_command_line("pid=1 cmd=ls"), Err("missing field"));
}

#[test]
fn field_helpers_match_their_descriptions() {
    assert_eq!(parse_field("a=1 b= \u{3000}x y", "b"), Ok("x"));
    assert_eq!(parse_field("a=1", "b"), Err("missing field"));
    assert_eq!(parse_remainder_field("x cmd:  ls -la \n", "cmd:"), Some("ls -la"));
    assert_eq!(parse_remainder_field("x", "cmd:"), None);
    assert_eq!(shell_executable("  git status"), Some("git".to_owned()));
    assert_eq!(shell_executable(" \t "), None);
}

#[test]
fn configure_message_uses_protocol_version() {
    let message = ServerMessage::configure(vec![ProbeModuleConfig::enabled(ProbeModuleId::KeyboardInput)]);
    match message {
        ServerMessage::Configure { protocol_version, modules } => {
            assert_eq!(protocol_version, SIDECAR_PROTOCOL_VERSION);
            assert_eq!(modules.len(), 1);
            assert_eq!(modules[0].module, ProbeModuleId::KeyboardInput);
            assert!(modules[0].params.is_null());
        }
        ServerMessage::Shutdown { .. } => panic!("expected configure"),
    }
}

#[test]
fn parser_reads_back_printed_probe_lines_after_noise() {
    let cases: Vec<(&str, &str, u16, u16, i32)> = vec![
        ("", "0xffff8881", 1, 30, 1),
        ("\u{1b}[0mtty noise dev_ptr", "0xabc=def", 0, 0, -2147483648),
        ("Attaching 1 probe... ", "ptr", 65535, 65535, 2147483647),
        ("x", "d", 4, 4, 0),
    ];
    for (noise, dev, t, c, v) in cases {
        let line = format!("{noise}dev_ptr={dev} type={t} code={c} value={v}");
        assert_eq!(
            parse_bpftrace_input_event_line(&line),
            Ok(Some(KeyboardRawEventPayload::new(Some(dev.to_owned()), t, c, v))),
        );
    }
}
