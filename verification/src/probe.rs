//! The probe sidecar protocol: module identifiers, configuration and status
//! messages, the bpftrace command presets and the parsers for the lines those
//! commands print.
use crate::clock::now_ms;
use crate::text::{
    chars_of, contains_text, copy_range, decimal, find, find_chars, first_token, first_token_range,
    is_ws, lemma_decimal, lemma_digit_not_ws, lemma_find_first, lemma_find_from_extend,
    lemma_first_token_run, lemma_mismatch, lemma_parse_decimal, lemma_parse_signed_decimal,
    lemma_signed_decimal_no_ws, occurs_at_index, parse_i32, parse_i32_range, parse_unsigned,
    parse_unsigned_range, signed_decimal, trim, trim_range,
};
use vstd::prelude::*;

verus! {

/// The version of the sidecar protocol spoken by this library.
pub const SIDECAR_PROTOCOL_VERSION: u32 = 1;

#[verifier::external_type_specification]
#[verifier::external_body]
pub struct ExJsonValue(serde_json::Value);

/// `serde_json::Value::Null`. A JSON value is opaque here, so nothing is
/// stated of the result.
#[verifier::external_body]
fn json_null() -> serde_json::Value {
    serde_json::Value::Null
}

/// A probe the sidecar can run.
#[derive(Clone, Copy, Debug, PartialEq, Eq, Structural, Hash)]
pub enum ProbeModuleId {
    KeyboardInput,
    DnsQueries,
    ShellCommands,
}

/// A request to run one probe, with its JSON parameters.
#[derive(Debug)]
pub struct ProbeModuleConfig {
    pub module: ProbeModuleId,
    pub params: serde_json::Value,
}

impl ProbeModuleConfig {
    /// A request for `module` without parameters (JSON `null`).
    pub fn enabled(module: ProbeModuleId) -> (r: Self)
        ensures
            r.module == module,
    {
        ProbeModuleConfig { module, params: json_null() }
    }
}

/// A message from the server to the sidecar.
#[derive(Debug)]
pub enum ServerMessage {
    Configure { protocol_version: u32, modules: Vec<ProbeModuleConfig> },
    Shutdown { protocol_version: u32 },
}

impl ServerMessage {
    /// A configuration message at the current protocol version.
    pub fn configure(modules: Vec<ProbeModuleConfig>) -> (r: Self)
        ensures
            r == (ServerMessage::Configure { protocol_version: SIDECAR_PROTOCOL_VERSION, modules }),
    {
        ServerMessage::Configure { protocol_version: SIDECAR_PROTOCOL_VERSION, modules }
    }
}

/// The lifecycle state of a probe module in the sidecar.
#[derive(Clone, Copy, Debug, PartialEq, Eq, Structural)]
pub enum ModuleState {
    Starting,
    Running,
    Stopped,
    Failed,
    Unsupported,
}

/// The state of one probe module, with an optional explanation.
#[derive(Clone, Debug)]
pub struct ModuleStatus {
    pub module: ProbeModuleId,
    pub state: ModuleState,
    pub detail: Option<String>,
}

/// One raw Linux `input_event` as printed by the keyboard probe.
#[derive(Clone, Debug, PartialEq, Eq)]
pub struct KeyboardRawEventPayload {
    pub device_ptr: Option<String>,
    pub event_type: u16,
    pub code: u16,
    pub value: i32,
}

impl KeyboardRawEventPayload {
    pub fn new(device_ptr: Option<String>, event_type: u16, code: u16, value: i32) -> (r: Self)
        ensures
            r.device_ptr == device_ptr,
            r.event_type == event_type,
            r.code == code,
            r.value == value,
    {
        KeyboardRawEventPayload { device_ptr, event_type, code, value }
    }
}

/// One command line read by an interactive shell.
#[derive(Clone, Debug, PartialEq, Eq)]
pub struct ShellCommandPayload {
    pub pid: u32,
    pub uid: u32,
    pub command: String,
    pub executable: Option<String>,
}

impl ShellCommandPayload {
    /// The payload for `command`; its executable is the first
    /// whitespace-separated word of the command.
    pub fn new(pid: u32, uid: u32, command: &str) -> (r: Self)
        ensures
            r.pid == pid,
            r.uid == uid,
            r.command@ == command@,
            r.executable.deep_view() == first_token(command@),
    {
        let executable = shell_executable(command);
        ShellCommandPayload { executable, pid, uid, command: command.to_owned() }
    }
}

/// The data carried by a probe event.
#[derive(Debug)]
pub enum ProbeEventPayload {
    KeyboardRawInput(KeyboardRawEventPayload),
    ShellCommand(ShellCommandPayload),
    Json(serde_json::Value),
}

/// An event observed by a probe module.
#[derive(Debug)]
pub struct ProbeEvent {
    pub module: ProbeModuleId,
    pub event_name: String,
    pub captured_at_ms: u64,
    pub payload: ProbeEventPayload,
}

/// A message from the sidecar to the server.
#[derive(Debug)]
pub enum SidecarMessage {
    Status { protocol_version: u32, modules: Vec<ModuleStatus> },
    Event { protocol_version: u32, event: ProbeEvent },
}

impl SidecarMessage {
    /// An event message at the current protocol version, stamped with the
    /// wall-clock time (whatever the clock reads).
    pub fn event(module: ProbeModuleId, event_name: &str, payload: ProbeEventPayload) -> (r: Self)
        ensures
            r matches SidecarMessage::Event { protocol_version, event } && protocol_version
                == SIDECAR_PROTOCOL_VERSION && event.module == module && event.event_name@
                == event_name@ && event.payload == payload,
    {
        SidecarMessage::Event {
            protocol_version: SIDECAR_PROTOCOL_VERSION,
            event: ProbeEvent {
                module,
                event_name: event_name.to_owned(),
                captured_at_ms: now_ms(),
                payload,
            },
        }
    }
}

/// The bpftrace program that prints every kernel `input_event` call.
pub open spec fn input_event_probe_program() -> Seq<char> {
    "kprobe:input_event { printf(\"dev_ptr=%p type=%u code=%u value=%d\\n\", arg0, arg1, arg2, arg3); }"@
}

/// The bpftrace program that prints every line read by zsh's line editor,
/// whose module lies at `zsh_module_path`.
pub open spec fn zleread_probe_program(zsh_module_path: Seq<char>) -> Seq<char> {
    "uretprobe:"@ + zsh_module_path
        + ":zleread { printf(\"pid=%d uid=%d cmd=%s\\n\", pid, uid, str(retval)); }"@
}

/// A built-in keyboard trace command.
#[derive(Clone, Copy, Debug, PartialEq, Eq, Structural)]
pub enum InputTracePreset {
    BpftraceInputEvent,
}

impl InputTracePreset {
    /// The program and arguments of the preset.
    pub fn command(self) -> (r: (String, Vec<String>))
        ensures
            r.0@ == "bpftrace"@,
            r.1.deep_view() == seq!["-e"@, input_event_probe_program()],
    {
        match self {
            InputTracePreset::BpftraceInputEvent => {
                let args = vec![
                    String::from_str("-e"),
                    String::from_str(
                        "kprobe:input_event { printf(\"dev_ptr=%p type=%u code=%u value=%d\\n\", arg0, arg1, arg2, arg3); }",
                    ),
                ];
                assert(args.deep_view() =~= seq!["-e"@, input_event_probe_program()]);
                (String::from_str("bpftrace"), args)
            },
        }
    }
}

/// A built-in shell trace command.
#[derive(Clone, Copy, Debug, PartialEq, Eq, Structural)]
pub enum ShellTracePreset {
    BpftraceZshZleread,
}

impl ShellTracePreset {
    /// The program and arguments of the preset for the zsh line-editor module
    /// at `zsh_module_path`.
    pub fn program(self, zsh_module_path: &str) -> (r: (String, Vec<String>))
        ensures
            r.0@ == "bpftrace"@,
            r.1.deep_view() == seq!["-e"@, zleread_probe_program(zsh_module_path@)],
    {
        match self {
            ShellTracePreset::BpftraceZshZleread => {
                let mut probe = String::from_str("uretprobe:");
                probe.append(zsh_module_path);
                probe.append(
                    ":zleread { printf(\"pid=%d uid=%d cmd=%s\\n\", pid, uid, str(retval)); }",
                );
                let args = vec![String::from_str("-e"), probe];
                assert(args.deep_view() =~= seq!["-e"@, zleread_probe_program(zsh_module_path@)]);
                (String::from_str("bpftrace"), args)
            },
        }
    }
}

/// `parse_field(payload, key)`: the first whitespace-delimited word after the
/// first `key=` in `payload`.
pub open spec fn spec_parse_field(payload: Seq<char>, key: Seq<char>) -> Result<
    Seq<char>,
    Seq<char>,
> {
    match find(payload, key.push('=')) {
        None => Err("missing field"@),
        Some(i) => match first_token(
            payload.subrange((i + key.len() + 1) as int, payload.len() as int),
        ) {
            None => Err("missing field value"@),
            Some(t) => Ok(t),
        },
    }
}

/// `parse_remainder_field(payload, token)`: everything after the first
/// `token` in `payload`, trimmed.
pub open spec fn spec_parse_remainder_field(payload: Seq<char>, token: Seq<char>) -> Option<
    Seq<char>,
> {
    match find(payload, token) {
        None => None,
        Some(i) => Some(trim(payload.subrange((i + token.len()) as int, payload.len() as int))),
    }
}

/// A field read as an unsigned integer no larger than `max`; `invalid` when
/// its word is not one.
pub open spec fn spec_unsigned_field(
    payload: Seq<char>,
    key: Seq<char>,
    max: nat,
    invalid: Seq<char>,
) -> Result<nat, Seq<char>> {
    match spec_parse_field(payload, key) {
        Err(e) => Err(e),
        Ok(t) => match parse_unsigned(t, max) {
            None => Err(invalid),
            Some(v) => Ok(v),
        },
    }
}

/// A field read as an `i32`; `invalid` when its word is not one.
pub open spec fn spec_i32_field(payload: Seq<char>, key: Seq<char>, invalid: Seq<char>) -> Result<
    int,
    Seq<char>,
> {
    match spec_parse_field(payload, key) {
        Err(e) => Err(e),
        Ok(t) => match parse_i32(t) {
            None => Err(invalid),
            Some(v) => Ok(v),
        },
    }
}

/// The fields of a keyboard probe line: device pointer, event type, code and
/// value.
pub struct InputEventFields {
    pub device_ptr: Seq<char>,
    pub event_type: u16,
    pub code: u16,
    pub value: i32,
}

/// What the keyboard probe parser makes of `line`: `Ok(None)` when it holds
/// no `dev_ptr=` marker, else the four fields read after the marker, or the
/// first error met reading them in order.
pub open spec fn spec_input_event_line(line: Seq<char>) -> Result<
    Option<InputEventFields>,
    Seq<char>,
> {
    match find(line, "dev_ptr="@) {
        None => Ok(None),
        Some(m) => {
            let p = line.subrange(m as int, line.len() as int);
            match spec_parse_field(p, "dev_ptr"@) {
                Err(e) => Err(e),
                Ok(dev) => match spec_unsigned_field(p, "type"@, 65535, "invalid type field"@) {
                    Err(e) => Err(e),
                    Ok(t) => match spec_unsigned_field(p, "code"@, 65535, "invalid code field"@) {
                        Err(e) => Err(e),
                        Ok(c) => match spec_i32_field(p, "value"@, "invalid value field"@) {
                            Err(e) => Err(e),
                            Ok(v) => Ok(
                                Some(
                                    InputEventFields {
                                        device_ptr: dev,
                                        event_type: t as u16,
                                        code: c as u16,
                                        value: v as i32,
                                    },
                                ),
                            ),
                        },
                    },
                },
            }
        },
    }
}

/// The command text of a shell probe payload: after `cmd=`, else after
/// `cmd:`.
pub open spec fn spec_shell_command_text(payload: Seq<char>) -> Option<Seq<char>> {
    match spec_parse_remainder_field(payload, "cmd="@) {
        Some(c) => Some(c),
        None => spec_parse_remainder_field(payload, "cmd:"@),
    }
}

/// The fields of a shell probe line: pid, uid and command text.
pub struct ShellCommandFields {
    pub pid: u32,
    pub uid: u32,
    pub command: Seq<char>,
}

/// What the shell probe parser makes of `line`: `Ok(None)` when it holds no
/// `pid=` marker, else pid, uid and the (non-empty, trimmed) command read
/// after the marker, or the first error met.
pub open spec fn spec_shell_command_line(line: Seq<char>) -> Result<
    Option<ShellCommandFields>,
    Seq<char>,
> {
    match find(line, "pid="@) {
        None => Ok(None),
        Some(s) => {
            let p = line.subrange(s as int, line.len() as int);
            match spec_unsigned_field(p, "pid"@, 4294967295, "invalid pid field"@) {
                Err(e) => Err(e),
                Ok(pid) => match spec_unsigned_field(p, "uid"@, 4294967295, "invalid uid field"@) {
                    Err(e) => Err(e),
                    Ok(uid) => match spec_shell_command_text(p) {
                        None => Err("missing command field"@),
                        Some(cmd) => if cmd.len() == 0 {
                            Err("empty command field"@)
                        } else {
                            Ok(
                                Some(
                                    ShellCommandFields {
                                        pid: pid as u32,
                                        uid: uid as u32,
                                        command: cmd,
                                    },
                                ),
                            )
                        },
                    },
                },
            }
        },
    }
}

/// Text before the `dev_ptr=` marker is ignored: a line that starts with the
/// marker parses the same with any prefix in which the marker does not
/// occur before the line.
pub proof fn law_prefix_before_marker_ignored(prefix: Seq<char>, line: Seq<char>)
    requires
        line.len() >= "dev_ptr="@.len(),
        line.subrange(0, "dev_ptr="@.len() as int) == "dev_ptr="@,
        find(prefix + line, "dev_ptr="@) == Some(prefix.len()),
    ensures
        spec_input_event_line(prefix + line) == spec_input_event_line(line),
{
    let whole = prefix + line;
    assert(line.subrange(0, (0 + "dev_ptr="@.len()) as int) =~= "dev_ptr="@);
    assert(find(line, "dev_ptr="@) == Some(0nat));
    assert(whole.subrange(prefix.len() as int, whole.len() as int) =~= line);
    assert(line.subrange(0, line.len() as int) =~= line);
}

/// The line the keyboard probe's bpftrace program prints for one event:
/// `dev_ptr=%p type=%u code=%u value=%d`.
pub open spec fn input_event_probe_line(
    device_ptr: Seq<char>,
    event_type: u16,
    code: u16,
    value: i32,
) -> Seq<char> {
    "dev_ptr="@ + device_ptr + " type="@ + decimal(event_type as nat) + " code="@ + decimal(
        code as nat,
    ) + " value="@ + signed_decimal(value as int)
}

/// Where each piece of a probe line stands.
proof fn lemma_probe_line_layout(d: Seq<char>, t: u16, c: u16, v: i32)
    ensures
        ({
            let p = input_event_probe_line(d, t, c, v);
            let tt = decimal(t as nat);
            let cc = decimal(c as nat);
            let vv = signed_decimal(v as int);
            let o1 = 8 + d.len();
            let ot = o1 + 6;
            let o2 = ot + tt.len();
            let oc = o2 + 6;
            let o3 = oc + cc.len();
            let ov = o3 + 7;
            &&& p.len() == ov + vv.len()
            &&& forall|i: int| 0 <= i < 8 ==> #[trigger] p[i] == "dev_ptr="@[i]
            &&& forall|i: int| 8 <= i < o1 ==> #[trigger] p[i] == d[i - 8]
            &&& forall|i: int| o1 <= i < ot ==> #[trigger] p[i] == " type="@[i - o1]
            &&& forall|i: int| ot <= i < o2 ==> #[trigger] p[i] == tt[i - ot]
            &&& forall|i: int| o2 <= i < oc ==> #[trigger] p[i] == " code="@[i - o2]
            &&& forall|i: int| oc <= i < o3 ==> #[trigger] p[i] == cc[i - oc]
            &&& forall|i: int| o3 <= i < ov ==> #[trigger] p[i] == " value="@[i - o3]
            &&& forall|i: int| ov <= i < ov + vv.len() ==> #[trigger] p[i] == vv[i - ov]
        }),
{
    reveal_strlit("dev_ptr=");
    reveal_strlit(" type=");
    reveal_strlit(" code=");
    reveal_strlit(" value=");
}

/// The keyboard probe line parser reads back every line the probe prints,
/// whatever text comes before the `dev_ptr=` marker: for a device pointer
/// that is non-empty, holds no whitespace and holds none of `type=`,
/// `code=` and `value=`, it gives the pointer, type, code and value printed.
pub proof fn law_parser_reads_back_probe_line(
    noise: Seq<char>,
    device_ptr: Seq<char>,
    event_type: u16,
    code: u16,
    value: i32,
)
    requires
        device_ptr.len() > 0,
        forall|i: int| 0 <= i < device_ptr.len() ==> !is_ws(#[trigger] device_ptr[i]),
        !contains_text(device_ptr, "type="@),
        !contains_text(device_ptr, "code="@),
        !contains_text(device_ptr, "value="@),
        find(noise + "dev_ptr="@, "dev_ptr="@) == Some(noise.len()),
    ensures
        spec_input_event_line(noise + input_event_probe_line(device_ptr, event_type, code, value))
            == Ok::<Option<InputEventFields>, Seq<char>>(
            Some(InputEventFields { device_ptr, event_type, code, value }),
        ),
{
    let line = input_event_probe_line(device_ptr, event_type, code, value);
    let marker = "dev_ptr="@;
    reveal_strlit("dev_ptr=");
    lemma_probe_line_layout(device_ptr, event_type, code, value);
    let rest = line.subrange(8, line.len() as int);
    assert(line =~= marker + rest);
    assert(line.subrange(0, 8) =~= marker);
    lemma_find_from_extend(noise + marker, rest, marker, 0);
    assert((noise + marker) + rest =~= noise + line);
    law_prefix_before_marker_ignored(noise, line);
    lemma_probe_line_fields(device_ptr, event_type, code, value);
}

/// The requirements on the device pointer of a probe line.
spec fn plain_device_ptr(d: Seq<char>) -> bool {
    &&& d.len() > 0
    &&& forall|i: int| 0 <= i < d.len() ==> !is_ws(#[trigger] d[i])
    &&& !contains_text(d, "type="@)
    &&& !contains_text(d, "code="@)
    &&& !contains_text(d, "value="@)
}

/// A probe line read from its marker gives back its fields.
proof fn lemma_probe_line_fields(d: Seq<char>, t: u16, c: u16, v: i32)
    requires
        plain_device_ptr(d),
    ensures
        spec_input_event_line(input_event_probe_line(d, t, c, v)) == Ok::<
            Option<InputEventFields>,
            Seq<char>,
        >(Some(InputEventFields { device_ptr: d, event_type: t, code: c, value: v })),
{
    let p = input_event_probe_line(d, t, c, v);
    reveal_strlit("dev_ptr=");
    lemma_probe_line_layout(d, t, c, v);
    assert(p.subrange(0, 8) =~= "dev_ptr="@);
    lemma_find_first(p, "dev_ptr="@, 0);
    assert(p.subrange(0, p.len() as int) =~= p);
    lemma_probe_field_device(d, t, c, v);
    lemma_probe_field_type(d, t, c, v);
    lemma_probe_field_code(d, t, c, v);
    lemma_probe_field_value(d, t, c, v);
}

/// The device pointer field of a probe line.
proof fn lemma_probe_field_device(d: Seq<char>, t: u16, c: u16, v: i32)
    requires
        plain_device_ptr(d),
    ensures
        spec_parse_field(input_event_probe_line(d, t, c, v), "dev_ptr"@) == Ok::<
            Seq<char>,
            Seq<char>,
        >(d),
{
    reveal_strlit("dev_ptr=");
    reveal_strlit("dev_ptr");
    reveal_strlit(" type=");
    let p = input_event_probe_line(d, t, c, v);
    let o1: int = 8 + d.len() as int;
    lemma_probe_line_layout(d, t, c, v);
    assert(p.subrange(0, 8) =~= "dev_ptr="@);
    lemma_find_first(p, "dev_ptr="@, 0);
    assert("dev_ptr"@.push('=') =~= "dev_ptr="@);
    let x = p.subrange(8, p.len() as int);
    assert forall|m: int| 0 <= m < d.len() implies !is_ws(#[trigger] x[m]) by {
        assert(x[m] == p[8 + m]);
    }
    assert(x[d.len() as int] == p[o1]);
    lemma_first_token_run(x, d.len());
    assert(x.subrange(0, d.len() as int) =~= d);
}

/// The type field of a probe line.
proof fn lemma_probe_field_type(d: Seq<char>, t: u16, c: u16, v: i32)
    requires
        plain_device_ptr(d),
    ensures
        spec_unsigned_field(input_event_probe_line(d, t, c, v), "type"@, 65535, "invalid type field"@)
            == Ok::<nat, Seq<char>>(t as nat),
{
    reveal_strlit("dev_ptr=");
    reveal_strlit(" type=");
    reveal_strlit(" code=");
    reveal_strlit("type");
    reveal_strlit("type=");
    let p = input_event_probe_line(d, t, c, v);
    let tt = decimal(t as nat);
    let o1: int = 8 + d.len() as int;
    let ot: int = o1 + 6;
    let o2: int = ot + tt.len();
    lemma_probe_line_layout(d, t, c, v);
    lemma_decimal(t as nat);
    assert("type"@.push('=') =~= "type="@);
    assert forall|j: int| 0 <= j < o1 + 1 implies !occurs_at_index(p, "type="@, j) by {
        if j < 8 {
            if j == 5 {
                lemma_mismatch(p, "type="@, j, 1);
            } else {
                lemma_mismatch(p, "type="@, j, 0);
            }
        } else if j + 5 <= o1 {
            if occurs_at_index(p, "type="@, j) {
                assert(d.subrange(j - 8, j - 3) =~= p.subrange(j, j + 5));
                assert(occurs_at_index(d, "type="@, j - 8));
            }
        } else {
            lemma_mismatch(p, "type="@, j, o1 - j);
        }
    }
    assert(p.subrange(o1 + 1, o1 + 6) =~= "type="@);
    lemma_find_first(p, "type="@, (o1 + 1) as nat);
    let y = p.subrange(ot, p.len() as int);
    assert forall|m: int| 0 <= m < tt.len() implies !is_ws(#[trigger] y[m]) by {
        assert(y[m] == p[ot + m]);
        assert(crate::text::is_digit(tt[m]));
        lemma_digit_not_ws(tt[m]);
    }
    assert(y[tt.len() as int] == p[o2]);
    lemma_first_token_run(y, tt.len());
    assert(y.subrange(0, tt.len() as int) =~= tt);
    lemma_parse_decimal(t as nat, 65535);
}

/// The code field of a probe line.
proof fn lemma_probe_field_code(d: Seq<char>, t: u16, c: u16, v: i32)
    requires
        plain_device_ptr(d),
    ensures
        spec_unsigned_field(input_event_probe_line(d, t, c, v), "code"@, 65535, "invalid code field"@)
            == Ok::<nat, Seq<char>>(c as nat),
{
    reveal_strlit("dev_ptr=");
    reveal_strlit(" type=");
    reveal_strlit(" code=");
    reveal_strlit(" value=");
    reveal_strlit("code");
    reveal_strlit("code=");
    let p = input_event_probe_line(d, t, c, v);
    let tt = decimal(t as nat);
    let cc = decimal(c as nat);
    let o1: int = 8 + d.len() as int;
    let ot: int = o1 + 6;
    let o2: int = ot + tt.len();
    let oc: int = o2 + 6;
    let o3: int = oc + cc.len();
    lemma_probe_line_layout(d, t, c, v);
    lemma_decimal(t as nat);
    lemma_decimal(c as nat);
    assert("code"@.push('=') =~= "code="@);
    assert forall|j: int| 0 <= j < o2 + 1 implies !occurs_at_index(p, "code="@, j) by {
        if j < 8 {
            lemma_mismatch(p, "code="@, j, 0);
        } else if j + 5 <= o1 {
            if occurs_at_index(p, "code="@, j) {
                assert(d.subrange(j - 8, j - 3) =~= p.subrange(j, j + 5));
                assert(occurs_at_index(d, "code="@, j - 8));
            }
        } else if j < o1 {
            lemma_mismatch(p, "code="@, j, o1 - j);
        } else {
            if ot <= j < o2 {
                assert(crate::text::is_digit(tt[j - ot]));
            }
            lemma_mismatch(p, "code="@, j, 0);
        }
    }
    assert(p.subrange(o2 + 1, o2 + 6) =~= "code="@);
    lemma_find_first(p, "code="@, (o2 + 1) as nat);
    let z = p.subrange(oc, p.len() as int);
    assert forall|m: int| 0 <= m < cc.len() implies !is_ws(#[trigger] z[m]) by {
        assert(z[m] == p[oc + m]);
        assert(crate::text::is_digit(cc[m]));
        lemma_digit_not_ws(cc[m]);
    }
    assert(z[cc.len() as int] == p[o3]);
    lemma_first_token_run(z, cc.len());
    assert(z.subrange(0, cc.len() as int) =~= cc);
    lemma_parse_decimal(c as nat, 65535);
}

/// The value field of a probe line.
proof fn lemma_probe_field_value(d: Seq<char>, t: u16, c: u16, v: i32)
    requires
        plain_device_ptr(d),
    ensures
        spec_i32_field(input_event_probe_line(d, t, c, v), "value"@, "invalid value field"@)
            == Ok::<int, Seq<char>>(v as int),
{
    reveal_strlit("dev_ptr=");
    reveal_strlit(" type=");
    reveal_strlit(" code=");
    reveal_strlit(" value=");
    reveal_strlit("value");
    reveal_strlit("value=");
    let p = input_event_probe_line(d, t, c, v);
    let tt = decimal(t as nat);
    let cc = decimal(c as nat);
    let vv = signed_decimal(v as int);
    let o1: int = 8 + d.len() as int;
    let ot: int = o1 + 6;
    let o2: int = ot + tt.len();
    let oc: int = o2 + 6;
    let o3: int = oc + cc.len();
    let ov: int = o3 + 7;
    lemma_probe_line_layout(d, t, c, v);
    lemma_decimal(t as nat);
    lemma_decimal(c as nat);
    lemma_signed_decimal_no_ws(v as int);
    assert("value"@.push('=') =~= "value="@);
    assert forall|j: int| 0 <= j < o3 + 1 implies !occurs_at_index(p, "value="@, j) by {
        if j < 8 {
            if j == 2 {
                lemma_mismatch(p, "value="@, j, 1);
            } else {
                lemma_mismatch(p, "value="@, j, 0);
            }
        } else if j + 6 <= o1 {
            if occurs_at_index(p, "value="@, j) {
                assert(d.subrange(j - 8, j - 2) =~= p.subrange(j, j + 6));
                assert(occurs_at_index(d, "value="@, j - 8));
            }
        } else if j < o1 {
            lemma_mismatch(p, "value="@, j, o1 - j);
        } else {
            if ot <= j < o2 {
                assert(crate::text::is_digit(tt[j - ot]));
            }
            if oc <= j < o3 {
                assert(crate::text::is_digit(cc[j - oc]));
            }
            lemma_mismatch(p, "value="@, j, 0);
        }
    }
    assert(p.subrange(o3 + 1, o3 + 7) =~= "value="@);
    lemma_find_first(p, "value="@, (o3 + 1) as nat);
    let w = p.subrange(ov, p.len() as int);
    assert(w =~= vv);
    lemma_first_token_run(w, vv.len());
    assert(w.subrange(0, vv.len() as int) =~= vv);
    lemma_parse_signed_decimal(v as int);
}

/// Whether `p` carries exactly the fields `f`.
pub open spec fn raw_payload_has(p: KeyboardRawEventPayload, f: InputEventFields) -> bool {
    &&& p.device_ptr.deep_view() == Some(f.device_ptr)
    &&& p.event_type == f.event_type
    &&& p.code == f.code
    &&& p.value == f.value
}

/// Whether `p` carries exactly the fields `f`, with the executable derived
/// from the command.
pub open spec fn shell_payload_has(p: ShellCommandPayload, f: ShellCommandFields) -> bool {
    &&& p.pid == f.pid
    &&& p.uid == f.uid
    &&& p.command@ == f.command
    &&& p.executable.deep_view() == first_token(f.command)
}

/// The bounds of the value of field `key` in `payload`.
fn field_range(payload: &Vec<char>, key: &Vec<char>) -> (r: Result<(usize, usize), &'static str>)
    ensures
        match r {
            Ok((a, b)) => a <= b <= payload.len() && spec_parse_field(payload@, key@) == Ok::<
                Seq<char>,
                Seq<char>,
            >(payload@.subrange(a as int, b as int)),
            Err(e) => spec_parse_field(payload@, key@) == Err::<Seq<char>, Seq<char>>(e@),
        },
{
    let mut token = key.clone();
    token.push('=');
    assert(token@ =~= key@.push('='));
    match find_chars(payload, &token) {
        None => Err("missing field"),
        Some(i) => {
            let start = i + token.len();
            match first_token_range(payload, start) {
                None => Err("missing field value"),
                Some((a, b)) => Ok((a, b)),
            }
        },
    }
}

/// `spec_unsigned_field` on a character vector.
fn unsigned_field(payload: &Vec<char>, key: &str, max: u64, invalid: &'static str) -> (r: Result<
    u64,
    &'static str,
>)
    requires
        max <= 0xffff_ffff,
    ensures
        match r {
            Ok(v) => spec_unsigned_field(payload@, key@, max as nat, invalid@) == Ok::<
                nat,
                Seq<char>,
            >(v as nat),
            Err(e) => spec_unsigned_field(payload@, key@, max as nat, invalid@) == Err::<
                nat,
                Seq<char>,
            >(e@),
        },
{
    let k = chars_of(key);
    match field_range(payload, &k) {
        Err(e) => Err(e),
        Ok((a, b)) => match parse_unsigned_range(payload, a, b, max) {
            None => Err(invalid),
            Some(v) => Ok(v),
        },
    }
}

/// `spec_i32_field` on a character vector.
fn i32_field(payload: &Vec<char>, key: &str, invalid: &'static str) -> (r: Result<
    i32,
    &'static str,
>)
    ensures
        match r {
            Ok(v) => spec_i32_field(payload@, key@, invalid@) == Ok::<int, Seq<char>>(v as int),
            Err(e) => spec_i32_field(payload@, key@, invalid@) == Err::<int, Seq<char>>(e@),
        },
{
    let k = chars_of(key);
    match field_range(payload, &k) {
        Err(e) => Err(e),
        Ok((a, b)) => match parse_i32_range(payload, a, b) {
            None => Err(invalid),
            Some(v) => Ok(v),
        },
    }
}

/// The keyboard probe line parser shared by the sidecar protocol and the
/// server's trace reader: device pointer, type, code and value.
pub fn parse_input_event_fields(line: &str) -> (r: Result<
    Option<(String, u16, u16, i32)>,
    &'static str,
>)
    ensures
        match (r, spec_input_event_line(line@)) {
            (Ok(None), Ok(None)) => true,
            (Ok(Some((d, t, c, v))), Ok(Some(f))) => d@ == f.device_ptr && t == f.event_type && c
                == f.code && v == f.value,
            (Err(e), Err(m)) => e@ == m,
            _ => false,
        },
{
    let chars = chars_of(line);
    let marker_chars = chars_of("dev_ptr=");
    let marker = match find_chars(&chars, &marker_chars) {
        None => return Ok(None),
        Some(m) => m,
    };
    let payload = copy_range(&chars, marker, chars.len());
    let dev_key = chars_of("dev_ptr");
    let (a, b) = match field_range(&payload, &dev_key) {
        Err(e) => return Err(e),
        Ok(range) => range,
    };
    assert(payload@.subrange(a as int, b as int) =~= line@.subrange(marker + a, marker + b));
    let device_ptr = line.substring_char(marker + a, marker + b).to_owned();
    let event_type = match unsigned_field(&payload, "type", 65535, "invalid type field") {
        Err(e) => return Err(e),
        Ok(v) => v as u16,
    };
    let code = match unsigned_field(&payload, "code", 65535, "invalid code field") {
        Err(e) => return Err(e),
        Ok(v) => v as u16,
    };
    let value = match i32_field(&payload, "value", "invalid value field") {
        Err(e) => return Err(e),
        Ok(v) => v,
    };
    Ok(Some((device_ptr, event_type, code, value)))
}

/// Parses a keyboard probe line: `Ok(None)` for lines without a `dev_ptr=`
/// marker, the raw event for well-formed ones, else the first field error.
pub fn parse_bpftrace_input_event_line(line: &str) -> (r: Result<
    Option<KeyboardRawEventPayload>,
    &'static str,
>)
    ensures
        match (r, spec_input_event_line(line@)) {
            (Ok(None), Ok(None)) => true,
            (Ok(Some(p)), Ok(Some(f))) => raw_payload_has(p, f),
            (Err(e), Err(m)) => e@ == m,
            _ => false,
        },
{
    match parse_input_event_fields(line) {
        Err(e) => Err(e),
        Ok(None) => Ok(None),
        Ok(Some((device_ptr, event_type, code, value))) => Ok(
            Some(KeyboardRawEventPayload::new(Some(device_ptr), event_type, code, value)),
        ),
    }
}

/// Parses a shell probe line: `Ok(None)` for lines without a `pid=` marker,
/// the command payload for well-formed ones, else the first error.
pub fn parse_bpftrace_shell_command_line(line: &str) -> (r: Result<
    Option<ShellCommandPayload>,
    &'static str,
>)
    ensures
        match (r, spec_shell_command_line(line@)) {
            (Ok(None), Ok(None)) => true,
            (Ok(Some(p)), Ok(Some(f))) => shell_payload_has(p, f),
            (Err(e), Err(m)) => e@ == m,
            _ => false,
        },
{
    let chars = chars_of(line);
    let marker_chars = chars_of("pid=");
    let start = match find_chars(&chars, &marker_chars) {
        None => return Ok(None),
        Some(s) => s,
    };
    let payload_str = line.substring_char(start, chars.len());
    let payload = copy_range(&chars, start, chars.len());
    let pid = match unsigned_field(&payload, "pid", 0xffff_ffff, "invalid pid field") {
        Err(e) => return Err(e),
        Ok(v) => v as u32,
    };
    let uid = match unsigned_field(&payload, "uid", 0xffff_ffff, "invalid uid field") {
        Err(e) => return Err(e),
        Ok(v) => v as u32,
    };
    let command = if let Some(command) = parse_remainder_field(payload_str, "cmd=") {
        command
    } else if let Some(command) = parse_remainder_field(payload_str, "cmd:") {
        command
    } else {
        return Err("missing command field");
    };
    if command.is_empty() {
        return Err("empty command field");
    }
    Ok(Some(ShellCommandPayload::new(pid, uid, command)))
}

/// The value of field `key` in `payload`: the first whitespace-delimited
/// word after the first `key=`.
pub fn parse_field<'a>(payload: &'a str, key: &str) -> (r: Result<&'a str, &'static str>)
    ensures
        match r {
            Ok(v) => spec_parse_field(payload@, key@) == Ok::<Seq<char>, Seq<char>>(v@),
            Err(e) => spec_parse_field(payload@, key@) == Err::<Seq<char>, Seq<char>>(e@),
        },
{
    let p = chars_of(payload);
    let k = chars_of(key);
    match field_range(&p, &k) {
        Err(e) => Err(e),
        Ok((a, b)) => Ok(payload.substring_char(a, b)),
    }
}

/// Everything after the first `token` in `payload`, trimmed; `None` when
/// `token` does not occur.
pub fn parse_remainder_field<'a>(payload: &'a str, token: &str) -> (r: Option<&'a str>)
    ensures
        match r {
            Some(v) => spec_parse_remainder_field(payload@, token@) == Some(v@),
            None => spec_parse_remainder_field(payload@, token@) is None,
        },
{
    let p = chars_of(payload);
    let t = chars_of(token);
    match find_chars(&p, &t) {
        None => None,
        Some(i) => {
            let (a, b) = trim_range(&p, i + t.len());
            Some(payload.substring_char(a, b))
        },
    }
}

/// The first whitespace-separated word of a command line.
pub fn shell_executable(command: &str) -> (r: Option<String>)
    ensures
        r.deep_view() == first_token(command@),
{
    let c = chars_of(command);
    match first_token_range(&c, 0) {
        None => {
            assert(c@.subrange(0, c@.len() as int) =~= c@);
            None
        },
        Some((a, b)) => {
            assert(c@.subrange(0, c@.len() as int) =~= c@);
            Some(command.substring_char(a, b).to_owned())
        },
    }
}

} // verus!
