//! Coordination with the bridge: the rival host process that may hold
//! the device's USB serial port.  Three strategies pause it — a TCP
//! control request, the platform service manager, or terminating the
//! process with a relaunch plan — and a guard carries the obligation
//! to resume.
//!
//! Everything here decides; the caller performs the TCP, command and
//! process work and feeds the observations back in.

use vstd::prelude::*;

use crate::strutil;

verus! {

/// The host platform, for service-manager commands and hints.
#[derive(Debug, Clone, Copy, PartialEq, Eq, Structural)]
pub enum Platform {
    Windows,
    Linux,
    MacOs,
    Other,
}

/// The pause strategy a caller asks for.
#[derive(Debug, Clone, Copy, PartialEq, Eq, Structural)]
pub enum BridgeControlMethod {
    /// Prefer the control request, then the service, then (optionally)
    /// the process fallback.
    Auto,
    /// Control request only.
    Control,
    /// Service stop and start only.
    Service,
    /// Process stop and relaunch only.
    Process,
    /// Never pause or resume.
    Off,
}

/// How the bridge is paused and resumed.
#[derive(Debug, Clone)]
pub struct BridgeControlOptions {
    /// Enable automatic bridge pause and resume.
    pub enabled: bool,
    /// The pause strategy.
    pub method: BridgeControlMethod,
    /// Allow the process fallback under `Auto`.
    pub allow_process_fallback: bool,
    /// Override the platform service identifier.
    pub service_id: Option<String>,
    /// Budget for stopping or starting the service or process, in
    /// milliseconds.
    pub timeout_ms: u64,
    /// Local control port of the bridge.
    pub control_port: u16,
    /// Budget for one control request, in milliseconds.
    pub control_timeout_ms: u64,
}

impl Default for BridgeControlOptions {
    /// Pause enabled, automatic strategy with process fallback, five
    /// second service budget, control on port 7999 with a budget that
    /// covers the bridge's close-acknowledgement round trip.
    fn default() -> (r: Self)
        ensures
            r.enabled,
            r.method == BridgeControlMethod::Auto,
            r.allow_process_fallback,
            r.service_id is None,
            r.timeout_ms == 5000,
            r.control_port == 7999,
            r.control_timeout_ms == 2500,
    {
        BridgeControlOptions {
            enabled: true,
            method: BridgeControlMethod::Auto,
            allow_process_fallback: true,
            service_id: None,
            timeout_ms: 5000,
            control_port: 7999,
            control_timeout_ms: 2500,
        }
    }
}

/// Which strategy paused the bridge.
#[derive(Debug, Clone, Copy, PartialEq, Eq, Structural)]
pub enum BridgePauseMethod {
    Control,
    Service,
    Process,
}

/// A successful pause: the strategy, what it acted on, and the
/// process ids it stopped.
#[derive(Debug, Clone)]
pub struct BridgePauseInfo {
    pub method: BridgePauseMethod,
    pub id: String,
    pub pids: Vec<u32>,
}

/// Why a pause was skipped without touching the bridge.
#[derive(Debug, Clone, Copy, PartialEq, Eq, Structural)]
pub enum BridgePauseSkipReason {
    Disabled,
    NotRunning,
    NotInstalled,
    ProcessNotRestartable,
}

/// A pause or resume failure, with an optional out-of-band hint.
#[derive(Debug, Clone)]
pub struct BridgeControlErrorInfo {
    pub message: String,
    pub hint: Option<String>,
}

/// A low-level bridge control failure.
#[derive(Debug)]
pub enum BridgeControlError {
    CommandFailed { cmd: String, message: String },
    Timeout,
    ProcessRestartUnavailable,
}

/// Exactly one of: paused with a way back, skipped with a reason, or
/// failed.
#[derive(Debug, Clone)]
pub enum BridgePauseOutcome {
    Paused(BridgePauseInfo),
    Skipped(BridgePauseSkipReason),
    Failed(BridgeControlErrorInfo),
}

/// One command to relaunch a stopped bridge process.
#[derive(Debug, Clone)]
pub struct RelaunchCmd {
    pub exe: String,
    pub args: Vec<String>,
}

/// How to undo a pause.
#[derive(Debug, Clone)]
pub enum ResumePlan {
    /// Send the control resume request.
    Control { port: u16, timeout_ms: u64 },
    /// Start the service again.
    Service { id: String },
    /// Relaunch the stopped processes.
    Processes { cmds: Vec<RelaunchCmd> },
}

/// Owns the obligation to resume a paused bridge: the plan stays until
/// a resume succeeds, so a failed attempt can be retried on release.
#[derive(Debug, Clone)]
pub struct BridgeGuard {
    /// The pending plan; `None` once resume has succeeded.
    pub resume: Option<ResumePlan>,
    /// Budget for the resume, in milliseconds.
    pub timeout_ms: u64,
    /// The platform, for command hints.
    pub platform: Platform,
}

/// The out-of-band resume hint a guard offers: the control command for
/// a control plan, the platform's start command for a service plan,
/// nothing otherwise.
pub open spec fn spec_resume_hint(g: BridgeGuard) -> Option<Seq<char>> {
    match g.resume {
        Some(ResumePlan::Control { port, .. }) => Some(
            "Try: oc-bridge ctl resume --control-port "@ + strutil::u64_chars(port as u64),
    ),
        Some(ResumePlan::Service { id }) => Some(spec_hint_start_service(g.platform, id@)),
        _ => None,
    }
}

impl BridgeGuard {
    /// A human hint for resuming out of band, where one exists.
    pub fn resume_hint(&self) -> (r: Option<String>)
        ensures
            match r {
                Some(h) => spec_resume_hint(*self) matches Some(sh) && h@ == sh,
                None => spec_resume_hint(*self) is None,
            },
    {
        match &self.resume {
            Some(ResumePlan::Control { port, .. }) => {
                let mut s = "Try: oc-bridge ctl resume --control-port ".to_owned();
                s.append(strutil::u64_to_string(*port as u64).as_str());
                Some(s)
            },
            Some(ResumePlan::Service { id }) => Some(hint_start_service(self.platform, id)),
            _ => None,
        }
    }

    /// Clears the plan after a resume that succeeded: the release
    /// becomes a no-op.
    pub fn mark_resumed(&mut self)
        ensures
            final(self).resume is None,
            final(self).timeout_ms == old(self).timeout_ms,
            final(self).platform == old(self).platform,
    {
        self.resume = None;
    }
}

/// The outcome of a pause attempt, with the guard where one is owed.
#[derive(Debug)]
pub struct BridgePause {
    pub guard: Option<BridgeGuard>,
    pub outcome: BridgePauseOutcome,
}

impl BridgePause {
    /// A pause that reports success always carries a resume plan.
    pub open spec fn wf(&self) -> bool {
        self.outcome is Paused ==> (self.guard matches Some(g) && g.resume is Some)
    }
}

// ---------------------------------------------------------------------
// Service identifiers, commands and hints.
// ---------------------------------------------------------------------

/// The default service identifier of the bridge on each platform.
pub open spec fn spec_default_service_id(p: Platform) -> Seq<char> {
    match p {
        Platform::Windows => "OpenControlBridge"@,
        Platform::Linux => "open-control-bridge"@,
        Platform::MacOs => "com.petitechose.open-control-bridge"@,
        Platform::Other => "oc-bridge"@,
    }
}

/// The default service identifier of the bridge on `p`.
pub fn default_service_id_for_platform(p: Platform) -> (r: String)
    ensures
        r@ == spec_default_service_id(p),
{
    match p {
        Platform::Windows => "OpenControlBridge".to_owned(),
        Platform::Linux => "open-control-bridge".to_owned(),
        Platform::MacOs => "com.petitechose.open-control-bridge".to_owned(),
        Platform::Other => "oc-bridge".to_owned(),
    }
}

/// The service identifier a pause will act on: the override, or the
/// platform default.
pub open spec fn spec_service_id(opts: BridgeControlOptions, p: Platform) -> Seq<char> {
    match opts.service_id {
        Some(id) => id@,
        None => spec_default_service_id(p),
    }
}

/// The service identifier a pause will act on.
pub fn service_id_of(opts: &BridgeControlOptions, p: Platform) -> (r: String)
    ensures
        r@ == spec_service_id(*opts, p),
{
    match &opts.service_id {
        Some(id) => id.clone(),
        None => default_service_id_for_platform(p),
    }
}

/// The command that stops the service, as text.
pub open spec fn spec_stop_service_cmd(p: Platform, id: Seq<char>) -> Seq<char> {
    match p {
        Platform::Windows => "sc stop "@ + id,
        Platform::Linux => "systemctl --user stop "@ + id,
        Platform::MacOs => "launchctl stop "@ + id,
        Platform::Other => "stop "@ + id,
    }
}

/// The command that stops the service, as text.
pub fn stop_service_cmd_string(p: Platform, id: &str) -> (r: String)
    ensures
        r@ == spec_stop_service_cmd(p, id@),
{
    let mut s = match p {
        Platform::Windows => "sc stop ".to_owned(),
        Platform::Linux => "systemctl --user stop ".to_owned(),
        Platform::MacOs => "launchctl stop ".to_owned(),
        Platform::Other => "stop ".to_owned(),
    };
    s.append(id);
    s
}

/// The command that starts the service, as text.
pub open spec fn spec_start_service_cmd(p: Platform, id: Seq<char>) -> Seq<char> {
    match p {
        Platform::Windows => "sc start "@ + id,
        Platform::Linux => "systemctl --user start "@ + id,
        Platform::MacOs => "launchctl start "@ + id,
        Platform::Other => "start "@ + id,
    }
}

/// The command that starts the service, as text.
pub fn start_service_cmd_string(p: Platform, id: &str) -> (r: String)
    ensures
        r@ == spec_start_service_cmd(p, id@),
{
    let mut s = match p {
        Platform::Windows => "sc start ".to_owned(),
        Platform::Linux => "systemctl --user start ".to_owned(),
        Platform::MacOs => "launchctl start ".to_owned(),
        Platform::Other => "start ".to_owned(),
    };
    s.append(id);
    s
}

/// The hint shown when stopping the service failed.
pub open spec fn spec_hint_stop_service(p: Platform, id: Seq<char>) -> Seq<char> {
    if p is Other {
        Seq::empty()
    } else {
        "Try: "@ + spec_stop_service_cmd(p, id)
    }
}

/// The hint shown when stopping the service failed.
pub fn hint_stop_service(p: Platform, id: &str) -> (r: String)
    ensures
        r@ == spec_hint_stop_service(p, id@),
{
    match p {
        Platform::Other => {
            let r = String::new();
            assert(r@ =~= spec_hint_stop_service(p, id@));
            r
        },
        _ => {
            let mut s = "Try: ".to_owned();
            s.append(stop_service_cmd_string(p, id).as_str());
            s
        },
    }
}

/// The hint shown when starting the service failed.
pub open spec fn spec_hint_start_service(p: Platform, id: Seq<char>) -> Seq<char> {
    if p is Other {
        Seq::empty()
    } else {
        "Try: "@ + spec_start_service_cmd(p, id)
    }
}

/// The hint shown when starting the service failed.
pub fn hint_start_service(p: Platform, id: &str) -> (r: String)
    ensures
        r@ == spec_hint_start_service(p, id@),
{
    match p {
        Platform::Other => {
            let r = String::new();
            assert(r@ =~= spec_hint_start_service(p, id@));
            r
        },
        _ => {
            let mut s = "Try: ".to_owned();
            s.append(start_service_cmd_string(p, id).as_str());
            s
        },
    }
}

/// The command that queries the service, as text.
pub open spec fn spec_query_service_cmd(p: Platform, id: Seq<char>) -> Seq<char> {
    match p {
        Platform::Windows => "sc query "@ + id,
        Platform::Linux => "systemctl --user status "@ + id,
        Platform::MacOs => "launchctl list "@ + id,
        Platform::Other => "query "@ + id,
    }
}

/// The hint shown when querying the service failed.
pub open spec fn spec_hint_query_service(p: Platform, id: Seq<char>) -> Seq<char> {
    if p is Other {
        Seq::empty()
    } else {
        "Try: "@ + spec_query_service_cmd(p, id)
    }
}

/// The hint shown when querying the service failed.
pub fn hint_query_service(p: Platform, id: &str) -> (r: String)
    ensures
        r@ == spec_hint_query_service(p, id@),
{
    match p {
        Platform::Other => {
            let r = String::new();
            assert(r@ =~= spec_hint_query_service(p, id@));
            r
        },
        _ => {
            let mut s = "Try: ".to_owned();
            let cmd = match p {
                Platform::Windows => "sc query ".to_owned(),
                Platform::Linux => "systemctl --user status ".to_owned(),
                Platform::MacOs => "launchctl list ".to_owned(),
                Platform::Other => "query ".to_owned(),
            };
            s.append(cmd.as_str());
            s.append(id);
            s
        },
    }
}

// ---------------------------------------------------------------------
// Service state parsing.
// ---------------------------------------------------------------------

/// The observed state of the bridge service.
#[derive(Debug, Clone, Copy, PartialEq, Eq, Structural)]
pub enum ServiceStatus {
    Running,
    Stopped,
    NotInstalled,
}

/// The leading digit run of `s`, from its first digit.
pub open spec fn first_digit_run(s: Seq<char>) -> Seq<char>
    decreases s.len(),
{
    if s.len() == 0 {
        Seq::empty()
    } else if strutil::is_digit_char(s[0]) {
        digit_prefix(s)
    } else {
        first_digit_run(s.skip(1))
    }
}

/// The digits that begin `s`.
pub open spec fn digit_prefix(s: Seq<char>) -> Seq<char>
    decreases s.len(),
{
    if s.len() > 0 && strutil::is_digit_char(s[0]) {
        seq![s[0]] + digit_prefix(s.skip(1))
    } else {
        Seq::empty()
    }
}

/// Does a line of `sc query` output name the service state?  The
/// check is case-insensitive and accepts the localized `ETAT`.
pub open spec fn is_state_line(l: Seq<char>) -> bool {
    strutil::contains_seq(strutil::upper_seq(l), "STATE"@) || strutil::contains_seq(
        strutil::upper_seq(l),
        "ETAT"@,
    )
}

/// What `parse_sc_state` reads from the lines of `sc query` output:
/// on the first line naming the state, the first digit run after the
/// colon; no colon there, or no such line, yields nothing.
pub open spec fn sc_state_of_lines(lines: Seq<Seq<char>>, i: int) -> Option<u32>
    decreases lines.len() - i,
{
    if i < 0 || i >= lines.len() {
        None
    } else {
        let l = lines[i];
        if !is_state_line(l) {
            sc_state_of_lines(lines, i + 1)
        } else if !l.contains(':') {
            None
        } else {
            let ci = strutil::index_of_first(l, ':');
            let run = first_digit_run(l.skip(ci + 1));
            if run.len() > 0 && strutil::digits_val(run) <= u32::MAX {
                Some(strutil::digits_val(run) as u32)
            } else {
                sc_state_of_lines(lines, i + 1)
            }
        }
    }
}

/// The numeric service state in `sc query` output.
pub open spec fn spec_parse_sc_state(text: Seq<char>) -> Option<u32> {
    sc_state_of_lines(strutil::split_seq(text, '\n'), 0)
}

/// Reads the numeric service state out of `sc query` output, looking
/// for a line naming `STATE` (or the localized `ETAT`) and taking the
/// first digit run after its colon.  Localized state names are
/// ignored on purpose: only the number is trusted.
pub fn parse_sc_state(text: &str) -> (r: Option<u32>)
    ensures
        r == spec_parse_sc_state(text@),
{
    let lines = split_str_lines(text);
    let ghost ls = strutil::split_seq(text@, '\n');
    let n = lines.len();
    let mut i: usize = 0;
    while i < n
        invariant
            0 <= i <= n,
            n == ls.len(),
            ls == strutil::split_seq(text@, '\n'),
            lines@.len() == ls.len(),
            forall|k: int| 0 <= k < n ==> (#[trigger] lines@[k])@ == ls[k],
            sc_state_of_lines(ls, 0) == sc_state_of_lines(ls, i as int),
        decreases n - i,
    {
        let l: &str = lines[i].as_str();
        assert(l@ == ls[i as int]);
        if line_names_state(l) {
            match first_digit_run_after_colon(l) {
                FirstRun::NoColon => {
                    return None;
                },
                FirstRun::Run(v) => {
                    return Some(v);
                },
                FirstRun::NoRun => {
                    i = i + 1;
                },
            }
        } else {
            i = i + 1;
        }
    }
    None
}

/// The outcome of scanning a state line for its number.
enum FirstRun {
    /// The line has no colon: the scan is abandoned.
    NoColon,
    /// The first digit run after the colon, as a number.
    Run(u32),
    /// No digit run after the colon, or one too large.
    NoRun,
}

/// Does the (case-folded) line name the service state?
fn line_names_state(l: &str) -> (r: bool)
    ensures
        r == is_state_line(l@),
{
    let n = l.unicode_len();
    let mut up = String::new();
    let mut i: usize = 0;
    while i < n
        invariant
            0 <= i <= n,
            n == l@.len(),
            up@ =~= strutil::upper_seq(l@.take(i as int)),
        decreases n - i,
    {
        let c = l.get_char(i);
        let u = if c >= 'a' && c <= 'z' {
            (((c as u8) - 32) as char)
        } else {
            c
        };
        assert(u == strutil::upper_char(l@[i as int]));
        push_char_via(&mut up, u);
        proof {
            assert(l@.take(i + 1).drop_last() =~= l@.take(i as int));
            assert(l@.take(i + 1).last() == l@[i as int]);
            assert(up@ =~= strutil::upper_seq(l@.take(i + 1)));
        }
        i = i + 1;
    }
    proof {
        assert(l@.take(n as int) =~= l@);
    }
    let has_state = strutil::contains_str(up.as_str(), "STATE");
    let has_etat = strutil::contains_str(up.as_str(), "ETAT");
    has_state || has_etat
}

/// Appends one character to `s`.
///
/// Relies on `String::push`: it appends exactly the one character.
#[verifier::external_body]
fn push_char_via(s: &mut String, c: char)
    ensures
        final(s)@ == old(s)@.push(c),
{
    s.push(c);
}

/// Scans a state line: finds the colon, then the first digit run
/// after it.
fn first_digit_run_after_colon(l: &str) -> (r: FirstRun)
    ensures
        ({
            let has_colon = l@.contains(':');
            match r {
                FirstRun::NoColon => !has_colon,
                FirstRun::Run(v) => has_colon && ({
                    let run = first_digit_run(l@.skip(strutil::index_of_first(l@, ':') + 1));
                    run.len() > 0 && strutil::digits_val(run) <= u32::MAX && v == strutil::digits_val(run)
                }),
                FirstRun::NoRun => has_colon && ({
                    let run = first_digit_run(l@.skip(strutil::index_of_first(l@, ':') + 1));
                    run.len() == 0 || strutil::digits_val(run) > u32::MAX
                }),
            }
        }),
{
    let n = l.unicode_len();
    let mut ci: usize = 0;
    loop
        invariant
            0 <= ci <= n,
            n == l@.len(),
            forall|k: int| 0 <= k < ci ==> l@[k] != ':',
        ensures
            0 <= ci <= n,
            forall|k: int| 0 <= k < ci ==> l@[k] != ':',
            ci < n ==> l@[ci as int] == ':',
        decreases n - ci,
    {
        if ci >= n {
            break;
        }
        if l.get_char(ci) == ':' {
            break;
        }
        ci = ci + 1;
    }
    if ci >= n {
        proof {
            if l@.contains(':') {
                let k = choose|k: int| 0 <= k < l@.len() && l@[k] == ':';
                assert(false);
            }
        }
        return FirstRun::NoColon;
    }
    proof {
        assert(l@.contains(':')) by {
            assert(l@[ci as int] == ':');
        }
        strutil::lemma_index_of_first(l@, ':', ci as int);
    }
    let ghost rhs = l@.skip(ci + 1);
    // Find the first digit.
    let mut j: usize = ci + 1;
    loop
        invariant
            ci + 1 <= j <= n,
            n == l@.len(),
            rhs == l@.skip(ci + 1),
            forall|k: int| ci + 1 <= k < j ==> !strutil::is_digit_char(#[trigger] l@[k]),
        ensures
            ci + 1 <= j <= n,
            forall|k: int| ci + 1 <= k < j ==> !strutil::is_digit_char(#[trigger] l@[k]),
            j < n ==> strutil::is_digit_char(l@[j as int]),
        decreases n - j,
    {
        if j >= n {
            break;
        }
        let c = l.get_char(j);
        if c >= '0' && c <= '9' {
            break;
        }
        j = j + 1;
    }
    proof {
        lemma_first_digit_run_skip(rhs, j - (ci + 1));
    }
    if j >= n {
        assert(first_digit_run(rhs).len() == 0) by {
            assert(rhs.skip(j - (ci + 1)).len() == 0);
        }
        return FirstRun::NoRun;
    }
    // Read the run.
    proof {
        assert(rhs.skip(j - (ci + 1)) =~= l@.skip(j as int));
        assert(l@.skip(j as int)[0] == l@[j as int]);
    }
    let ghost run = first_digit_run(rhs);
    assert(run == digit_prefix(l@.skip(j as int)));
    let mut val: u64 = 0;
    let mut k: usize = j;
    loop
        invariant
            j <= k <= n,
            n == l@.len(),
            ci + 1 <= j < n,
            rhs == l@.skip(ci + 1),
            run == first_digit_run(rhs),
            run == digit_prefix(l@.skip(j as int)),
            strutil::is_digit_char(l@[j as int]),
            forall|q: int| j <= q < k ==> strutil::is_digit_char(#[trigger] l@[q]),
            val <= u32::MAX as u64 ==> val == strutil::digits_val(l@.subrange(j as int, k as int)),
            val > u32::MAX as u64 ==> val == u32::MAX as u64 + 1 && strutil::digits_val(run)
                > u32::MAX,
        ensures
            j <= k <= n,
            run == digit_prefix(l@.skip(j as int)),
            strutil::is_digit_char(l@[j as int]),
            forall|q: int| j <= q < k ==> strutil::is_digit_char(#[trigger] l@[q]),
            k < n ==> !strutil::is_digit_char(l@[k as int]),
            val > u32::MAX as u64 ==> strutil::digits_val(run) > u32::MAX,
            val <= u32::MAX as u64 ==> val == strutil::digits_val(l@.subrange(j as int, k as int)),
        decreases n - k,
    {
        if k >= n {
            break;
        }
        let c = l.get_char(k);
        if !(c >= '0' && c <= '9') {
            break;
        }
        proof {
            assert(l@.subrange(j as int, k + 1).drop_last() =~= l@.subrange(j as int, k as int));
            assert(l@.subrange(j as int, k + 1).last() == l@[k as int]);
        }
        if val <= u32::MAX as u64 {
            let nv: u64 = val * 10 + ((c as u8 - 48) as u64);
            assert(nv == strutil::digits_val(l@.subrange(j as int, k + 1)));
            if nv > u32::MAX as u64 {
                proof {
                    lemma_digit_prefix_grows(l@, j as int, k + 1);
                }
                val = u32::MAX as u64 + 1;
            } else {
                val = nv;
            }
        }
        k = k + 1;
    }
    proof {
        lemma_digit_prefix_is(l@, j as int, k as int);
    }
    if val > u32::MAX as u64 {
        return FirstRun::NoRun;
    }
    assert(run =~= l@.subrange(j as int, k as int));
    assert(run.len() > 0) by {
        assert(l@.subrange(j as int, k as int).len() >= 1) by {
            assert(strutil::is_digit_char(l@[j as int]));
        }
    }
    FirstRun::Run(val as u32)
}

/// Skipping non-digits leaves the first digit run unchanged.
proof fn lemma_first_digit_run_skip(s: Seq<char>, i: int)
    requires
        0 <= i <= s.len(),
        forall|k: int| 0 <= k < i ==> !strutil::is_digit_char(#[trigger] s[k]),
    ensures
        first_digit_run(s) == first_digit_run(s.skip(i)),
    decreases i,
{
    if i > 0 {
        assert(!strutil::is_digit_char(s[0]));
        lemma_first_digit_run_skip(s.skip(1), i - 1);
        assert(s.skip(1).skip(i - 1) =~= s.skip(i));
    } else {
        assert(s.skip(0) =~= s);
    }
}

/// The digit prefix from `j` is the scanned digits up to the first
/// non-digit.
proof fn lemma_digit_prefix_is(s: Seq<char>, j: int, k: int)
    requires
        0 <= j <= k <= s.len(),
        forall|q: int| j <= q < k ==> strutil::is_digit_char(#[trigger] s[q]),
        k < s.len() ==> !strutil::is_digit_char(s[k]),
    ensures
        digit_prefix(s.skip(j)) == s.subrange(j, k),
    decreases k - j,
{
    if j == k {
        if j < s.len() {
            assert(s.skip(j)[0] == s[j]);
        }
        assert(s.subrange(j, k) =~= Seq::<char>::empty());
    } else {
        assert(s.skip(j)[0] == s[j]);
        assert(strutil::is_digit_char(s[j]));
        lemma_digit_prefix_is(s, j + 1, k);
        assert(s.skip(j).skip(1) =~= s.skip(j + 1));
        assert(seq![s[j]] + s.subrange(j + 1, k) =~= s.subrange(j, k));
    }
}

/// A longer digit slice has at least the value of its prefix.
proof fn lemma_digit_prefix_grows(s: Seq<char>, j: int, k: int)
    requires
        0 <= j <= k <= s.len(),
        forall|q: int| j <= q < k ==> strutil::is_digit_char(#[trigger] s[q]),
    ensures
        strutil::digits_val(digit_prefix(s.skip(j))) >= strutil::digits_val(s.subrange(j, k)),
{
    let run = digit_prefix(s.skip(j));
    lemma_digit_prefix_len_at_least(s.skip(j), k - j);
    lemma_digit_prefix_front(s.skip(j));
    assert(run.take(k - j) =~= s.subrange(j, k)) by {
        assert(forall|q: int| 0 <= q < k - j ==> run[q] == #[trigger] s.skip(j)[q]);
        assert(forall|q: int| 0 <= q < k - j ==> s.skip(j)[q] == #[trigger] s.subrange(j, k)[q]);
    }
    lemma_digit_prefix_digits(s.skip(j));
    strutil::lemma_digits_val_grows(run, k - j);
}

/// Where the input starts with `m` digits, the digit prefix holds at
/// least `m` characters.
proof fn lemma_digit_prefix_len_at_least(s: Seq<char>, m: int)
    requires
        0 <= m <= s.len(),
        forall|q: int| 0 <= q < m ==> strutil::is_digit_char(#[trigger] s[q]),
    ensures
        digit_prefix(s).len() >= m,
    decreases m,
{
    if m > 0 {
        assert(strutil::is_digit_char(s[0]));
        lemma_digit_prefix_len_at_least(s.skip(1), m - 1);
        assert(forall|q: int| 0 <= q < m - 1 ==> s.skip(1)[q] == #[trigger] s[q + 1]);
    }
}

/// A digit prefix repeats the front of its input.
proof fn lemma_digit_prefix_front(s: Seq<char>)
    ensures
        digit_prefix(s).len() <= s.len(),
        forall|q: int| 0 <= q < digit_prefix(s).len() ==> #[trigger] digit_prefix(s)[q] == s[q],
    decreases s.len(),
{
    if s.len() > 0 && strutil::is_digit_char(s[0]) {
        lemma_digit_prefix_front(s.skip(1));
        assert(forall|q: int|
            1 <= q < digit_prefix(s).len() ==> #[trigger] digit_prefix(s)[q] == digit_prefix(
                s.skip(1),
            )[q - 1]);
        assert(forall|q: int| 0 <= q < s.skip(1).len() ==> #[trigger] s.skip(1)[q] == s[q + 1]);
    }
}

/// A digit prefix holds digits only.
proof fn lemma_digit_prefix_digits(s: Seq<char>)
    ensures
        strutil::all_digits(digit_prefix(s)),
    decreases s.len(),
{
    if s.len() > 0 && strutil::is_digit_char(s[0]) {
        lemma_digit_prefix_digits(s.skip(1));
        assert(forall|q: int|
            1 <= q < digit_prefix(s).len() ==> #[trigger] digit_prefix(s)[q] == digit_prefix(
                s.skip(1),
            )[q - 1]);
        assert(forall|q: int|
            0 <= q < digit_prefix(s).len() ==> strutil::is_digit_char(
                #[trigger] digit_prefix(s)[q],
            ));
    }
}

/// Splits a string at every newline.
fn split_str_lines(text: &str) -> (r: Vec<String>)
    ensures
        r@.len() == strutil::split_seq(text@, '\n').len(),
        forall|i: int|
            0 <= i < r@.len() ==> (#[trigger] r@[i])@ == strutil::split_seq(text@, '\n')[i],
{
    let n = text.unicode_len();
    let mut out: Vec<String> = Vec::new();
    let mut cur = String::new();
    let mut i: usize = 0;
    proof {
        assert(text@.take(0) =~= Seq::<char>::empty());
    }
    while i < n
        invariant
            0 <= i <= n,
            n == text@.len(),
            out@.len() + 1 == strutil::split_seq(text@.take(i as int), '\n').len(),
            forall|k: int|
                0 <= k < out@.len() ==> (#[trigger] out@[k])@ == strutil::split_seq(
                    text@.take(i as int),
                    '\n',
                )[k],
            cur@ == strutil::split_seq(text@.take(i as int), '\n').last(),
        decreases n - i,
    {
        let c = text.get_char(i);
        proof {
            assert(text@.take(i + 1).drop_last() =~= text@.take(i as int));
            assert(text@.take(i + 1) =~= text@.take(i as int).push(text@[i as int]));
            strutil::lemma_split_seq_push(text@.take(i as int), '\n', text@[i as int]);
        }
        if c == '\n' {
            out.push(cur);
            cur = String::new();
        } else {
            push_char_via(&mut cur, c);
        }
        i = i + 1;
    }
    proof {
        assert(text@.take(n as int) =~= text@);
        strutil::lemma_split_seq_len(text@, '\n');
    }
    out.push(cur);
    proof {
        let ss = strutil::split_seq(text@, '\n');
        assert forall|i: int| 0 <= i < out@.len() implies (#[trigger] out@[i])@ == ss[i] by {
            if i == out@.len() - 1 {
                assert(out@[i]@ == ss.last());
            }
        }
    }
    out
}


// ---------------------------------------------------------------------
// The control request: a line of JSON over local TCP.
// ---------------------------------------------------------------------

/// What the bridge reports over the control connection.
#[derive(Debug, Clone)]
pub struct BridgeControlStatus {
    pub ok: bool,
    pub paused: bool,
    pub serial_open: Option<bool>,
    pub message: Option<String>,
}

/// The request line for a control command.
pub open spec fn spec_control_request_line(cmd: Seq<char>) -> Seq<char> {
    "{\"cmd\":\""@ + cmd + "\"}\n"@
}

/// Builds the request line for a control command.
pub fn control_request_line(cmd: &str) -> (r: String)
    ensures
        r@ == spec_control_request_line(cmd@),
{
    let mut s = "{\"cmd\":\"".to_owned();
    s.append(cmd);
    s.append("\"}\n");
    s
}

/// `s` with every whitespace character removed.
pub open spec fn strip_spaces(s: Seq<char>) -> Seq<char> {
    s.filter(|c: char| !strutil::is_space_char(c))
}

/// The first line of `s` that holds more than whitespace, compacted:
/// what the response parser reads.
pub open spec fn compact_response_line(s: Seq<char>) -> Seq<char> {
    first_nonblank_line(strutil::split_seq(s, '\n'), 0)
}

/// The first line that holds more than whitespace, with its whitespace
/// removed; empty where no line does.
pub open spec fn first_nonblank_line(lines: Seq<Seq<char>>, i: int) -> Seq<char>
    decreases lines.len() - i,
{
    if i < 0 || i >= lines.len() {
        Seq::empty()
    } else if strutil::trim_chars(lines[i]).len() != 0 {
        strip_spaces(lines[i])
    } else {
        first_nonblank_line(lines, i + 1)
    }
}

/// What the response parser reads out of a raw control response:
/// field probes over the compacted first line.
pub open spec fn spec_parse_control_response(s: Seq<char>) -> BridgeControlStatusModel {
    let c = compact_response_line(s);
    BridgeControlStatusModel {
        ok: strutil::contains_seq(c, "\"ok\":true"@),
        paused: strutil::contains_seq(c, "\"paused\":true"@),
        serial_open: if strutil::contains_seq(c, "\"serial_open\":true"@) {
            Some(true)
        } else if strutil::contains_seq(c, "\"serial_open\":false"@) {
            Some(false)
        } else {
            None
        },
    }
}

/// The parsed fields of a control response, before the optional
/// message text.
pub struct BridgeControlStatusModel {
    pub ok: bool,
    pub paused: bool,
    pub serial_open: Option<bool>,
}

/// Does the status present the model, whatever message came along?
pub open spec fn status_matches(r: BridgeControlStatus, m: BridgeControlStatusModel) -> bool {
    r.ok == m.ok && r.paused == m.paused && r.serial_open == m.serial_open
}

/// Reads a control response: takes the first line holding more than
/// whitespace, removes its whitespace, and probes for the `ok`,
/// `paused` and `serial_open` fields; a `message` string field is
/// carried along when present.  Tolerant by design: an unreadable
/// response simply reports `ok == false`.
pub fn parse_control_response(s: &str) -> (r: BridgeControlStatus)
    ensures
        status_matches(r, spec_parse_control_response(s@)),
{
    let line = first_nonblank_line_exec(s);
    let compact = line.as_str();
    let ok = strutil::contains_str(compact, "\"ok\":true");
    let paused = strutil::contains_str(compact, "\"paused\":true");
    let serial_open = if strutil::contains_str(compact, "\"serial_open\":true") {
        Some(true)
    } else if strutil::contains_str(compact, "\"serial_open\":false") {
        Some(false)
    } else {
        None
    };
    let message = extract_json_string_field(compact, "message");
    BridgeControlStatus { ok, paused, serial_open, message }
}

/// The first line of `s` holding more than whitespace, compacted.
fn first_nonblank_line_exec(s: &str) -> (r: String)
    ensures
        r@ == compact_response_line(s@),
{
    let lines = split_str_lines(s);
    let ghost ls = strutil::split_seq(s@, '\n');
    let n = lines.len();
    let mut i: usize = 0;
    while i < n
        invariant
            0 <= i <= n,
            n == ls.len(),
            ls == strutil::split_seq(s@, '\n'),
            lines@.len() == ls.len(),
            forall|k: int| 0 <= k < n ==> (#[trigger] lines@[k])@ == ls[k],
            first_nonblank_line(ls, 0) == first_nonblank_line(ls, i as int),
        decreases n - i,
    {
        let l: &str = lines[i].as_str();
        let b = strutil::trim_str_bounds(l);
        if b.1 > b.0 {
            assert(strutil::trim_chars(ls[i as int]).len() != 0);
            return strip_spaces_exec(l);
        }
        assert(strutil::trim_chars(ls[i as int]).len() == 0);
        i = i + 1;
    }
    let r = String::new();
    assert(r@ =~= first_nonblank_line(ls, n as int));
    r
}

/// `l` with every whitespace character removed.
fn strip_spaces_exec(l: &str) -> (r: String)
    ensures
        r@ == strip_spaces(l@),
{
    let n = l.unicode_len();
    let mut out = String::new();
    let mut i: usize = 0;
    proof {
        reveal(Seq::filter);
        assert(l@.take(0) =~= Seq::<char>::empty());
        assert(out@ =~= strip_spaces(l@.take(0)));
    }
    while i < n
        invariant
            0 <= i <= n,
            n == l@.len(),
            out@ =~= l@.take(i as int).filter(|c: char| !strutil::is_space_char(c)),
        decreases n - i,
    {
        let c = l.get_char(i);
        proof {
            reveal(Seq::filter);
            assert(l@.take(i + 1).drop_last() =~= l@.take(i as int));
            assert(l@.take(i + 1).last() == l@[i as int]);
        }
        if !(c == ' ' || c == '\t' || c == '\n' || c == '\r' || c == '\u{b}' || c == '\u{c}') {
            push_char_via(&mut out, c);
        }
        assert(out@ =~= l@.take(i + 1).filter(|c: char| !strutil::is_space_char(c)));
        i = i + 1;
    }
    proof {
        assert(l@.take(n as int) =~= l@);
    }
    out
}

/// The marker before a JSON string field's value: `"<key>":"`.
pub open spec fn field_needle(key: Seq<char>) -> Seq<char> {
    "\""@ + key + "\":\""@
}

/// The text of a JSON string field, by a plain scan: the characters
/// between the quotes after `"<key>":"`, with no unescaping.  Where
/// the field is absent or unterminated, nothing is promised beyond
/// the scan finding no value.
pub fn extract_json_string_field(s: &str, key: &str) -> (r: Option<String>)
    ensures
        match r {
            Some(v) => strutil::contains_seq(s@, field_needle(key@) + v@ + "\""@) && (forall|k: int|
                0 <= k < v@.len() ==> v@[k] != '\"'),
            None => !strutil::contains_seq(s@, field_needle(key@)) || (exists|i: int|
                strutil::occurs_at(s@, field_needle(key@), i) && (forall|k: int|
                    0 <= k < i ==> !strutil::occurs_at(s@, field_needle(key@), k)) && (forall|k: int|
                    i + field_needle(key@).len() <= k < s@.len() ==> s@[k] != '\"')),
        },
{
    let mut needle = "\"".to_owned();
    needle.append(key);
    needle.append("\":\"");
    assert(needle@ == field_needle(key@));
    let start = match strutil::find_seq(s, needle.as_str()) {
        Some(i) => i,
        None => {
            return None;
        },
    };
    let n = s.unicode_len();
    let nl = needle.as_str().unicode_len();
    let from = start + nl;
    assert(from <= n);
    let mut j: usize = from;
    let mut out = String::new();
    while j < n
        invariant
            from <= j <= n,
            n == s@.len(),
            nl == needle@.len(),
            from == start + nl,
            needle@ == field_needle(key@),
            strutil::occurs_at(s@, needle@, start as int),
            forall|k: int| 0 <= k < start ==> !strutil::occurs_at(s@, needle@, k),
            out@ == s@.subrange(from as int, j as int),
            forall|k: int| 0 <= k < out@.len() ==> out@[k] != '\"',
        decreases n - j,
    {
        let c = s.get_char(j);
        if c == '\"' {
            proof {
                let whole = field_needle(key@) + out@ + "\""@;
                reveal_strlit("\"");
                assert(s@.subrange(start as int, j + 1) =~= whole);
                assert(strutil::occurs_at(s@, whole, start as int));
            }
            return Some(out);
        }
        push_char_via(&mut out, c);
        proof {
            assert(out@ =~= s@.subrange(from as int, j + 1));
        }
        j = j + 1;
    }
    proof {
        assert forall|k: int| from <= k < s@.len() implies s@[k] != '\"' by {
            assert(out@[k - from] == s@[k]);
        }
        assert(exists|i: int|
            strutil::occurs_at(s@, field_needle(key@), i) && (forall|k: int|
                0 <= k < i ==> !strutil::occurs_at(s@, field_needle(key@), k)) && (forall|k: int|
                i + field_needle(key@).len() <= k < s@.len() ==> s@[k] != '\"')) by {
            assert(strutil::occurs_at(s@, field_needle(key@), start as int));
            assert(forall|k: int|
                start + field_needle(key@).len() <= k < s@.len() ==> s@[k] != '\"');
        }
    }
    None
}

/// Accepts a pause response: the bridge must report `ok`, `paused`,
/// and the serial port closed (or unreported).
pub fn check_pause_response(port: u16, resp: &BridgeControlStatus) -> (r: Result<
    (),
    BridgeControlError,
>)
    ensures
        r is Ok <==> resp.ok && resp.paused && resp.serial_open != Some(true),
        r is Err ==> (r->Err_0 matches BridgeControlError::CommandFailed { cmd, message } && cmd@
            == spec_control_cmd_text("pause"@, port) && message@ == (if !resp.ok {
            match resp.message {
                Some(ref m) => m@,
                None => "unknown error"@,
            }
        } else if !resp.paused {
            "bridge did not enter paused state"@
        } else {
            "bridge reports serial_open=true after pause"@
        })),
{
    if !resp.ok {
        let msg = match &resp.message {
            Some(m) => m.clone(),
            None => "unknown error".to_owned(),
        };
        return Err(BridgeControlError::CommandFailed { cmd: control_cmd_text("pause", port), message: msg });
    }
    if !resp.paused {
        return Err(
            BridgeControlError::CommandFailed {
                cmd: control_cmd_text("pause", port),
                message: "bridge did not enter paused state".to_owned(),
            },
        );
    }
    match resp.serial_open {
        Some(true) => Err(
            BridgeControlError::CommandFailed {
                cmd: control_cmd_text("pause", port),
                message: "bridge reports serial_open=true after pause".to_owned(),
            },
        ),
        _ => Ok(()),
    }
}

/// Accepts a resume response: the bridge must report `ok` and no
/// longer paused.
pub fn check_resume_response(port: u16, resp: &BridgeControlStatus) -> (r: Result<
    (),
    BridgeControlError,
>)
    ensures
        r is Ok <==> resp.ok && !resp.paused,
        r is Err ==> (r->Err_0 matches BridgeControlError::CommandFailed { cmd, message } && cmd@
            == spec_control_cmd_text("resume"@, port) && message@ == (if !resp.ok {
            match resp.message {
                Some(ref m) => m@,
                None => "unknown error"@,
            }
        } else {
            "bridge still paused after resume"@
        })),
{
    if !resp.ok {
        let msg = match &resp.message {
            Some(m) => m.clone(),
            None => "unknown error".to_owned(),
        };
        return Err(BridgeControlError::CommandFailed { cmd: control_cmd_text("resume", port), message: msg });
    }
    if resp.paused {
        return Err(
            BridgeControlError::CommandFailed {
                cmd: control_cmd_text("resume", port),
                message: "bridge still paused after resume".to_owned(),
            },
        );
    }
    Ok(())
}

/// The control command named in error messages.
pub open spec fn spec_control_cmd_text(cmd: Seq<char>, port: u16) -> Seq<char> {
    "oc-bridge control "@ + cmd + " (port "@ + strutil::u64_chars(port as u64) + ")"@
}

/// Names a control command for error messages.
fn control_cmd_text(cmd: &str, port: u16) -> (r: String)
    ensures
        r@ == spec_control_cmd_text(cmd@, port),
{
    let mut s = "oc-bridge control ".to_owned();
    s.append(cmd);
    s.append(" (port ");
    s.append(strutil::u64_to_string(port as u64).as_str());
    s.append(")");
    s
}

impl BridgeControlError {
    /// The error as text.
    pub open spec fn spec_message(&self) -> Seq<char> {
        match self {
            BridgeControlError::CommandFailed { cmd, message } => "command failed: "@ + cmd@
                + ": "@ + message@,
            BridgeControlError::Timeout => "timeout"@,
            BridgeControlError::ProcessRestartUnavailable => "process restart unavailable"@,
        }
    }

    /// Renders the error as text.
    pub fn message(&self) -> (r: String)
        ensures
            r@ == self.spec_message(),
    {
        match self {
            BridgeControlError::CommandFailed { cmd, message } => {
                let mut s = "command failed: ".to_owned();
                s.append(cmd.as_str());
                s.append(": ");
                s.append(message.as_str());
                s
            },
            BridgeControlError::Timeout => "timeout".to_owned(),
            BridgeControlError::ProcessRestartUnavailable => {
                "process restart unavailable".to_owned()
            },
        }
    }
}

// ---------------------------------------------------------------------
// The process fallback.
// ---------------------------------------------------------------------

/// One process as a snapshot of the process table reports it.
#[derive(Debug, Clone)]
pub struct ProcessSnapshot {
    pub pid: u32,
    pub name: String,
    pub exe: Option<String>,
    pub cmd: Option<Vec<String>>,
}

/// A bridge process listed for callers: whether it can be stopped and
/// relaunched.
#[derive(Debug, Clone)]
pub struct OcBridgeProcessInfo {
    pub pid: u32,
    pub exe: Option<String>,
    pub cmd: Option<Vec<String>>,
    pub restartable: bool,
}

/// Takes a snapshot of the process table.
///
/// Relies on `sysinfo::System::new_with_specifics` and the `Process`
/// accessors: each entry carries the process id, name, executable path
/// and command line as the platform exposes them.  What is listed
/// depends on the machine's state, so nothing more is promised.
#[verifier::external_body]
fn snapshot_processes() -> (r: Vec<ProcessSnapshot>)
{
    let refresh = sysinfo::ProcessRefreshKind::nothing().with_exe(sysinfo::UpdateKind::OnlyIfNotSet).with_cmd(sysinfo::UpdateKind::OnlyIfNotSet);
    let system = sysinfo::System::new_with_specifics(sysinfo::RefreshKind::nothing().with_processes(refresh));
    system.processes().iter().map(|(pid, p)| ProcessSnapshot {
        pid: pid.as_u32(),
        name: p.name().to_string_lossy().to_string(),
        exe: p.exe().map(|e| e.to_string_lossy().to_string()),
        cmd: if p.cmd().is_empty() { None } else { Some(p.cmd().iter().map(|c| c.to_string_lossy().to_string()).collect()) },
    }).collect()
}

/// Is `name` the bridge process, with or without the Windows suffix,
/// in any case?
pub open spec fn spec_is_oc_bridge_name(name: Seq<char>) -> bool {
    strutil::lower_seq(name) == "oc-bridge"@ || strutil::lower_seq(name) == "oc-bridge.exe"@
}

/// Is `name` the bridge process name?
pub fn is_oc_bridge_name(name: &str) -> (r: bool)
    ensures
        r == spec_is_oc_bridge_name(name@),
{
    proof {
        reveal_strlit("oc-bridge");
        reveal_strlit("oc-bridge.exe");
        lemma_lower_fixed("oc-bridge"@);
        lemma_lower_fixed("oc-bridge.exe"@);
    }
    strutil::eq_ignore_ascii_case_str(name, "oc-bridge") || strutil::eq_ignore_ascii_case_str(
        name,
        "oc-bridge.exe",
    )
}

/// A name with no upper-case ASCII letters folds to itself.
proof fn lemma_lower_fixed(s: Seq<char>)
    requires
        forall|i: int| 0 <= i < s.len() ==> !('A' <= #[trigger] s[i] && s[i] <= 'Z'),
    ensures
        strutil::lower_seq(s) == s,
{
    assert(strutil::lower_seq(s) =~= s);
}

/// The bridge processes of a snapshot as caller records: each entry
/// carries its pid, executable and command line, and is restartable
/// exactly when its executable is known.
pub fn oc_bridge_process_infos(procs: Vec<ProcessSnapshot>) -> (r: Vec<OcBridgeProcessInfo>)
    ensures
        r@.len() == bridge_procs(procs@).len(),
        forall|i: int|
            0 <= i < r@.len() ==> {
                let bp = bridge_procs(procs@);
                (#[trigger] r@[i]).pid == bp[i].pid && r@[i].exe == bp[i].exe && r@[i].cmd
                    == bp[i].cmd && r@[i].restartable == (bp[i].exe is Some)
            },
{
    let ghost all = procs@;
    let mut rest = procs;
    let mut out: Vec<OcBridgeProcessInfo> = Vec::new();
    proof {
        reveal(Seq::filter);
        assert(all.take(0) =~= Seq::<ProcessSnapshot>::empty());
    }
    while rest.len() > 0
        invariant
            all == procs@,
            rest@.len() <= all.len(),
            rest@ == all.skip(all.len() - rest@.len()),
            out@.len() == bridge_procs(all.take(all.len() - rest@.len())).len(),
            forall|i: int|
                0 <= i < out@.len() ==> {
                    let bp = bridge_procs(all.take(all.len() - rest@.len()));
                    (#[trigger] out@[i]).pid == bp[i].pid && out@[i].exe == bp[i].exe && out@[i].cmd
                        == bp[i].cmd && out@[i].restartable == (bp[i].exe is Some)
                },
        decreases rest@.len(),
    {
        let ghost k = all.len() - rest@.len();
        let p = rest.remove(0);
        proof {
            assert(p == all.skip(k)[0]);
            assert(p == all[k]);
            assert(rest@ =~= all.skip(k + 1));
            reveal(Seq::filter);
            assert(all.take(k + 1).drop_last() =~= all.take(k));
            assert(all.take(k + 1).last() == all[k]);
        }
        if is_oc_bridge_name(p.name.as_str()) {
            let restartable = p.exe.is_some();
            out.push(OcBridgeProcessInfo { pid: p.pid, exe: p.exe, cmd: p.cmd, restartable });
            assert(bridge_procs(all.take(k + 1)) == bridge_procs(all.take(k)).push(all[k]));
        } else {
            assert(bridge_procs(all.take(k + 1)) == bridge_procs(all.take(k)));
        }
    }
    proof {
        assert(all.take(all.len() as int) =~= all);
    }
    out
}

/// Lists the bridge processes found in a fresh snapshot of the process
/// table: the snapshot is machine state, and what is made of it is the
/// contract of `oc_bridge_process_infos`.
pub fn list_oc_bridge_processes() -> (r: Vec<OcBridgeProcessInfo>)
    ensures
        forall|i: int|
            0 <= i < r@.len() ==> (#[trigger] r@[i]).restartable == (r@[i].exe is Some),
{
    oc_bridge_process_infos(snapshot_processes())
}

/// What the process fallback decided from a snapshot.
#[derive(Debug)]
pub enum ProcessPauseDecision {
    /// Stop these processes, then relaunch them with these commands.
    Stop { pids: Vec<u32>, relaunch: Vec<RelaunchCmd> },
    /// No bridge process is running.
    NotRunning,
    /// Some bridge process has no known executable: nothing will be
    /// terminated that cannot be restarted.
    NotRestartable,
}

/// The bridge processes of a snapshot, in order.
pub open spec fn bridge_procs(procs: Seq<ProcessSnapshot>) -> Seq<ProcessSnapshot> {
    procs.filter(|p: ProcessSnapshot| spec_is_oc_bridge_name(p.name@))
}

/// Decides the process fallback from a snapshot: nothing running is a
/// skip; a bridge process without a known executable refuses the whole
/// fallback; otherwise every bridge process is stopped and a relaunch
/// command recorded, with the default daemon arguments where the
/// command line is not exposed.
pub fn plan_process_pause(procs: Vec<ProcessSnapshot>) -> (r: ProcessPauseDecision)
    ensures
        ({
            let bp = bridge_procs(procs@);
            match r {
                ProcessPauseDecision::NotRunning => bp.len() == 0,
                ProcessPauseDecision::NotRestartable => exists|i: int|
                    0 <= i < bp.len() && (#[trigger] bp[i]).exe is None,
                ProcessPauseDecision::Stop { pids, relaunch } => bp.len() > 0 && pids@.len()
                    == bp.len() && relaunch@.len() == bp.len() && (forall|i: int|
                    0 <= i < bp.len() ==> (#[trigger] pids@[i]) == bp[i].pid) && (forall|i: int|
                    0 <= i < bp.len() ==> (#[trigger] relaunch@[i]).exe == bp[i].exe->0 && (
                    match bp[i].cmd {
                        Some(args) => relaunch@[i].args == args,
                        None => relaunch@[i].args@.map_values(|s: String| s@) =~~= seq![
                            "--daemon"@,
                            "--no-relaunch"@,
                        ],
                    })),
            }
        }),
{
    let ghost all = procs@;
    let ghost pred = |p: ProcessSnapshot| spec_is_oc_bridge_name(p.name@);
    let mut rest = procs;
    let mut pids: Vec<u32> = Vec::new();
    let mut relaunch: Vec<RelaunchCmd> = Vec::new();
    proof {
        reveal(Seq::filter);
        assert(all.take(0) =~= Seq::<ProcessSnapshot>::empty());
    }
    while rest.len() > 0
        invariant
            all == procs@,
            rest@.len() <= all.len(),
            rest@ == all.skip(all.len() - rest@.len()),
            pids@.len() == bridge_procs(all.take(all.len() - rest@.len())).len(),
            relaunch@.len() == pids@.len(),
            forall|i: int|
                0 <= i < pids@.len() ==> (#[trigger] pids@[i]) == bridge_procs(
                    all.take(all.len() - rest@.len()),
                )[i].pid,
            forall|i: int|
                0 <= i < relaunch@.len() ==> {
                    let bp = bridge_procs(all.take(all.len() - rest@.len()));
                    (#[trigger] relaunch@[i]).exe == bp[i].exe->0 && (match bp[i].cmd {
                        Some(args) => relaunch@[i].args == args,
                        None => relaunch@[i].args@.map_values(|s: String| s@) =~~= seq![
                            "--daemon"@,
                            "--no-relaunch"@,
                        ],
                    })
                },
            forall|i: int|
                0 <= i < bridge_procs(all.take(all.len() - rest@.len())).len() ==> (
                #[trigger] bridge_procs(all.take(all.len() - rest@.len()))[i]).exe is Some,
        decreases rest@.len(),
    {
        let ghost k = all.len() - rest@.len();
        let p = rest.remove(0);
        proof {
            assert(p == all.skip(k)[0]);
            assert(p == all[k]);
            assert(rest@ =~= all.skip(k + 1));
            reveal(Seq::filter);
            assert(all.take(k + 1).drop_last() =~= all.take(k));
            assert(all.take(k + 1).last() == all[k]);
        }
        let ghost bp0 = bridge_procs(all.take(k));
        let ghost bp1 = bridge_procs(all.take(k + 1));
        if is_oc_bridge_name(p.name.as_str()) {
            assert(bp1 == bp0.push(all[k]));
            let pid = p.pid;
            let exe = match p.exe {
                Some(e) => e,
                None => {
                    proof {
                        lemma_bridge_procs_prefix(all, k + 1);
                        assert(bp1[bp1.len() - 1] == all[k]);
                        assert(bp1[bp1.len() - 1] == bridge_procs(all)[bp1.len() - 1]);
                        assert(0 <= bp1.len() - 1 < bridge_procs(all).len());
                        assert(exists|i: int|
                            0 <= i < bridge_procs(all).len() && (#[trigger] bridge_procs(
                                all,
                            )[i]).exe is None) by {
                            assert((bridge_procs(all)[bp1.len() - 1]).exe is None);
                        }
                    }
                    return ProcessPauseDecision::NotRestartable;
                },
            };
            let args: Vec<String> = match p.cmd {
                Some(c) => c,
                None => {
                    let mut v: Vec<String> = Vec::new();
                    v.push("--daemon".to_owned());
                    v.push("--no-relaunch".to_owned());
                    assert(v@.map_values(|s: String| s@) =~~= seq!["--daemon"@, "--no-relaunch"@]);
                    v
                },
            };
            pids.push(pid);
            relaunch.push(RelaunchCmd { exe, args });
        } else {
            assert(bp1 == bp0);
        }
    }
    proof {
        assert(all.take(all.len() as int) =~= all);
    }
    if pids.len() == 0 {
        return ProcessPauseDecision::NotRunning;
    }
    ProcessPauseDecision::Stop { pids, relaunch }
}

/// A prefix of the snapshot contributes a prefix of its bridge
/// processes.
proof fn lemma_bridge_procs_prefix(all: Seq<ProcessSnapshot>, n: int)
    requires
        0 <= n <= all.len(),
    ensures
        bridge_procs(all.take(n)).len() <= bridge_procs(all).len(),
        forall|i: int|
            0 <= i < bridge_procs(all.take(n)).len() ==> #[trigger] bridge_procs(all.take(n))[i]
                == bridge_procs(all)[i],
    decreases all.len() - n,
{
    reveal(Seq::filter);
    if n < all.len() {
        lemma_bridge_procs_prefix(all, n + 1);
        assert(all.take(n + 1).drop_last() =~= all.take(n));
        assert(all.take(n + 1).last() == all[n]);
        let a = bridge_procs(all.take(n));
        let b = bridge_procs(all.take(n + 1));
        if spec_is_oc_bridge_name(all[n].name@) {
            assert(b == a.push(all[n]));
        } else {
            assert(b == a);
        }
        assert forall|i: int| 0 <= i < a.len() implies #[trigger] a[i] == bridge_procs(all)[i] by {
            assert(a[i] == b[i]);
            assert(b[i] == bridge_procs(all)[i]);
        }
    } else {
        assert(all.take(n) =~= all);
    }
}



// ---------------------------------------------------------------------
// The pause escalation.
// ---------------------------------------------------------------------

/// What the caller must do next to pause the bridge.
#[derive(Debug)]
pub enum PauseNext {
    /// The attempt is decided.
    Done(BridgePause),
    /// Send the control pause request.
    TryControl { port: u16, timeout_ms: u64 },
    /// Query the service manager.
    QueryService { id: String },
    /// Issue the stop command and wait for the service to stop.
    StopService { id: String },
    /// Take a snapshot of the process table.
    ListProcesses,
    /// Stop these processes, wait for them to vanish, and remember the
    /// relaunch plan.
    StopProcesses { pids: Vec<u32>, relaunch: Vec<RelaunchCmd>, info: BridgePauseInfo },
}

/// The identifier reported for a control-method pause.
pub open spec fn spec_control_id(port: u16) -> Seq<char> {
    "127.0.0.1:"@ + strutil::u64_chars(port as u64)
}

/// The first step of a pause: disabled configurations skip at once;
/// otherwise the chosen strategy begins, `Auto` with the control
/// request.  A `Process` request without the fallback allowance fails.
pub fn pause_start(opts: &BridgeControlOptions, platform: Platform) -> (n: PauseNext)
    ensures
        ({
            let id = spec_service_id(*opts, platform);
            if !opts.enabled || opts.method == BridgeControlMethod::Off {
                n matches PauseNext::Done(p) && p.guard is None && (p.outcome matches
                    BridgePauseOutcome::Skipped(r2) && r2 == BridgePauseSkipReason::Disabled)
            } else {
                match opts.method {
                    BridgeControlMethod::Auto | BridgeControlMethod::Control => n matches
                        PauseNext::TryControl { port, timeout_ms } && port == opts.control_port
                        && timeout_ms == opts.control_timeout_ms,
                    BridgeControlMethod::Service => n matches PauseNext::QueryService { id: i2 }
                        && i2@ == id,
                    BridgeControlMethod::Process => {
                        if opts.allow_process_fallback {
                            n is ListProcesses
                        } else {
                            n matches PauseNext::Done(p) && p.guard is None && (
                            p.outcome matches BridgePauseOutcome::Failed(e) && e.message@
                                == "process fallback disabled"@ && (e.hint matches Some(h) && h@
                                == "Remove --no-process-fallback"@))
                        }
                    },
                    BridgeControlMethod::Off => false,
                }
            }
        }),
{
    if !opts.enabled || matches!(opts.method, BridgeControlMethod::Off) {
        return PauseNext::Done(
            BridgePause {
                guard: None,
                outcome: BridgePauseOutcome::Skipped(BridgePauseSkipReason::Disabled),
            },
        );
    }
    match opts.method {
        BridgeControlMethod::Auto | BridgeControlMethod::Control => PauseNext::TryControl {
            port: opts.control_port,
            timeout_ms: opts.control_timeout_ms,
        },
        BridgeControlMethod::Service => PauseNext::QueryService {
            id: service_id_of(opts, platform),
        },
        BridgeControlMethod::Process => {
            if opts.allow_process_fallback {
                PauseNext::ListProcesses
            } else {
                PauseNext::Done(
                    BridgePause {
                        guard: None,
                        outcome: BridgePauseOutcome::Failed(
                            BridgeControlErrorInfo {
                                message: "process fallback disabled".to_owned(),
                                hint: Some("Remove --no-process-fallback".to_owned()),
                            },
                        ),
                    },
                )
            }
        },
        BridgeControlMethod::Off => PauseNext::Done(
            BridgePause {
                guard: None,
                outcome: BridgePauseOutcome::Skipped(BridgePauseSkipReason::Disabled),
            },
        ),
    }
}

/// After the control request: success is a pause with a control resume
/// plan; failure falls through to the service under `Auto` and fails a
/// control-only pause, with the command to try by hand.
pub fn pause_after_control(
    opts: &BridgeControlOptions,
    platform: Platform,
    r: &Result<(), BridgeControlError>,
) -> (n: PauseNext)
    requires
        opts.method == BridgeControlMethod::Auto || opts.method == BridgeControlMethod::Control,
    ensures
        ({
            match r {
                Ok(()) => n matches PauseNext::Done(p) && p.wf() && (
                p.outcome matches BridgePauseOutcome::Paused(info) && info.method
                    == BridgePauseMethod::Control && info.id@ == spec_control_id(opts.control_port)
                    && info.pids@.len() == 0) && (p.guard matches Some(g) && (
                g.resume matches Some(ResumePlan::Control { port, timeout_ms }) && port
                    == opts.control_port && timeout_ms == opts.control_timeout_ms)
                    && g.timeout_ms == opts.timeout_ms && g.platform == platform),
                Err(e) => {
                    if opts.method == BridgeControlMethod::Auto {
                        n matches PauseNext::QueryService { id } && id@ == spec_service_id(
                            *opts,
                            platform,
                        )
                    } else {
                        n matches PauseNext::Done(p) && p.guard is None && (
                        p.outcome matches BridgePauseOutcome::Failed(info) && info.message@
                            == "oc-bridge control pause failed: "@ + e.spec_message() && (
                        info.hint matches Some(h) && h@ == "Try: oc-bridge ctl pause --control-port "@
                            + strutil::u64_chars(opts.control_port as u64)))
                    }
                },
            }
        }),
{
    match r {
        Ok(()) => {
            let mut id = "127.0.0.1:".to_owned();
            id.append(strutil::u64_to_string(opts.control_port as u64).as_str());
            PauseNext::Done(
                BridgePause {
                    guard: Some(
                        BridgeGuard {
                            resume: Some(
                                ResumePlan::Control {
                                    port: opts.control_port,
                                    timeout_ms: opts.control_timeout_ms,
                                },
                            ),
                            timeout_ms: opts.timeout_ms,
                            platform,
                        },
                    ),
                    outcome: BridgePauseOutcome::Paused(
                        BridgePauseInfo {
                            method: BridgePauseMethod::Control,
                            id,
                            pids: Vec::new(),
                        },
                    ),
                },
            )
        },
        Err(e) => {
            if matches!(opts.method, BridgeControlMethod::Auto) {
                PauseNext::QueryService { id: service_id_of(opts, platform) }
            } else {
                let mut message = "oc-bridge control pause failed: ".to_owned();
                message.append(e.message().as_str());
                let mut hint = "Try: oc-bridge ctl pause --control-port ".to_owned();
                hint.append(strutil::u64_to_string(opts.control_port as u64).as_str());
                PauseNext::Done(
                    BridgePause {
                        guard: None,
                        outcome: BridgePauseOutcome::Failed(
                            BridgeControlErrorInfo { message, hint: Some(hint) },
                        ),
                    },
                )
            }
        },
    }
}

/// After the service query: a running service is stopped; a stopped
/// one skips the pause; a missing one skips it too, except that `Auto`
/// may fall through to the process fallback.  A query failure is
/// fail-safe: nothing further is guessed at, the pause fails.
pub fn pause_after_service_query(
    opts: &BridgeControlOptions,
    platform: Platform,
    id: &str,
    st: &Result<ServiceStatus, BridgeControlError>,
) -> (n: PauseNext)
    requires
        opts.method == BridgeControlMethod::Auto || opts.method == BridgeControlMethod::Service,
    ensures
        ({
            match st {
                Ok(ServiceStatus::Running) => n matches PauseNext::StopService { id: i2 } && i2@
                    == id@,
                Ok(ServiceStatus::Stopped) => n matches PauseNext::Done(p) && p.guard is None && (
                p.outcome matches BridgePauseOutcome::Skipped(r2) && r2
                    == BridgePauseSkipReason::NotRunning),
                Ok(ServiceStatus::NotInstalled) => {
                    if opts.method == BridgeControlMethod::Auto && opts.allow_process_fallback {
                        n is ListProcesses
                    } else {
                        n matches PauseNext::Done(p) && p.guard is None && (
                        p.outcome matches BridgePauseOutcome::Skipped(r2) && r2
                            == BridgePauseSkipReason::NotInstalled)
                    }
                },
                Err(e) => n matches PauseNext::Done(p) && p.guard is None && (
                p.outcome matches BridgePauseOutcome::Failed(info) && info.message@
                    == "unable to query bridge service '"@ + id@ + "': "@ + e.spec_message() && (
                info.hint matches Some(h) && h@ == spec_hint_query_service(platform, id@))),
            }
        }),
{
    match st {
        Ok(ServiceStatus::Running) => PauseNext::StopService { id: id.to_owned() },
        Ok(ServiceStatus::Stopped) => PauseNext::Done(
            BridgePause {
                guard: None,
                outcome: BridgePauseOutcome::Skipped(BridgePauseSkipReason::NotRunning),
            },
        ),
        Ok(ServiceStatus::NotInstalled) => {
            if matches!(opts.method, BridgeControlMethod::Auto) && opts.allow_process_fallback {
                PauseNext::ListProcesses
            } else {
                PauseNext::Done(
                    BridgePause {
                        guard: None,
                        outcome: BridgePauseOutcome::Skipped(BridgePauseSkipReason::NotInstalled),
                    },
                )
            }
        },
        Err(e) => {
            let mut message = "unable to query bridge service '".to_owned();
            message.append(id);
            message.append("': ");
            message.append(e.message().as_str());
            PauseNext::Done(
                BridgePause {
                    guard: None,
                    outcome: BridgePauseOutcome::Failed(
                        BridgeControlErrorInfo {
                            message,
                            hint: Some(hint_query_service(platform, id)),
                        },
                    ),
                },
            )
        },
    }
}

/// After stopping the service: success is a pause with a service
/// resume plan; failure fails the pause with the stop command to try
/// by hand.
pub fn pause_after_service_stop(
    opts: &BridgeControlOptions,
    platform: Platform,
    id: &str,
    r: &Result<(), String>,
) -> (n: PauseNext)
    ensures
        ({
            match r {
                Ok(()) => n matches PauseNext::Done(p) && p.wf() && (
                p.outcome matches BridgePauseOutcome::Paused(info) && info.method
                    == BridgePauseMethod::Service && info.id@ == id@ && info.pids@.len() == 0) && (
                p.guard matches Some(g) && (g.resume matches Some(ResumePlan::Service { id: i2 })
                    && i2@ == id@) && g.timeout_ms == opts.timeout_ms && g.platform == platform),
                Err(e) => n matches PauseNext::Done(p) && p.guard is None && (
                p.outcome matches BridgePauseOutcome::Failed(info) && info.message@
                    == "unable to stop bridge service '"@ + id@ + "': "@ + e@ && (
                info.hint matches Some(h) && h@ == spec_hint_stop_service(platform, id@))),
            }
        }),
{
    match r {
        Ok(()) => PauseNext::Done(
            BridgePause {
                guard: Some(
                    BridgeGuard {
                        resume: Some(ResumePlan::Service { id: id.to_owned() }),
                        timeout_ms: opts.timeout_ms,
                        platform,
                    },
                ),
                outcome: BridgePauseOutcome::Paused(
                    BridgePauseInfo {
                        method: BridgePauseMethod::Service,
                        id: id.to_owned(),
                        pids: Vec::new(),
                    },
                ),
            },
        ),
        Err(e) => {
            let mut message = "unable to stop bridge service '".to_owned();
            message.append(id);
            message.append("': ");
            message.append(e.as_str());
            PauseNext::Done(
                BridgePause {
                    guard: None,
                    outcome: BridgePauseOutcome::Failed(
                        BridgeControlErrorInfo {
                            message,
                            hint: Some(hint_stop_service(platform, id)),
                        },
                    ),
                },
            )
        },
    }
}

/// After the process snapshot: no bridge process skips the pause; one
/// that cannot be restarted refuses the fallback, as a skip under
/// `Auto` and as a failure when the caller asked for the process
/// strategy itself; otherwise the listed processes are stopped.
pub fn pause_after_process_list(
    opts: &BridgeControlOptions,
    decision: ProcessPauseDecision,
) -> (n: PauseNext)
    ensures
        ({
            match decision {
                ProcessPauseDecision::NotRunning => n matches PauseNext::Done(p) && p.guard is None
                    && (p.outcome matches BridgePauseOutcome::Skipped(r2) && r2
                    == BridgePauseSkipReason::NotRunning),
                ProcessPauseDecision::NotRestartable => {
                    if opts.method == BridgeControlMethod::Process {
                        n matches PauseNext::Done(p) && p.guard is None && (
                        p.outcome matches BridgePauseOutcome::Failed(info) && info.message@
                            == "process fallback unavailable: the process is not restartable"@)
                    } else {
                        n matches PauseNext::Done(p) && p.guard is None && (
                        p.outcome matches BridgePauseOutcome::Skipped(r2) && r2
                            == BridgePauseSkipReason::ProcessNotRestartable)
                    }
                },
                ProcessPauseDecision::Stop { pids, relaunch } => n matches
                    PauseNext::StopProcesses { pids: p2, relaunch: r2, info } && p2 == pids && r2
                    == relaunch && info.method == BridgePauseMethod::Process && info.id@
                    == "oc-bridge"@ && info.pids@ == pids@,
            }
        }),
{
    match decision {
        ProcessPauseDecision::NotRunning => PauseNext::Done(
            BridgePause {
                guard: None,
                outcome: BridgePauseOutcome::Skipped(BridgePauseSkipReason::NotRunning),
            },
        ),
        ProcessPauseDecision::NotRestartable => {
            if matches!(opts.method, BridgeControlMethod::Process) {
                PauseNext::Done(
                    BridgePause {
                        guard: None,
                        outcome: BridgePauseOutcome::Failed(
                            BridgeControlErrorInfo {
                                message:
                                    "process fallback unavailable: the process is not restartable".to_owned(),
                                hint: Some(
                                    "Ensure process-fallback support is enabled and the process is restartable".to_owned(),
                                ),
                            },
                        ),
                    },
                )
            } else {
                PauseNext::Done(
                    BridgePause {
                        guard: None,
                        outcome: BridgePauseOutcome::Skipped(
                            BridgePauseSkipReason::ProcessNotRestartable,
                        ),
                    },
                )
            }
        },
        ProcessPauseDecision::Stop { pids, relaunch } => {
            let mut pids2: Vec<u32> = Vec::new();
            let mut i: usize = 0;
            let n = pids.len();
            while i < n
                invariant
                    0 <= i <= n,
                    n == pids@.len(),
                    pids2@ =~= pids@.take(i as int),
                decreases n - i,
            {
                pids2.push(pids[i]);
                assert(pids2@ =~= pids@.take(i + 1));
                i = i + 1;
            }
            assert(pids2@ =~= pids@);
            let info = BridgePauseInfo {
                method: BridgePauseMethod::Process,
                id: "oc-bridge".to_owned(),
                pids: pids2,
            };
            PauseNext::StopProcesses { pids, relaunch, info }
        },
    }
}

/// After stopping the processes: success is a pause with the relaunch
/// plan; failure fails the pause.
pub fn pause_after_process_stop(
    opts: &BridgeControlOptions,
    platform: Platform,
    info: BridgePauseInfo,
    relaunch: Vec<RelaunchCmd>,
    r: &Result<(), String>,
) -> (n: PauseNext)
    ensures
        ({
            match r {
                Ok(()) => n matches PauseNext::Done(p) && p.wf() && (
                p.outcome matches BridgePauseOutcome::Paused(i2) && i2 == info) && (
                p.guard matches Some(g) && (g.resume matches Some(
                    ResumePlan::Processes { cmds },
                ) && cmds == relaunch) && g.timeout_ms == opts.timeout_ms && g.platform
                    == platform),
                Err(e) => n matches PauseNext::Done(p) && p.guard is None && (
                p.outcome matches BridgePauseOutcome::Failed(i2) && i2.message@
                    == "unable to stop oc-bridge process: "@ + e@ && i2.hint is None),
            }
        }),
{
    match r {
        Ok(()) => PauseNext::Done(
            BridgePause {
                guard: Some(
                    BridgeGuard {
                        resume: Some(ResumePlan::Processes { cmds: relaunch }),
                        timeout_ms: opts.timeout_ms,
                        platform,
                    },
                ),
                outcome: BridgePauseOutcome::Paused(info),
            },
        ),
        Err(e) => {
            let mut message = "unable to stop oc-bridge process: ".to_owned();
            message.append(e.as_str());
            PauseNext::Done(
                BridgePause {
                    guard: None,
                    outcome: BridgePauseOutcome::Failed(
                        BridgeControlErrorInfo { message, hint: None },
                    ),
                },
            )
        },
    }
}



// ---------------------------------------------------------------------
// Interpreting service-manager output.
// ---------------------------------------------------------------------

/// The first line of `lines` from `i` holding more than whitespace,
/// trimmed; empty where no line does.
pub open spec fn first_nonblank_trimmed(lines: Seq<Seq<char>>, i: int) -> Seq<char>
    decreases lines.len() - i,
{
    if i < 0 || i >= lines.len() {
        Seq::empty()
    } else if strutil::trim_chars(lines[i]).len() != 0 {
        strutil::trim_chars(lines[i])
    } else {
        first_nonblank_trimmed(lines, i + 1)
    }
}

/// The first line of `text` holding more than whitespace, trimmed.
pub open spec fn spec_first_nonblank(text: Seq<char>) -> Seq<char> {
    first_nonblank_trimmed(strutil::split_seq(text, '\n'), 0)
}

/// The first line of `text` holding more than whitespace, trimmed.
fn first_nonblank_trimmed_exec(text: &str) -> (r: String)
    ensures
        r@ == spec_first_nonblank(text@),
{
    let lines = split_str_lines(text);
    let ghost ls = strutil::split_seq(text@, '\n');
    let n = lines.len();
    let mut i: usize = 0;
    while i < n
        invariant
            0 <= i <= n,
            n == ls.len(),
            ls == strutil::split_seq(text@, '\n'),
            lines@.len() == ls.len(),
            forall|k: int| 0 <= k < n ==> (#[trigger] lines@[k])@ == ls[k],
            first_nonblank_trimmed(ls, 0) == first_nonblank_trimmed(ls, i as int),
        decreases n - i,
    {
        let l: &str = lines[i].as_str();
        let b = strutil::trim_str_bounds(l);
        if b.1 > b.0 {
            assert(strutil::trim_chars(ls[i as int]).len() != 0);
            let t = l.substring_char(b.0, b.1);
            return t.to_owned();
        }
        assert(strutil::trim_chars(ls[i as int]).len() == 0);
        i = i + 1;
    }
    let r = String::new();
    assert(r@ =~= first_nonblank_trimmed(ls, n as int));
    r
}

/// What `systemctl --user is-active` output means.
///
/// The first meaningful line decides where it names a known state;
/// otherwise a missing unit is recognized in the text, and the exit
/// code settles the rest.
pub open spec fn spec_linux_status(code: int, text: Seq<char>) -> ServiceStatus {
    let fl = strutil::lower_seq(spec_first_nonblank(text));
    if fl == "active"@ || fl == "activating"@ || fl == "deactivating"@ {
        ServiceStatus::Running
    } else if fl == "inactive"@ || fl == "failed"@ {
        ServiceStatus::Stopped
    } else if fl == "unknown"@ {
        ServiceStatus::NotInstalled
    } else if strutil::contains_seq(text, "not-found"@) || strutil::contains_seq(
        text,
        "could not be found"@,
    ) {
        ServiceStatus::NotInstalled
    } else if code == 0 {
        ServiceStatus::Running
    } else {
        ServiceStatus::Stopped
    }
}

/// Interprets `systemctl --user is-active` output.
pub fn interpret_systemctl_is_active(code: i32, text: &str) -> (r: ServiceStatus)
    ensures
        r == spec_linux_status(code as int, text@),
{
    let first = first_nonblank_trimmed_exec(text);
    let fl = lower_string(first.as_str());
    if fl == "active".to_owned() || fl == "activating".to_owned() || fl
        == "deactivating".to_owned() {
        ServiceStatus::Running
    } else if fl == "inactive".to_owned() || fl == "failed".to_owned() {
        ServiceStatus::Stopped
    } else if fl == "unknown".to_owned() {
        ServiceStatus::NotInstalled
    } else if strutil::contains_str(text, "not-found") || strutil::contains_str(
        text,
        "could not be found",
    ) {
        ServiceStatus::NotInstalled
    } else if code == 0 {
        ServiceStatus::Running
    } else {
        ServiceStatus::Stopped
    }
}

/// `s` folded to ASCII lower case.
fn lower_string(s: &str) -> (r: String)
    ensures
        r@ == strutil::lower_seq(s@),
{
    let n = s.unicode_len();
    let mut out = String::new();
    let mut i: usize = 0;
    while i < n
        invariant
            0 <= i <= n,
            n == s@.len(),
            out@ =~= strutil::lower_seq(s@.take(i as int)),
        decreases n - i,
    {
        let c = strutil::lower_char_exec(s.get_char(i));
        push_char_via(&mut out, c);
        proof {
            assert(s@.take(i + 1).drop_last() =~= s@.take(i as int));
            assert(s@.take(i + 1).last() == s@[i as int]);
            assert(out@ =~= strutil::lower_seq(s@.take(i + 1)));
        }
        i = i + 1;
    }
    proof {
        assert(s@.take(n as int) =~= s@);
    }
    out
}

/// The characters of `s` up to its first whitespace.
pub open spec fn nonspace_prefix(s: Seq<char>) -> Seq<char>
    decreases s.len(),
{
    if s.len() > 0 && !strutil::is_space_char(s[0]) {
        seq![s[0]] + nonspace_prefix(s.skip(1))
    } else {
        Seq::empty()
    }
}

/// What a `launchctl list <label>` row reports: the first field is a
/// process id when the job runs, or `-` when it is loaded but not
/// running.  An unreadable row is reported as nothing, and the caller
/// stays conservative.
pub open spec fn spec_launchctl_status(text: Seq<char>) -> Option<ServiceStatus> {
    let token = nonspace_prefix(spec_first_nonblank(text));
    if token =~= "-"@ {
        Some(ServiceStatus::Stopped)
    } else if strutil::parses_as_usize(token) && strutil::digits_val(
        strutil::usize_digits_of(token),
    ) <= u32::MAX {
        Some(ServiceStatus::Running)
    } else {
        None
    }
}

/// Reads the status row of `launchctl list <label>` output.
pub fn parse_launchctl_list_status(text: &str) -> (r: Option<ServiceStatus>)
    ensures
        r == spec_launchctl_status(text@),
{
    proof {
        reveal_strlit("-");
    }
    let first = first_nonblank_trimmed_exec(text);
    let fs: &str = first.as_str();
    let n = fs.unicode_len();
    let ghost token = nonspace_prefix(first@);
    let mut k: usize = 0;
    loop
        invariant
            0 <= k <= n,
            n == fs@.len(),
            fs@ == first@,
            token == nonspace_prefix(first@),
            forall|q: int| 0 <= q < k ==> !strutil::is_space_char(#[trigger] fs@[q]),
        ensures
            0 <= k <= n,
            fs@ == first@,
            forall|q: int| 0 <= q < k ==> !strutil::is_space_char(#[trigger] fs@[q]),
            k < n ==> strutil::is_space_char(fs@[k as int]),
        decreases n - k,
    {
        if k >= n {
            break;
        }
        let c = fs.get_char(k);
        if c == ' ' || c == '\t' || c == '\n' || c == '\r' || c == '\u{b}' || c == '\u{c}' {
            break;
        }
        k = k + 1;
    }
    proof {
        lemma_nonspace_prefix_is(first@, k as int);
    }
    let tok: &str = fs.substring_char(0, k);
    assert(tok@ == token);
    if strutil::str_eq(tok, "-") {
        return Some(ServiceStatus::Stopped);
    }
    match strutil::parse_usize(tok) {
        Some(v) => {
            if v <= u32::MAX as usize {
                Some(ServiceStatus::Running)
            } else {
                None
            }
        },
        None => None,
    }
}

/// The nonspace prefix is the scan up to the first whitespace.
proof fn lemma_nonspace_prefix_is(s: Seq<char>, k: int)
    requires
        0 <= k <= s.len(),
        forall|q: int| 0 <= q < k ==> !strutil::is_space_char(#[trigger] s[q]),
        k < s.len() ==> strutil::is_space_char(s[k]),
    ensures
        nonspace_prefix(s) == s.subrange(0, k),
    decreases k,
{
    if k == 0 {
        assert(s.subrange(0, 0) =~= Seq::<char>::empty());
    } else {
        assert(!strutil::is_space_char(s[0]));
        lemma_nonspace_prefix_is(s.skip(1), k - 1);
        assert(s.skip(1).subrange(0, k - 1) =~= s.subrange(1, k));
        assert(seq![s[0]] + s.subrange(1, k) =~= s.subrange(0, k));
    }
}

/// What a Windows `sc query` answer means: a nonzero exit naming error
/// 1060 is a missing service and any other nonzero exit is a failure;
/// otherwise the numeric state decides, `1` stopped, anything else
/// running, and an answer without a readable state is a failure.
pub open spec fn spec_windows_status(id: Seq<char>, code: int, text: Seq<char>) -> Result<
    ServiceStatus,
    (Seq<char>, Seq<char>),
> {
    if code != 0 {
        if strutil::contains_seq(text, "1060"@) {
            Ok(ServiceStatus::NotInstalled)
        } else {
            Err(("sc query "@ + id, text))
        }
    } else {
        match spec_parse_sc_state(text) {
            Some(1u32) => Ok(ServiceStatus::Stopped),
            Some(_) => Ok(ServiceStatus::Running),
            None => Err(("sc query "@ + id, "unable to parse service state"@)),
        }
    }
}

/// Interprets a Windows `sc query` answer.
pub fn interpret_sc_query(id: &str, code: i32, text: &str) -> (r: Result<
    ServiceStatus,
    BridgeControlError,
>)
    ensures
        ({
            match spec_windows_status(id@, code as int, text@) {
                Ok(s) => r matches Ok(s2) && s2 == s,
                Err((cmd, msg)) => r matches Err(BridgeControlError::CommandFailed {
                    cmd: c2,
                    message: m2,
                }) && c2@ == cmd && m2@ == msg,
            }
        }),
{
    if code != 0 {
        if strutil::contains_str(text, "1060") {
            return Ok(ServiceStatus::NotInstalled);
        }
        let mut cmd = "sc query ".to_owned();
        cmd.append(id);
        return Err(BridgeControlError::CommandFailed { cmd, message: text.to_owned() });
    }
    match parse_sc_state(text) {
        Some(v) => {
            if v == 1 {
                Ok(ServiceStatus::Stopped)
            } else {
                Ok(ServiceStatus::Running)
            }
        },
        None => {
            let mut cmd = "sc query ".to_owned();
            cmd.append(id);
            Err(
                BridgeControlError::CommandFailed {
                    cmd,
                    message: "unable to parse service state".to_owned(),
                },
            )
        },
    }
}

/// Is the observed state what a stop waits for?  A service that is
/// gone counts as stopped.
pub fn service_stop_satisfied(s: ServiceStatus) -> (r: bool)
    ensures
        r == (s == ServiceStatus::Stopped || s == ServiceStatus::NotInstalled),
{
    matches!(s, ServiceStatus::Stopped | ServiceStatus::NotInstalled)
}

/// Is the observed state what a start waits for?
pub fn service_start_satisfied(s: ServiceStatus) -> (r: bool)
    ensures
        r == (s == ServiceStatus::Running),
{
    matches!(s, ServiceStatus::Running)
}

/// The error for starting a service that is not installed.
pub fn start_not_installed_error(p: Platform, id: &str) -> (r: BridgeControlError)
    ensures
        r matches BridgeControlError::CommandFailed { cmd, message } && cmd@
            == spec_start_service_cmd(p, id@) && message@ == "service is not installed"@,
{
    BridgeControlError::CommandFailed {
        cmd: start_service_cmd_string(p, id),
        message: "service is not installed".to_owned(),
    }
}

/// The error reported when a service action did not reach its state
/// within the budget: the command to blame and what was observed.
pub fn service_action_error(
    p: Platform,
    stopping: bool,
    id: &str,
    timeout_ms: u64,
    detail: &str,
) -> (r: BridgeControlError)
    ensures
        ({
            let cmd = if stopping {
                spec_stop_service_cmd(p, id@)
            } else {
                spec_start_service_cmd(p, id@)
            };
            let verb = if stopping {
                "stop"@
            } else {
                "start"@
            };
            r matches BridgeControlError::CommandFailed { cmd: c2, message } && c2@ == cmd
                && message@ == "timeout waiting for service to "@ + verb + " (timeout "@
                + strutil::u64_chars(timeout_ms) + " ms)"@ + detail@
        }),
{
    let cmd = if stopping {
        stop_service_cmd_string(p, id)
    } else {
        start_service_cmd_string(p, id)
    };
    let mut message = "timeout waiting for service to ".to_owned();
    if stopping {
        message.append("stop");
    } else {
        message.append("start");
    }
    message.append(" (timeout ");
    message.append(strutil::u64_to_string(timeout_ms).as_str());
    message.append(" ms)");
    message.append(detail);
    BridgeControlError::CommandFailed { cmd, message }
}



/// What a `launchctl list <label>` answer means: a readable row
/// decides; an unreadable row on success is conservatively running; a
/// failure naming an unknown label is a missing service, any other
/// failure a stopped one.
pub open spec fn spec_macos_status(code: int, text: Seq<char>) -> ServiceStatus {
    if code == 0 {
        match spec_launchctl_status(text) {
            Some(s) => s,
            None => ServiceStatus::Running,
        }
    } else {
        let lower = strutil::lower_seq(text);
        if strutil::contains_seq(lower, "could not find"@) || strutil::contains_seq(
            lower,
            "no such process"@,
        ) {
            ServiceStatus::NotInstalled
        } else {
            ServiceStatus::Stopped
        }
    }
}

/// Interprets a `launchctl list <label>` answer.
pub fn interpret_launchctl_query(code: i32, text: &str) -> (r: ServiceStatus)
    ensures
        r == spec_macos_status(code as int, text@),
{
    if code == 0 {
        match parse_launchctl_list_status(text) {
            Some(s) => s,
            None => ServiceStatus::Running,
        }
    } else {
        let lower = lower_string(text);
        if strutil::contains_str(lower.as_str(), "could not find") || strutil::contains_str(
            lower.as_str(),
            "no such process",
        ) {
            ServiceStatus::NotInstalled
        } else {
            ServiceStatus::Stopped
        }
    }
}

/// The service state read from one query of the platform's service
/// manager, given the command's exit code and combined output.
pub fn service_status(p: Platform, id: &str, status_code: i32, text: &str) -> (r: Result<
    ServiceStatus,
    BridgeControlError,
>)
    ensures
        match p {
            Platform::Windows => match spec_windows_status(id@, status_code as int, text@) {
                Ok(s) => r matches Ok(s2) && s2 == s,
                Err((cmd, msg)) => r matches Err(BridgeControlError::CommandFailed {
                    cmd: c2,
                    message: m2,
                }) && c2@ == cmd && m2@ == msg,
            },
            Platform::Linux => r matches Ok(s) && s == spec_linux_status(
                status_code as int,
                text@,
            ),
            Platform::MacOs => r matches Ok(s) && s == spec_macos_status(
                status_code as int,
                text@,
            ),
            Platform::Other => r matches Ok(s) && s == ServiceStatus::NotInstalled,
        },
{
    match p {
        Platform::Windows => interpret_sc_query(id, status_code, text),
        Platform::Linux => Ok(interpret_systemctl_is_active(status_code, text)),
        Platform::MacOs => Ok(interpret_launchctl_query(status_code, text)),
        Platform::Other => Ok(ServiceStatus::NotInstalled),
    }
}


} // verus!
