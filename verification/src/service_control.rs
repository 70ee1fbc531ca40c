//! Control of the system service that the station runs as.
use crate::number::{ascii_alnum, is_ascii_alnum};
use crate::text::{
    chars_of, ends_with, has_char, line_seq, lines, lossy, lossy_text, opt_str, opt_view, pieces,
    split, trim, trimmed, views,
};
use vstd::prelude::*;
use vstd::string::*;

verus! {

/// The unit that is assumed where nothing tells another.
pub const DEFAULT_SERVICE_UNIT: &'static str = "tetra-bluestation.service";

/// What can be asked of the service.
#[derive(Debug, Clone, Copy, PartialEq, Eq, Structural)]
pub enum ServiceAction {
    Restart,
    Stop,
}

/// The verb by which the service manager knows an action.
pub open spec fn action_verb(action: ServiceAction) -> Seq<char> {
    match action {
        ServiceAction::Restart => "restart"@,
        ServiceAction::Stop => "stop"@,
    }
}

/// The name of an action in reports.
pub open spec fn action_label(action: ServiceAction) -> Seq<char> {
    match action {
        ServiceAction::Restart => "restart"@,
        ServiceAction::Stop => "shutdown"@,
    }
}

impl ServiceAction {
    /// The verb by which the service manager knows the action.
    pub fn systemctl_verb(self) -> (out: &'static str)
        ensures
            out@ == action_verb(self),
    {
        match self {
            ServiceAction::Restart => "restart",
            ServiceAction::Stop => "stop",
        }
    }

    /// The name of the action in reports.
    pub fn label(self) -> (out: &'static str)
        ensures
            out@ == action_label(self),
    {
        match self {
            ServiceAction::Restart => "restart",
            ServiceAction::Stop => "shutdown",
        }
    }
}

// ---------------------------------------------------------------------------------------------
// Unit names
// ---------------------------------------------------------------------------------------------
/// A character that a unit name may hold.
pub open spec fn is_unit_char(c: char) -> bool {
    is_ascii_alnum(c) || c == '.' || c == '-' || c == '_' || c == '@' || c == ':' || c == '\\'
}

/// Whether a name consists of unit name characters.
pub open spec fn is_unit_name(s: Seq<char>) -> bool {
    forall|i: int| 0 <= i < s.len() ==> is_unit_char(#[trigger] s[i])
}

/// The unit that `raw` names: without surrounding white space, and with the suffix of a service.
/// A path, or a name with other characters than unit names have, names none.
pub open spec fn normalized_unit(raw: Seq<char>) -> Option<Seq<char>> {
    let name = trimmed(raw);
    let unit = if ".service"@.is_suffix_of(name) {
        name
    } else {
        name + ".service"@
    };
    if name.len() == 0 || name.contains('/') || name.contains('\0') || !is_unit_name(unit) {
        None
    } else {
        Some(unit)
    }
}

/// The first component that ends in the suffix of a service.
pub open spec fn first_service(parts: Seq<Seq<char>>) -> Option<Seq<char>>
    decreases parts.len(),
{
    if parts.len() == 0 {
        None
    } else if ".service"@.is_suffix_of(parts[0]) {
        Some(parts[0])
    } else {
        first_service(parts.drop_first())
    }
}

/// The unit that a line of a control group listing names.
pub open spec fn unit_of_line(line: Seq<char>) -> Option<Seq<char>> {
    match first_service(pieces(line, '/')) {
        Some(part) => normalized_unit(part),
        None => None,
    }
}

/// The unit that the first of the lines that names one names.
pub open spec fn unit_of_lines(lines: Seq<Seq<char>>) -> Option<Seq<char>>
    decreases lines.len(),
{
    if lines.len() == 0 {
        None
    } else {
        match unit_of_line(lines[0]) {
            Some(unit) => Some(unit),
            None => unit_of_lines(lines.drop_first()),
        }
    }
}

/// The unit by the setting and the control group listing, where each is present.
pub open spec fn resolved_unit(setting: Option<Seq<char>>, cgroup: Option<Seq<char>>) -> Seq<char> {
    let by_setting = match setting {
        Some(value) => normalized_unit(value),
        None => None,
    };
    let by_cgroup = match cgroup {
        Some(listing) => unit_of_lines(line_seq(listing)),
        None => None,
    };
    match (by_setting, by_cgroup) {
        (Some(unit), _) => unit,
        (None, Some(unit)) => unit,
        (None, None) => DEFAULT_SERVICE_UNIT@,
    }
}

fn unit_char(c: char) -> (r: bool)
    ensures
        r == is_unit_char(c),
{
    ascii_alnum(c) || c == '.' || c == '-' || c == '_' || c == '@' || c == ':' || c == '\\'
}

fn unit_name(s: &str) -> (r: bool)
    ensures
        r == is_unit_name(s@),
{
    let chars = chars_of(s);
    let mut i: usize = 0;
    while i < chars.len()
        invariant
            chars@ == s@,
            i <= chars@.len(),
            forall|k: int| 0 <= k < i ==> is_unit_char(#[trigger] s@[k]),
        decreases chars@.len() - i,
    {
        if !unit_char(chars[i]) {
            assert(!is_unit_char(s@[i as int]));
            return false;
        }
        i = i + 1;
    }
    true
}

/// The unit that `raw` names.
pub fn normalize_service_unit(raw: &str) -> (out: Option<String>)
    ensures
        opt_view(out) == normalized_unit(raw@),
{
    let name = trim(raw);
    if name.as_str().is_empty() || has_char(name.as_str(), '/') || has_char(name.as_str(), '\0') {
        return None;
    }
    let mut unit = name;
    if !ends_with(unit.as_str(), ".service") {
        unit.append(".service");
    }
    if unit_name(unit.as_str()) {
        Some(unit)
    } else {
        None
    }
}

fn service_component(line: &str) -> (out: Option<String>)
    ensures
        opt_view(out) == first_service(pieces(line@, '/')),
{
    let parts = split(line, '/');
    let ghost all = pieces(line@, '/');
    let mut i: usize = 0;
    assert(all.skip(0) =~= all);
    while i < parts.len()
        invariant
            all == pieces(line@, '/'),
            views(parts@) == all,
            i <= parts@.len(),
            first_service(all) == first_service(all.skip(i as int)),
        decreases parts@.len() - i,
    {
        assert(views(parts@)[i as int] == parts@[i as int]@);
        assert(all.skip(i as int)[0] == parts@[i as int]@);
        if ends_with(parts[i].as_str(), ".service") {
            return Some(parts[i].clone());
        }
        assert(all.skip(i as int).drop_first() =~= all.skip(i + 1));
        i = i + 1;
    }
    None
}

/// The unit that a control group listing names.
pub fn service_unit_from_cgroup_text(text: &str) -> (out: Option<String>)
    ensures
        opt_view(out) == unit_of_lines(line_seq(text@)),
{
    let all_lines = lines(text);
    let ghost all = line_seq(text@);
    let mut i: usize = 0;
    assert(all.skip(0) =~= all);
    while i < all_lines.len()
        invariant
            all == line_seq(text@),
            views(all_lines@) == all,
            i <= all_lines@.len(),
            unit_of_lines(all) == unit_of_lines(all.skip(i as int)),
        decreases all_lines@.len() - i,
    {
        assert(views(all_lines@)[i as int] == all_lines@[i as int]@);
        assert(all.skip(i as int)[0] == all_lines@[i as int]@);
        if let Some(part) = service_component(all_lines[i].as_str()) {
            if let Some(unit) = normalize_service_unit(part.as_str()) {
                return Some(unit);
            }
        }
        assert(all.skip(i as int).drop_first() =~= all.skip(i + 1));
        i = i + 1;
    }
    None
}

/// The unit to control. A setting that names a unit goes before the control group listing;
/// where neither names one, the default is taken.
pub fn resolve_service_unit(setting: Option<&str>, cgroup_text: Option<&str>) -> (out: String)
    ensures
        out@ == resolved_unit(opt_str(setting), opt_str(cgroup_text)),
{
    if let Some(value) = setting {
        if let Some(unit) = normalize_service_unit(value) {
            return unit;
        }
    }
    if let Some(listing) = cgroup_text {
        if let Some(unit) = service_unit_from_cgroup_text(listing) {
            return unit;
        }
    }
    DEFAULT_SERVICE_UNIT.to_owned()
}

// ---------------------------------------------------------------------------------------------
// Running an action
// ---------------------------------------------------------------------------------------------
/// A program to run, with its arguments.
#[derive(Debug)]
pub struct ServiceCommand {
    pub program: &'static str,
    pub args: Vec<String>,
}

/// How far an action has come: the service manager is asked first, and where that fails, it is
/// asked again with raised rights.
#[derive(Debug)]
pub enum ServiceAttempt {
    Systemctl,
    Sudo { systemctl_err: String },
}

/// What follows an attempt.
#[derive(Debug)]
pub enum ServiceProgress {
    Done(Result<(), String>),
    Retry(ServiceAttempt),
}

impl ServiceAttempt {
    /// The program to run in this attempt.
    pub fn command(&self, action: ServiceAction, unit: &str) -> (out: ServiceCommand)
        ensures
            match *self {
                ServiceAttempt::Systemctl => {
                    &&& out.program@ == "systemctl"@
                    &&& views(out.args@) == seq![action_verb(action), unit@]
                },
                ServiceAttempt::Sudo { .. } => {
                    &&& out.program@ == "sudo"@
                    &&& views(out.args@) == seq!["-n"@, "systemctl"@, action_verb(action), unit@]
                },
            },
    {
        let mut args: Vec<String> = Vec::new();
        match self {
            ServiceAttempt::Systemctl => {
                args.push(action.systemctl_verb().to_owned());
                args.push(unit.to_owned());
                assert(views(args@) =~= seq![action_verb(action), unit@]);
                ServiceCommand { program: "systemctl", args }
            },
            ServiceAttempt::Sudo { .. } => {
                args.push("-n".to_owned());
                args.push("systemctl".to_owned());
                args.push(action.systemctl_verb().to_owned());
                args.push(unit.to_owned());
                assert(views(args@) =~= seq!["-n"@, "systemctl"@, action_verb(action), unit@]);
                ServiceCommand { program: "sudo", args }
            },
        }
    }

    /// What follows when the program of this attempt ended with `result`.
    pub fn next(self, result: Result<(), String>) -> (out: ServiceProgress)
        ensures
            match (self, result) {
                (_, Ok(_)) => out matches ServiceProgress::Done(done) && done is Ok,
                (ServiceAttempt::Systemctl, Err(e)) => out matches ServiceProgress::Retry(
                    ServiceAttempt::Sudo { systemctl_err },
                ) && systemctl_err@ == e@,
                (ServiceAttempt::Sudo { systemctl_err }, Err(e)) => {
                    out matches ServiceProgress::Done(Err(text)) && text@ == "systemctl: "@
                        + systemctl_err@ + "; sudo -n: "@ + e@
                },
            },
    {
        match (self, result) {
            (_, Ok(_)) => ServiceProgress::Done(Ok(())),
            (ServiceAttempt::Systemctl, Err(e)) => ServiceProgress::Retry(
                ServiceAttempt::Sudo { systemctl_err: e },
            ),
            (ServiceAttempt::Sudo { systemctl_err }, Err(e)) => {
                let mut text = "systemctl: ".to_owned();
                text.append(systemctl_err.as_str());
                text.append("; sudo -n: ");
                text.append(e.as_str());
                ServiceProgress::Done(Err(text))
            },
        }
    }
}

/// What is reported of a program that failed: its status, with what it wrote to the error
/// stream, or else to the output stream.
pub open spec fn failure_text(status: Seq<char>, stderr: Seq<char>, stdout: Seq<char>) -> Seq<char> {
    if trimmed(stderr).len() > 0 {
        status + ": "@ + trimmed(stderr)
    } else if trimmed(stdout).len() > 0 {
        status + ": "@ + trimmed(stdout)
    } else {
        status
    }
}

/// What is reported of a program that failed, by the bytes that it wrote.
pub fn output_error(status: &str, stderr: &[u8], stdout: &[u8]) -> (out: String)
    ensures
        out@ == failure_text(status@, lossy(stderr@), lossy(stdout@)),
{
    failure_report(status, lossy_text(stderr).as_str(), lossy_text(stdout).as_str())
}

/// What is reported of a program that failed, by the texts that it wrote.
pub fn failure_report(status: &str, stderr: &str, stdout: &str) -> (out: String)
    ensures
        out@ == failure_text(status@, stderr@, stdout@),
{
    let err = trim(stderr);
    let said = trim(stdout);
    let mut out = status.to_owned();
    if !err.as_str().is_empty() {
        out.append(": ");
        out.append(err.as_str());
    } else if !said.as_str().is_empty() {
        out.append(": ");
        out.append(said.as_str());
    }
    out
}

/// The user that a unit runs as, by what the service manager answered; an empty answer stands
/// for the superuser.
pub open spec fn user_in(success: bool, answer: Seq<char>) -> Option<Seq<char>> {
    if !success {
        None
    } else if trimmed(answer).len() == 0 {
        Some("root"@)
    } else {
        Some(trimmed(answer))
    }
}

/// The user that a unit runs as, by the bytes that the service manager answered.
pub fn service_user(success: bool, stdout: &[u8]) -> (out: Option<String>)
    ensures
        opt_view(out) == user_in(success, lossy(stdout@)),
{
    user_of_answer(success, lossy_text(stdout).as_str())
}

/// The user that a unit runs as, by the text that the service manager answered.
pub fn user_of_answer(success: bool, answer: &str) -> (out: Option<String>)
    ensures
        opt_view(out) == user_in(success, answer@),
{
    if !success {
        return None;
    }
    let user = trim(answer);
    if user.as_str().is_empty() {
        Some("root".to_owned())
    } else {
        Some(user)
    }
}

// ---------------------------------------------------------------------------------------------
// Laws
// ---------------------------------------------------------------------------------------------
/// Every unit that comes out of normalising is the name of a service without any path in it.
pub proof fn normalized_units_are_plain(raw: Seq<char>)
    requires
        normalized_unit(raw) is Some,
    ensures
        ({
            let unit = normalized_unit(raw)->0;
            &&& is_unit_name(unit)
            &&& ".service"@.is_suffix_of(unit)
            &&& !unit.contains('/')
            &&& !unit.contains('\0')
        }),
{
    let unit = normalized_unit(raw)->0;
    let name = trimmed(raw);
    if !".service"@.is_suffix_of(name) {
        assert(unit.subrange(unit.len() - ".service"@.len(), unit.len() as int) =~= ".service"@);
    }
    if unit.contains('/') {
        let i = choose|i: int| 0 <= i < unit.len() && unit[i] == '/';
        assert(is_unit_char(unit[i]));
    }
    if unit.contains('\0') {
        let i = choose|i: int| 0 <= i < unit.len() && unit[i] == '\0';
        assert(is_unit_char(unit[i]));
    }
}

/// Normalising a normalised unit changes nothing.
pub proof fn normalizing_is_idempotent(raw: Seq<char>)
    requires
        normalized_unit(raw) is Some,
    ensures
        normalized_unit(normalized_unit(raw)->0) == normalized_unit(raw),
{
    let unit = normalized_unit(raw)->0;
    normalized_units_are_plain(raw);
    reveal_strlit(".service");
    assert(unit.len() > 0);
    assert(is_unit_char(unit[0]));
    assert(is_unit_char(unit.last()));
    assert(trimmed(unit) == unit);
}

/// A name without the suffix of a service and the same name with it name the same unit.
pub proof fn suffix_is_optional(name: Seq<char>)
    requires
        name.len() > 0,
        is_unit_name(name),
        !".service"@.is_suffix_of(name),
    ensures
        normalized_unit(name) == Some(name + ".service"@),
        normalized_unit(name + ".service"@) == Some(name + ".service"@),
{
    reveal_strlit(".service");
    let unit = name + ".service"@;
    assert(is_unit_char(name[0]) && is_unit_char(name.last()));
    assert(trimmed(name) == name);
    assert forall|i: int| 0 <= i < unit.len() implies is_unit_char(#[trigger] unit[i]) by {
        if i < name.len() {
            assert(unit[i] == name[i]);
        } else {
            assert(unit[i] == ".service"@[i - name.len()]);
        }
    }
    if name.contains('/') {
        let i = choose|i: int| 0 <= i < name.len() && name[i] == '/';
        assert(is_unit_char(name[i]));
    }
    if name.contains('\0') {
        let i = choose|i: int| 0 <= i < name.len() && name[i] == '\0';
        assert(is_unit_char(name[i]));
    }
    normalizing_is_idempotent(name);
}

// ---------------------------------------------------------------------------------------------
// Laws of the operations
// ---------------------------------------------------------------------------------------------
/// The service manager is asked to restart or to stop, and the reports speak of a restart or a
/// shutdown.
pub proof fn actions_have_verbs_and_labels(
    restart: &'static str,
    stop: &'static str,
    restart_label: &'static str,
    stop_label: &'static str,
)
    requires
        call_ensures(ServiceAction::systemctl_verb, (ServiceAction::Restart,), restart),
        call_ensures(ServiceAction::systemctl_verb, (ServiceAction::Stop,), stop),
        call_ensures(ServiceAction::label, (ServiceAction::Restart,), restart_label),
        call_ensures(ServiceAction::label, (ServiceAction::Stop,), stop_label),
    ensures
        restart@ == "restart"@,
        stop@ == "stop"@,
        restart_label@ == "restart"@,
        stop_label@ == "shutdown"@,
{
}

/// A name stands for a unit where something is left of it without surrounding white space, and that
/// consists of ASCII letters and digits and the signs `. - _ @ : \`. The unit is that name, with
/// the suffix of a service behind it where it has none.
pub proof fn units_are_named_without_paths(raw: &str, out: Option<String>, name: String)
    requires
        call_ensures(normalize_service_unit, (raw,), out),
        call_ensures(trim, (raw,), name),
    ensures
        out is Some <==> name@.len() > 0 && forall|i: int|
            0 <= i < name@.len() ==> {
                let c = #[trigger] name@[i];
                '0' <= c <= '9' || 'A' <= c <= 'Z' || 'a' <= c <= 'z' || c == '.' || c == '-' || c
                    == '_' || c == '@' || c == ':' || c == '\\'
            },
        out matches Some(unit) ==> {
            let has_suffix = exists|rest: Seq<char>| name@ == #[trigger] (rest + ".service"@);
            &&& has_suffix ==> unit@ == name@
            &&& !has_suffix ==> unit@ == name@ + ".service"@
        },
{
    reveal_strlit(".service");
    let suffix = ".service"@;
    if suffix.is_suffix_of(name@) {
        assert(name@ =~= name@.take(name@.len() - suffix.len()) + suffix);
    }
    if exists|rest: Seq<char>| name@ == #[trigger] (rest + suffix) {
        assert(name@.subrange(name@.len() - suffix.len(), name@.len() as int) =~= suffix);
    }
    let unit = if suffix.is_suffix_of(name@) {
        name@
    } else {
        name@ + suffix
    };
    assert(forall|i: int|
        0 <= i < suffix.len() ==> is_unit_char(#[trigger] suffix[i]));
    if is_unit_name(unit) {
        assert forall|i: int| 0 <= i < name@.len() implies is_unit_char(#[trigger] name@[i]) by {
            assert(unit[i] == name@[i]);
        }
    }
    if is_unit_name(name@) {
        assert forall|i: int| 0 <= i < unit.len() implies is_unit_char(#[trigger] unit[i]) by {
            if i < name@.len() {
                assert(unit[i] == name@[i]);
            } else {
                assert(unit[i] == suffix[i - name@.len()]);
            }
        }
        if name@.contains('/') {
            let i = choose|i: int| 0 <= i < name@.len() && name@[i] == '/';
            assert(is_unit_char(name@[i]));
        }
        if name@.contains('\0') {
            let i = choose|i: int| 0 <= i < name@.len() && name@[i] == '\0';
            assert(is_unit_char(name@[i]));
        }
    }
}

/// Whether the first component of a path that ends in the suffix of a service has this place.
pub open spec fn is_first_service(parts: Seq<Seq<char>>, k: int) -> bool {
    &&& 0 <= k < parts.len()
    &&& ".service"@.is_suffix_of(parts[k])
    &&& forall|j: int| 0 <= j < k ==> !".service"@.is_suffix_of(#[trigger] parts[j])
}

/// Whether a line names this unit by its first component that ends in the suffix of a service.
pub open spec fn line_names(line: Seq<char>, unit: Seq<char>) -> bool {
    exists|k: int| #[trigger]
        is_first_service(pieces(line, '/'), k) && normalized_unit(pieces(line, '/')[k]) == Some(
            unit,
        )
}

proof fn lemma_first_service(parts: Seq<Seq<char>>)
    ensures
        match first_service(parts) {
            Some(part) => exists|k: int| #[trigger] is_first_service(parts, k) && parts[k] == part,
            None => forall|k: int|
                0 <= k < parts.len() ==> !".service"@.is_suffix_of(#[trigger] parts[k]),
        },
    decreases parts.len(),
{
    if parts.len() > 0 {
        if ".service"@.is_suffix_of(parts[0]) {
            assert(is_first_service(parts, 0));
        } else {
            let rest = parts.drop_first();
            lemma_first_service(rest);
            match first_service(rest) {
                Some(part) => {
                    let k = choose|k: int| #[trigger]
                        is_first_service(rest, k) && rest[k] == part;
                    assert forall|j: int| 0 <= j < k + 1 implies !".service"@.is_suffix_of(
                        #[trigger] parts[j],
                    ) by {
                        if j > 0 {
                            assert(rest[j - 1] == parts[j]);
                        }
                    }
                    assert(parts[k + 1] == rest[k]);
                    assert(is_first_service(parts, k + 1));
                },
                None => {
                    assert forall|k: int| 0 <= k < parts.len() implies !".service"@.is_suffix_of(
                        #[trigger] parts[k],
                    ) by {
                        if k > 0 {
                            assert(rest[k - 1] == parts[k]);
                        }
                    }
                },
            }
        }
    }
}

proof fn lemma_line_names(line: Seq<char>)
    ensures
        match unit_of_line(line) {
            Some(unit) => line_names(line, unit),
            None => forall|unit: Seq<char>| !#[trigger] line_names(line, unit),
        },
        forall|a: Seq<char>, b: Seq<char>|
            #[trigger] line_names(line, a) && #[trigger] line_names(line, b) ==> a == b,
{
    let parts = pieces(line, '/');
    lemma_first_service(parts);
    assert forall|a: Seq<char>, b: Seq<char>|
        #[trigger] line_names(line, a) && #[trigger] line_names(line, b) implies a == b by {
        let i = choose|k: int| #[trigger]
            is_first_service(parts, k) && normalized_unit(parts[k]) == Some(a);
        let j = choose|k: int| #[trigger]
            is_first_service(parts, k) && normalized_unit(parts[k]) == Some(b);
        assert(i == j);
    }
    match first_service(parts) {
        Some(part) => {
            let k = choose|k: int| #[trigger] is_first_service(parts, k) && parts[k] == part;
            assert forall|unit: Seq<char>| normalized_unit(part) is None implies
                !#[trigger] line_names(line, unit) by {
                if line_names(line, unit) {
                    let j = choose|j: int| #[trigger]
                        is_first_service(parts, j) && normalized_unit(parts[j]) == Some(unit);
                    assert(j == k);
                }
            }
        },
        None => {},
    }
}

proof fn lemma_first_line_that_names(all: Seq<Seq<char>>)
    ensures
        match unit_of_lines(all) {
            Some(unit) => exists|i: int|
                {
                    &&& 0 <= i < all.len()
                    &&& line_names(#[trigger] all[i], unit)
                    &&& forall|j: int, other: Seq<char>|
                        0 <= j < i ==> !#[trigger] line_names(all[j], other)
                },
            None => forall|i: int, unit: Seq<char>|
                0 <= i < all.len() ==> !#[trigger] line_names(all[i], unit),
        },
    decreases all.len(),
{
    if all.len() > 0 {
        lemma_line_names(all[0]);
        match unit_of_line(all[0]) {
            Some(unit) => {
                assert(line_names(all[0], unit));
            },
            None => {
                let rest = all.drop_first();
                lemma_first_line_that_names(rest);
                match unit_of_lines(rest) {
                    Some(unit) => {
                        let i = choose|i: int|
                            {
                                &&& 0 <= i < rest.len()
                                &&& line_names(#[trigger] rest[i], unit)
                                &&& forall|j: int, other: Seq<char>|
                                    0 <= j < i ==> !#[trigger] line_names(rest[j], other)
                            };
                        assert(all[i + 1] == rest[i]);
                        assert forall|j: int, other: Seq<char>| 0 <= j < i + 1 implies
                            !#[trigger] line_names(all[j], other) by {
                            if j > 0 {
                                assert(rest[j - 1] == all[j]);
                                assert(!line_names(rest[j - 1], other));
                            }
                        }
                    },
                    None => {
                        assert forall|i: int, unit: Seq<char>| 0 <= i < all.len() implies
                            !#[trigger] line_names(all[i], unit) by {
                            if i > 0 {
                                assert(rest[i - 1] == all[i]);
                                assert(!line_names(rest[i - 1], unit));
                            }
                        }
                    },
                }
            },
        }
    }
}

/// The unit of a control group listing is the one that the first of its lines that names one names,
/// and there is none where no line names one.
pub proof fn first_line_that_names_a_unit_decides(
    text: &str,
    all: Vec<String>,
    out: Option<String>,
)
    requires
        call_ensures(service_unit_from_cgroup_text, (text,), out),
        call_ensures(lines, (text,), all),
    ensures
        out matches Some(unit) ==> exists|i: int|
            {
                &&& 0 <= i < all@.len()
                &&& line_names((#[trigger] all@[i])@, unit@)
                &&& forall|j: int, other: Seq<char>|
                    0 <= j < i ==> !#[trigger] line_names(all@[j]@, other)
            },
        out is None ==> forall|i: int, unit: Seq<char>|
            0 <= i < all@.len() ==> !#[trigger] line_names(all@[i]@, unit),
{
    let seqs = views(all@);
    lemma_first_line_that_names(seqs);
    assert(seqs.len() == all@.len());
    assert forall|i: int| 0 <= i < all@.len() implies #[trigger] all@[i]@ == seqs[i] by {}
    if let Some(unit) = out {
        let i = choose|i: int|
            {
                &&& 0 <= i < seqs.len()
                &&& line_names(#[trigger] seqs[i], unit@)
                &&& forall|j: int, other: Seq<char>|
                    0 <= j < i ==> !#[trigger] line_names(seqs[j], other)
            };
        assert(line_names(all@[i]@, unit@));
        assert forall|j: int, other: Seq<char>| 0 <= j < i implies !#[trigger] line_names(
            all@[j]@,
            other,
        ) by {
            assert(!line_names(seqs[j], other));
        }
    } else {
        assert forall|i: int, unit: Seq<char>| 0 <= i < all@.len() implies !#[trigger] line_names(
            all@[i]@,
            unit,
        ) by {
            assert(!line_names(seqs[i], unit));
        }
    }
}

/// The setting decides on the unit where it names one, else the listing, and where neither does the
/// default.
pub proof fn setting_goes_before_listing(
    setting: &str,
    listing: &str,
    by_setting: Option<String>,
    by_listing: Option<String>,
    out: String,
    without_setting: String,
    without_listing: String,
    without_both: String,
)
    requires
        call_ensures(normalize_service_unit, (setting,), by_setting),
        call_ensures(service_unit_from_cgroup_text, (listing,), by_listing),
        call_ensures(resolve_service_unit, (Some(setting), Some(listing)), out),
        call_ensures(resolve_service_unit, (None::<&str>, Some(listing)), without_setting),
        call_ensures(resolve_service_unit, (Some(setting), None::<&str>), without_listing),
        call_ensures(resolve_service_unit, (None::<&str>, None::<&str>), without_both),
    ensures
        by_setting matches Some(unit) ==> out@ == unit@ && without_listing@ == unit@,
        by_setting is None ==> out@ == without_setting@ && without_listing@ == without_both@,
        by_listing matches Some(unit) ==> without_setting@ == unit@,
        by_listing is None ==> without_setting@ == without_both@,
        without_both@ == "tetra-bluestation.service"@,
{
}

/// The service manager is run with the verb and the unit, first by itself and then with raised
/// rights, for which no password is asked.
pub proof fn attempts_run_their_programs(
    attempt: &ServiceAttempt,
    action: ServiceAction,
    unit: &str,
    out: ServiceCommand,
    verb: &'static str,
)
    requires
        call_ensures(ServiceAttempt::command, (attempt, action, unit), out),
        call_ensures(ServiceAction::systemctl_verb, (action,), verb),
    ensures
        *attempt is Systemctl ==> out.program@ == "systemctl"@ && out.args@.len() == 2
            && out.args@[0]@ == verb@ && out.args@[1]@ == unit@,
        *attempt is Sudo ==> out.program@ == "sudo"@ && out.args@.len() == 4 && out.args@[0]@
            == "-n"@ && out.args@[1]@ == "systemctl"@ && out.args@[2]@ == verb@ && out.args@[3]@
            == unit@,
{
    let seqs = views(out.args@);
    assert(seqs.len() == out.args@.len());
    assert forall|i: int| 0 <= i < out.args@.len() implies #[trigger] out.args@[i]@
        == seqs[i] by {}
}

/// An attempt that succeeds ends the action well. After the first one that fails comes the one with
/// raised rights; where that fails too, the action ends with the words of both failures, each in
/// its place.
pub proof fn failed_attempt_is_followed_by_one_with_raised_rights(
    attempt: ServiceAttempt,
    e: String,
    good: ServiceProgress,
    bad: ServiceProgress,
)
    requires
        call_ensures(ServiceAttempt::next, (attempt, Ok::<(), String>(())), good),
        call_ensures(ServiceAttempt::next, (attempt, Err::<(), String>(e)), bad),
    ensures
        good matches ServiceProgress::Done(done) && done is Ok,
        attempt is Systemctl ==> (bad matches ServiceProgress::Retry(next) && (
        next matches ServiceAttempt::Sudo { systemctl_err } && systemctl_err@ == e@)),
        attempt matches ServiceAttempt::Sudo { systemctl_err } ==> (
        bad matches ServiceProgress::Done(done) && (done matches Err(text) && text@
            == "systemctl: "@ + systemctl_err@ + "; sudo -n: "@ + e@)),
{
}

/// A failed program is reported by its status, with what it wrote to its error stream, and where
/// that is nothing, to its output.
pub proof fn failures_are_reported_with_what_was_written(
    status: &str,
    stderr: &str,
    stdout: &str,
    out: String,
    err: String,
    said: String,
)
    requires
        call_ensures(failure_report, (status, stderr, stdout), out),
        call_ensures(trim, (stderr,), err),
        call_ensures(trim, (stdout,), said),
    ensures
        err@.len() > 0 ==> out@ == status@ + ": "@ + err@,
        err@.len() == 0 && said@.len() > 0 ==> out@ == status@ + ": "@ + said@,
        err@.len() == 0 && said@.len() == 0 ==> out@ == status@,
{
}

/// The bytes that a program wrote are reported, and read, as the text that is read from them.
pub proof fn written_bytes_are_read_as_text(
    status: &str,
    stderr: &[u8],
    stdout: &[u8],
    out: String,
    err: &str,
    said: &str,
    report: String,
    success: bool,
    user: Option<String>,
    same_user: Option<String>,
)
    requires
        call_ensures(output_error, (status, stderr, stdout), out),
        err@ == lossy(stderr@),
        said@ == lossy(stdout@),
        call_ensures(failure_report, (status, err, said), report),
        call_ensures(service_user, (success, stdout), user),
        call_ensures(user_of_answer, (success, said), same_user),
    ensures
        out@ == report@,
        opt_view(user) == opt_view(same_user),
{
}

/// The user of a unit is the answer without surrounding white space, the superuser where that is
/// empty, and unknown where there was no answer.
pub proof fn empty_answer_stands_for_the_superuser(
    answer: &str,
    known: Option<String>,
    unknown: Option<String>,
    name: String,
)
    requires
        call_ensures(user_of_answer, (true, answer), known),
        call_ensures(user_of_answer, (false, answer), unknown),
        call_ensures(trim, (answer,), name),
    ensures
        unknown is None,
        name@.len() > 0 ==> (known matches Some(user) && user@ == name@),
        name@.len() == 0 ==> (known matches Some(user) && user@ == "root"@),
{
}

} // verus!
