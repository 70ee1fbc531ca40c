//! Changes of the configuration: what is done about a request and its body, and how it is saved.
use super::http::{change_refusal, change_refused, HeadersView, HttpHeaders, HttpReply};
use crate::number::{decimal, decimal_of, decimal_round_trip, is_digit};
use crate::text::{lemma_first_index_is, opt_str, opt_view, text_of, utf8_error};
use vstd::prelude::*;
use vstd::string::*;
use vstd::utf8::{
    decode_utf8, decode_utf8_encode_utf8, encode_utf8, encode_utf8_decode_utf8, valid_utf8,
};

verus! {

// ---------------------------------------------------------------------------------------------
// From the headers to the reply
// ---------------------------------------------------------------------------------------------
/// What is done next about a change of the configuration.
#[derive(Debug)]
pub enum ChangeStep {
    /// Answer it. Nothing is saved.
    Reply(HttpReply),
    /// Read as many bytes of its body.
    Read(usize),
    /// See whether this is a configuration.
    Check(String),
    /// Save this configuration.
    Save(String),
}

/// What is done next about a change of the configuration, with texts as character sequences.
pub ghost enum StepView {
    Reply((u16, Seq<char>)),
    Read(nat),
    Check(Seq<char>),
    Save(Seq<char>),
}

impl View for ChangeStep {
    type V = StepView;

    open spec fn view(&self) -> StepView {
        match *self {
            ChangeStep::Reply(reply) => StepView::Reply((reply.code, reply.body@)),
            ChangeStep::Read(n) => StepView::Read(n as nat),
            ChangeStep::Check(text) => StepView::Check(text@),
            ChangeStep::Save(text) => StepView::Save(text@),
        }
    }
}

/// A body that was read, or the reason why it was not, taken by their views.
pub open spec fn read_view(read: Result<Vec<u8>, String>) -> Result<Seq<u8>, Seq<char>> {
    match read {
        Ok(body) => Ok(body@),
        Err(e) => Err(e@),
    }
}

/// A text, or the reason why there is none, taken by their views.
pub open spec fn text_view(decoded: Result<String, String>) -> Result<Seq<char>, Seq<char>> {
    match decoded {
        Ok(text) => Ok(text@),
        Err(e) => Err(e@),
    }
}

/// How something ended, with the reason for a failure taken by its view.
pub open spec fn done_view(done: Result<(), String>) -> Result<(), Seq<char>> {
    match done {
        Ok(_) => Ok(()),
        Err(e) => Err(e@),
    }
}

/// What follows from the headers of a request: its body is read, as long as they say, where it is
/// not refused.
pub open spec fn after_headers(
    allowed: bool,
    headers: HeadersView,
    expected: Option<Seq<char>>,
) -> StepView {
    match change_refused(allowed, headers, expected) {
        Some(refusal) => StepView::Reply(refusal),
        None => StepView::Read(headers.content_length),
    }
}

/// What follows from the text of a body: it is checked, where there is one.
pub open spec fn after_decoding(decoded: Result<Seq<char>, Seq<char>>) -> StepView {
    match decoded {
        Ok(text) => StepView::Check(text),
        Err(e) => StepView::Reply((400, "config must be UTF-8: "@ + e)),
    }
}

/// The text of a body, or the reason why there is none.
pub open spec fn decoded(body: Seq<u8>) -> Result<Seq<char>, Seq<char>> {
    if valid_utf8(body) {
        Ok(decode_utf8(body))
    } else {
        Err(utf8_error(body))
    }
}

/// What follows when the body of a request was read, or was not.
pub open spec fn after_body(read: Result<Seq<u8>, Seq<char>>) -> StepView {
    match read {
        Ok(body) => after_decoding(decoded(body)),
        Err(e) => StepView::Reply((400, "failed reading request body: "@ + e)),
    }
}

/// What follows when a text was checked: it is saved as it is, where it is a configuration.
pub open spec fn after_check(text: Seq<char>, checked: Result<(), Seq<char>>) -> StepView {
    match checked {
        Ok(_) => StepView::Save(text),
        Err(e) => StepView::Reply((400, "invalid config: "@ + e)),
    }
}

/// The reply when a configuration was to be saved.
pub open spec fn after_save(saved: Result<(), Seq<char>>) -> (u16, Seq<char>) {
    match saved {
        Ok(_) => (200, "OK"@),
        Err(e) => (500, e),
    }
}

fn prefixed(prefix: &str, text: &str) -> (out: String)
    ensures
        out@ == prefix@ + text@,
{
    let mut out = prefix.to_owned();
    out.append(text);
    out
}

/// What follows from the headers of a request; `expected` is the token that access requires.
pub fn headers_step(allowed: bool, headers: &HttpHeaders, expected: &Option<String>) -> (out:
    ChangeStep)
    ensures
        out@ == after_headers(allowed, headers@, opt_view(*expected)),
{
    match change_refusal(allowed, headers, expected) {
        Some(refusal) => ChangeStep::Reply(refusal),
        None => ChangeStep::Read(headers.content_length),
    }
}

/// What follows from the text of a body.
pub fn decoded_step(decoded: Result<String, String>) -> (out: ChangeStep)
    ensures
        out@ == after_decoding(text_view(decoded)),
{
    match decoded {
        Ok(text) => ChangeStep::Check(text),
        Err(e) => ChangeStep::Reply(
            HttpReply { code: 400, body: prefixed("config must be UTF-8: ", e.as_str()) },
        ),
    }
}

/// What follows when the body of a request was read, or was not, for a reason that is given in
/// words.
pub fn body_step(read: Result<Vec<u8>, String>) -> (out: ChangeStep)
    ensures
        out@ == after_body(read_view(read)),
{
    match read {
        Ok(body) => {
            let ghost bytes = body@;
            let text = text_of(body);
            let ghost found = text_view(text);
            proof {
                if let Ok(chars) = found {
                    encode_utf8_decode_utf8(chars);
                }
                assert(found == decoded(bytes));
            }
            decoded_step(text)
        },
        Err(e) => ChangeStep::Reply(
            HttpReply { code: 400, body: prefixed("failed reading request body: ", e.as_str()) },
        ),
    }
}

/// What follows when a text was checked. What is wrong with it is given in words.
pub fn checked_step(text: String, checked: Result<(), String>) -> (out: ChangeStep)
    ensures
        out@ == after_check(text@, done_view(checked)),
{
    match checked {
        Ok(_) => ChangeStep::Save(text),
        Err(e) => ChangeStep::Reply(
            HttpReply { code: 400, body: prefixed("invalid config: ", e.as_str()) },
        ),
    }
}

/// The reply when a configuration was to be saved. What went wrong is given in words.
pub fn saved_step(saved: Result<(), String>) -> (out: HttpReply)
    ensures
        (out.code, out.body@) == after_save(done_view(saved)),
{
    match saved {
        Ok(_) => HttpReply { code: 200, body: "OK".to_owned() },
        Err(e) => HttpReply { code: 500, body: e },
    }
}

// ---------------------------------------------------------------------------------------------
// Saving
// ---------------------------------------------------------------------------------------------
/// A step by which the configuration is saved.
#[derive(Debug, Clone, Copy, PartialEq, Eq, Structural)]
pub enum SaveStep {
    /// Write the new configuration to a temporary file.
    WriteTemporary,
    /// Make sure that it has reached the disk.
    SyncTemporary,
    /// Keep a copy of the old configuration.
    Backup,
    /// Put the temporary file in the place of the old configuration.
    Rename,
    /// Make sure that the change of names has reached the disk.
    SyncDirectory,
}

/// What follows a step by which the configuration is saved.
#[derive(Debug)]
pub enum SaveProgress {
    /// Another step.
    Next(SaveStep),
    /// Saving has ended.
    Ended(Result<(), String>),
}

/// Whether saving ends where a step fails: all but the copy of the old configuration and the last
/// step are needed.
pub open spec fn is_needed(step: SaveStep) -> bool {
    step != SaveStep::Backup && step != SaveStep::SyncDirectory
}

/// The step after another; `present` is whether there is an old configuration, which stays in its
/// place until the new one is complete.
pub open spec fn step_after(step: SaveStep, present: bool) -> Option<SaveStep> {
    match step {
        SaveStep::WriteTemporary => Some(SaveStep::SyncTemporary),
        SaveStep::SyncTemporary => Some(
            if present {
                SaveStep::Backup
            } else {
                SaveStep::Rename
            },
        ),
        SaveStep::Backup => Some(SaveStep::Rename),
        SaveStep::Rename => Some(SaveStep::SyncDirectory),
        SaveStep::SyncDirectory => None,
    }
}

impl SaveStep {
    /// The step by which saving begins.
    pub fn first() -> (out: SaveStep)
        ensures
            out == SaveStep::WriteTemporary,
    {
        SaveStep::WriteTemporary
    }

    /// What follows when this step was done, or failed for a reason that is given in words;
    /// `present` is whether there is an old configuration.
    pub fn next(self, present: bool, done: Result<(), String>) -> (out: SaveProgress)
        ensures
            match done {
                Err(e) if is_needed(self) => {
                    out matches SaveProgress::Ended(Err(text)) && text@ == e@
                },
                _ => match step_after(self, present) {
                    Some(step) => out matches SaveProgress::Next(next) && next == step,
                    None => out matches SaveProgress::Ended(end) && end is Ok,
                },
            },
    {
        match (self, done) {
            (SaveStep::WriteTemporary, Ok(_)) => SaveProgress::Next(SaveStep::SyncTemporary),
            (SaveStep::SyncTemporary, Ok(_)) => if present {
                SaveProgress::Next(SaveStep::Backup)
            } else {
                SaveProgress::Next(SaveStep::Rename)
            },
            (SaveStep::Backup, _) => SaveProgress::Next(SaveStep::Rename),
            (SaveStep::Rename, Ok(_)) => SaveProgress::Next(SaveStep::SyncDirectory),
            (SaveStep::SyncDirectory, _) => SaveProgress::Ended(Ok(())),
            (_, Err(e)) => SaveProgress::Ended(Err(e)),
        }
    }
}

/// The name of the configuration file, where its path gives none.
pub fn config_file_name(name: Option<&str>) -> (out: String)
    ensures
        out@ == match opt_str(name) {
            Some(text) => text,
            None => "config.toml"@,
        },
{
    match name {
        Some(text) => text.to_owned(),
        None => "config.toml".to_owned(),
    }
}

/// The name of a temporary file.
pub open spec fn temporary_text(file_name: Seq<char>, process: nat, nonce: nat) -> Seq<char> {
    "."@ + file_name + ".tmp."@ + decimal(process) + "."@ + decimal(nonce)
}

/// The name of the copy of the old configuration.
pub open spec fn backup_text(file_name: Seq<char>) -> Seq<char> {
    file_name + ".bak"@
}

/// The name of the temporary file, which tells processes and saves apart.
pub fn temporary_name(file_name: &str, process: u32, nonce: u128) -> (out: String)
    ensures
        out@ == temporary_text(file_name@, process as nat, nonce as nat),
{
    let mut out = prefixed(".", file_name);
    out.append(".tmp.");
    out.append(decimal_of(process as u128).as_str());
    out.append(".");
    out.append(decimal_of(nonce).as_str());
    out
}

/// The name of the copy of the old configuration.
pub fn backup_name(file_name: &str) -> (out: String)
    ensures
        out@ == backup_text(file_name@),
{
    prefixed(file_name, ".bak")
}

// ---------------------------------------------------------------------------------------------
// The course of a change
// ---------------------------------------------------------------------------------------------
/// The files that saving touches, each with its contents where it is there.
pub ghost struct ConfigFiles {
    pub config: Option<Seq<u8>>,
    pub temporary: Option<Seq<u8>>,
    pub backup: Option<Seq<u8>>,
}

/// Whether a step by which `body` is saved can turn the files `a` into `b`; `done` is whether it
/// succeeds. A file that is being written can be left in any state where writing it fails.
pub open spec fn step_taken(
    step: SaveStep,
    body: Seq<u8>,
    a: ConfigFiles,
    b: ConfigFiles,
    done: bool,
) -> bool {
    match step {
        SaveStep::WriteTemporary => {
            &&& b.config == a.config
            &&& b.backup == a.backup
            &&& done ==> b.temporary == Some(body)
        },
        SaveStep::SyncTemporary => b == a,
        SaveStep::Backup => {
            &&& b.config == a.config
            &&& b.temporary == a.temporary
            &&& done ==> b.backup == a.config
        },
        SaveStep::Rename => if done {
            b == (ConfigFiles { config: a.temporary, temporary: None, backup: a.backup })
        } else {
            b == a
        },
        SaveStep::SyncDirectory => b == a,
    }
}

/// The number of steps that can still follow a step.
pub open spec fn steps_left(step: SaveStep) -> nat {
    match step {
        SaveStep::WriteTemporary => 4,
        SaveStep::SyncTemporary => 3,
        SaveStep::Backup => 2,
        SaveStep::Rename => 1,
        SaveStep::SyncDirectory => 0,
    }
}

/// Whether saving `body`, from this step on, can turn the files `a` into `b`; `ok` is whether it
/// succeeds.
pub open spec fn saved_from(
    step: SaveStep,
    body: Seq<u8>,
    a: ConfigFiles,
    b: ConfigFiles,
    ok: bool,
) -> bool
    decreases steps_left(step),
{
    exists|m: ConfigFiles, done: bool| #[trigger]
        step_taken(step, body, a, m, done) && if !done && is_needed(step) {
            !ok && b == m
        } else {
            match step_after(step, m.config is Some) {
                Some(next) => saved_from(next, body, m, b, ok),
                None => ok && b == m,
            }
        }
}

/// Whether a change of the configuration can go in this way: the request with these headers is
/// refused, or its body is read, decoded, checked and saved as far as that goes. It turns the
/// files `a` into `b`, and is answered by `reply`.
pub open spec fn change_goes(
    allowed: bool,
    headers: HeadersView,
    expected: Option<Seq<char>>,
    read: Result<Seq<u8>, Seq<char>>,
    checked: Result<(), Seq<char>>,
    a: ConfigFiles,
    b: ConfigFiles,
    reply: (u16, Seq<char>),
) -> bool {
    match after_headers(allowed, headers, expected) {
        StepView::Read(n) => (read matches Ok(body) ==> body.len() == n) && match after_body(read) {
            StepView::Check(text) => checked_goes(text, checked, a, b, reply),
            StepView::Reply(answer) => reply == answer && b == a,
            _ => false,
        },
        StepView::Reply(answer) => reply == answer && b == a,
        _ => false,
    }
}

/// Whether a change of the configuration can go on in this way from the check of its text.
pub open spec fn checked_goes(
    text: Seq<char>,
    checked: Result<(), Seq<char>>,
    a: ConfigFiles,
    b: ConfigFiles,
    reply: (u16, Seq<char>),
) -> bool {
    match after_check(text, checked) {
        StepView::Save(kept) => exists|saved: Result<(), Seq<char>>|
            saved_from(SaveStep::WriteTemporary, encode_utf8(kept), a, b, saved is Ok) && reply
                == #[trigger] after_save(saved),
        StepView::Reply(answer) => reply == answer && b == a,
        _ => false,
    }
}

// ---------------------------------------------------------------------------------------------
// Laws
// ---------------------------------------------------------------------------------------------
/// Only the bytes of the body itself are saved, and only when they were accepted.
pub proof fn body_itself_is_saved(
    read: Result<Seq<u8>, Seq<char>>,
    text: Seq<char>,
    checked: Result<(), Seq<char>>,
    kept: Seq<char>,
)
    requires
        after_body(read) == StepView::Check(text),
        after_check(text, checked) == StepView::Save(kept),
    ensures
        read == Ok::<Seq<u8>, Seq<char>>(encode_utf8(kept)),
        checked is Ok,
{
    if let Ok(body) = read {
        assert(valid_utf8(body));
        decode_utf8_encode_utf8(body);
    }
}

proof fn lemma_saved_from(
    step: SaveStep,
    body: Seq<u8>,
    a: ConfigFiles,
    b: ConfigFiles,
    ok: bool,
)
    requires
        saved_from(step, body, a, b, ok),
        match step {
            SaveStep::WriteTemporary => true,
            SaveStep::SyncDirectory => a.config == Some(body),
            _ => a.temporary == Some(body),
        },
    ensures
        ok ==> b.config == Some(body),
        !ok ==> step != SaveStep::SyncDirectory && b.config == a.config,
    decreases steps_left(step),
{
    let (m, done) = choose|m: ConfigFiles, done: bool| #[trigger]
        step_taken(step, body, a, m, done) && if !done && is_needed(step) {
            !ok && b == m
        } else {
            match step_after(step, m.config is Some) {
                Some(next) => saved_from(next, body, m, b, ok),
                None => ok && b == m,
            }
        };
    if done || !is_needed(step) {
        if let Some(next) = step_after(step, m.config is Some) {
            lemma_saved_from(next, body, m, b, ok);
        }
    }
}

/// Saving is all or nothing: where it succeeds, the configuration is the new one, and where it
/// fails, the old one, or still none.
pub proof fn saving_is_all_or_nothing(body: Seq<u8>, a: ConfigFiles, b: ConfigFiles, ok: bool)
    requires
        saved_from(SaveStep::WriteTemporary, body, a, b, ok),
    ensures
        b.config == if ok {
            Some(body)
        } else {
            a.config
        },
{
    lemma_saved_from(SaveStep::WriteTemporary, body, a, b, ok);
}

/// A change of the configuration that is not refused is answered by 400 just where its body was
/// not read, is no UTF-8 or is no configuration. Otherwise it is answered by 200, and then the
/// configuration is the body, or by 500. With every answer but 200 the configuration stays as it
/// was.
pub proof fn change_is_all_or_nothing(
    allowed: bool,
    headers: HeadersView,
    expected: Option<Seq<char>>,
    read: Result<Seq<u8>, Seq<char>>,
    checked: Result<(), Seq<char>>,
    a: ConfigFiles,
    b: ConfigFiles,
    reply: (u16, Seq<char>),
)
    requires
        change_goes(allowed, headers, expected, read, checked, a, b, reply),
    ensures
        change_refused(allowed, headers, expected) matches Some(refusal) ==> reply == refusal,
        change_refused(allowed, headers, expected) is None ==> {
            &&& reply.0 == 200 || reply.0 == 400 || reply.0 == 500
            &&& reply.0 == 400 <==> !(read matches Ok(body) && valid_utf8(body) && checked is Ok)
        },
        reply.0 == 200 ==> (read matches Ok(body) && body.len() == headers.content_length
            && b.config == Some(body)),
        reply.0 != 200 ==> b.config == a.config,
{
    if change_refused(allowed, headers, expected) is None {
        if let StepView::Check(text) = after_body(read) {
            if checked is Ok {
                body_itself_is_saved(read, text, checked, text);
                let saved = choose|saved: Result<(), Seq<char>>|
                    saved_from(SaveStep::WriteTemporary, encode_utf8(text), a, b, saved is Ok)
                        && reply == #[trigger] after_save(saved);
                saving_is_all_or_nothing(encode_utf8(text), a, b, saved is Ok);
            }
        }
    }
}

/// The configuration, the temporary file and the copy of the old configuration are three files.
pub proof fn saving_uses_three_names(file_name: Seq<char>, process: nat, nonce: nat)
    ensures
        temporary_text(file_name, process, nonce) != file_name,
        backup_text(file_name) != file_name,
        temporary_text(file_name, process, nonce) != backup_text(file_name),
{
    reveal_strlit(".");
    reveal_strlit(".tmp.");
    reveal_strlit(".bak");
    let temporary = temporary_text(file_name, process, nonce);
    decimal_round_trip(nonce);
    assert(temporary.len() > file_name.len());
    assert(backup_text(file_name).len() == file_name.len() + 4);
    assert(temporary.last() == decimal(nonce).last());
    assert(is_digit(decimal(nonce)[decimal(nonce).len() - 1]));
    assert(backup_text(file_name).last() == 'k');
}

/// Temporary files of different processes, or of different saves, have different names.
pub proof fn temporary_names_differ(
    file_name: Seq<char>,
    process: nat,
    nonce: nat,
    other_process: nat,
    other_nonce: nat,
)
    requires
        temporary_text(file_name, process, nonce) == temporary_text(
            file_name,
            other_process,
            other_nonce,
        ),
    ensures
        process == other_process,
        nonce == other_nonce,
{
    reveal_strlit(".");
    reveal_strlit(".tmp.");
    let skip = 6 + file_name.len() as int;
    let a = temporary_text(file_name, process, nonce).skip(skip);
    let b = temporary_text(file_name, other_process, other_nonce).skip(skip);
    assert(a =~= decimal(process) + "."@ + decimal(nonce));
    assert(b =~= decimal(other_process) + "."@ + decimal(other_nonce));
    decimal_round_trip(process);
    decimal_round_trip(nonce);
    decimal_round_trip(other_process);
    decimal_round_trip(other_nonce);
    let i = decimal(process).len() as int;
    let j = decimal(other_process).len() as int;
    assert forall|k: int| 0 <= k < i implies a[k] != '.' by {
        assert(a[k] == decimal(process)[k]);
        assert(is_digit(decimal(process)[k]));
    }
    assert forall|k: int| 0 <= k < j implies b[k] != '.' by {
        assert(b[k] == decimal(other_process)[k]);
        assert(is_digit(decimal(other_process)[k]));
    }
    lemma_first_index_is(a, '.', i);
    lemma_first_index_is(b, '.', j);
    assert(a.take(i) =~= decimal(process));
    assert(b.take(j) =~= decimal(other_process));
    assert(a.skip(i + 1) =~= decimal(nonce));
    assert(b.skip(j + 1) =~= decimal(other_nonce));
}

// ---------------------------------------------------------------------------------------------
// Laws of the operations
// ---------------------------------------------------------------------------------------------
/// A request whose headers are refused is answered so; of any other as many bytes are read as its
/// headers say.
pub proof fn body_is_read_as_long_as_announced(
    allowed: bool,
    headers: &HttpHeaders,
    expected: &Option<String>,
    out: ChangeStep,
    refusal: Option<HttpReply>,
)
    requires
        call_ensures(headers_step, (allowed, headers, expected), out),
        call_ensures(change_refusal, (allowed, headers, expected), refusal),
    ensures
        refusal matches Some(reply) ==> (out matches ChangeStep::Reply(answer) && answer.code
            == reply.code && answer.body@ == reply.body@),
        refusal is None ==> (out matches ChangeStep::Read(n) && n == headers.content_length),
{
    assert(headers@.content_length == headers.content_length);
    match out {
        ChangeStep::Reply(answer) => {
            assert(out@ == StepView::Reply((answer.code, answer.body@)));
        },
        ChangeStep::Read(n) => {
            assert(out@ == StepView::Read(n as nat));
        },
        _ => {},
    }
}

/// A body that was read is checked where it is the encoding of a text, which is then that text;
/// where it is not, and where it was not read, the request is answered by 400 and the reason.
pub proof fn body_is_checked_as_text(
    body: Vec<u8>,
    out: ChangeStep,
    reason: String,
    failed: ChangeStep,
)
    requires
        call_ensures(body_step, (Ok::<Vec<u8>, String>(body),), out),
        call_ensures(body_step, (Err::<Vec<u8>, String>(reason),), failed),
    ensures
        valid_utf8(body@) ==> (out matches ChangeStep::Check(text) && encode_utf8(text@) == body@),
        !valid_utf8(body@) ==> (out matches ChangeStep::Reply(answer) && answer.code == 400
            && answer.body@ == "config must be UTF-8: "@ + utf8_error(body@)),
        failed matches ChangeStep::Reply(answer) && answer.code == 400 && answer.body@
            == "failed reading request body: "@ + reason@,
{
    match out {
        ChangeStep::Reply(answer) => {
            assert(out@ == StepView::Reply((answer.code, answer.body@)));
        },
        ChangeStep::Check(text) => {
            assert(out@ == StepView::Check(text@));
        },
        _ => {},
    }
    match failed {
        ChangeStep::Reply(answer) => {
            assert(failed@ == StepView::Reply((answer.code, answer.body@)));
        },
        _ => {},
    }
    if valid_utf8(body@) {
        decode_utf8_encode_utf8(body@);
    }
}

/// A text is checked as it is; a failure of decoding is answered by 400 and the reason.
pub proof fn decoded_text_is_checked(
    text: String,
    out: ChangeStep,
    reason: String,
    failed: ChangeStep,
)
    requires
        call_ensures(decoded_step, (Ok::<String, String>(text),), out),
        call_ensures(decoded_step, (Err::<String, String>(reason),), failed),
    ensures
        out matches ChangeStep::Check(given) && given@ == text@,
        failed matches ChangeStep::Reply(answer) && answer.code == 400 && answer.body@
            == "config must be UTF-8: "@ + reason@,
{
    match out {
        ChangeStep::Check(given) => {
            assert(out@ == StepView::Check(given@));
        },
        _ => {},
    }
    match failed {
        ChangeStep::Reply(answer) => {
            assert(failed@ == StepView::Reply((answer.code, answer.body@)));
        },
        _ => {},
    }
}

/// A text that is a configuration is saved as it is; any other is answered by 400 and the reason,
/// and not saved. A configuration that was saved is answered by 200, and one that could not be by
/// 500 and the reason.
pub proof fn checked_text_is_saved_as_it_is(
    text: String,
    out: ChangeStep,
    reason: String,
    failed: ChangeStep,
    good: HttpReply,
    bad: HttpReply,
)
    requires
        call_ensures(checked_step, (text, Ok::<(), String>(())), out),
        call_ensures(checked_step, (text, Err::<(), String>(reason)), failed),
        call_ensures(saved_step, (Ok::<(), String>(()),), good),
        call_ensures(saved_step, (Err::<(), String>(reason),), bad),
    ensures
        out matches ChangeStep::Save(kept) && kept@ == text@,
        failed matches ChangeStep::Reply(answer) && answer.code == 400 && answer.body@
            == "invalid config: "@ + reason@,
        good.code == 200 && good.body@ == "OK"@,
        bad.code == 500 && bad.body@ == reason@,
{
    match out {
        ChangeStep::Save(kept) => {
            assert(out@ == StepView::Save(kept@));
        },
        _ => {},
    }
    match failed {
        ChangeStep::Reply(answer) => {
            assert(failed@ == StepView::Reply((answer.code, answer.body@)));
        },
        _ => {},
    }
}

/// Saving begins with the temporary file, goes on with bringing it to the disk, then with the copy
/// of the old configuration where there is one, then with the change of names, and ends with
/// bringing that to the disk. A failure ends it with its words, but for the copy and the last step,
/// which are not needed.
pub proof fn saving_goes_step_by_step(
    first: SaveStep,
    step: SaveStep,
    present: bool,
    good: SaveProgress,
    e: String,
    bad: SaveProgress,
)
    requires
        call_ensures(SaveStep::first, (), first),
        call_ensures(SaveStep::next, (step, present, Ok::<(), String>(())), good),
        call_ensures(SaveStep::next, (step, present, Err::<(), String>(e)), bad),
    ensures
        first == SaveStep::WriteTemporary,
        step == SaveStep::WriteTemporary ==> good == SaveProgress::Next(SaveStep::SyncTemporary),
        step == SaveStep::SyncTemporary && present ==> good == SaveProgress::Next(SaveStep::Backup),
        step == SaveStep::SyncTemporary && !present ==> good == SaveProgress::Next(
            SaveStep::Rename,
        ),
        step == SaveStep::Backup ==> good == SaveProgress::Next(SaveStep::Rename) && bad
            == SaveProgress::Next(SaveStep::Rename),
        step == SaveStep::Rename ==> good == SaveProgress::Next(SaveStep::SyncDirectory),
        step == SaveStep::SyncDirectory ==> (good matches SaveProgress::Ended(end) && end is Ok) && (
        bad matches SaveProgress::Ended(end) && end is Ok),
        step == SaveStep::WriteTemporary || step == SaveStep::SyncTemporary || step
            == SaveStep::Rename ==> (bad matches SaveProgress::Ended(end) && (end matches Err(text)
            && text@ == e@)),
{
}

/// The temporary file is hidden and named after the configuration, the process and the save; the
/// copy after the configuration, which has a name of its own where its path gives none.
pub proof fn files_are_named_after_the_configuration(
    file_name: &str,
    process: u32,
    nonce: u128,
    temporary: String,
    backup: String,
    named: String,
    unnamed: String,
)
    requires
        call_ensures(temporary_name, (file_name, process, nonce), temporary),
        call_ensures(backup_name, (file_name,), backup),
        call_ensures(config_file_name, (Some(file_name),), named),
        call_ensures(config_file_name, (None::<&str>,), unnamed),
    ensures
        temporary@ == "."@ + file_name@ + ".tmp."@ + decimal(process as nat) + "."@ + decimal(
            nonce as nat,
        ),
        backup@ == file_name@ + ".bak"@,
        named@ == file_name@,
        unnamed@ == "config.toml"@,
{
}

/// Steps that look the same are the same: they answer the same, read as much, and check or save the
/// same text.
pub proof fn step_is_known_by_its_view(a: ChangeStep, b: ChangeStep)
    requires
        a@ == b@,
    ensures
        match (a, b) {
            (ChangeStep::Reply(x), ChangeStep::Reply(y)) => x.code == y.code && x.body@ == y.body@,
            (ChangeStep::Read(x), ChangeStep::Read(y)) => x == y,
            (ChangeStep::Check(x), ChangeStep::Check(y)) => x@ == y@,
            (ChangeStep::Save(x), ChangeStep::Save(y)) => x@ == y@,
            _ => false,
        },
{
}

} // verus!
