//! How an agent finds out whether its machine is as it should be.

use crate::agent::state::{PendingBootState, PendingBootStateView};
use crate::digest::{sha256, sha256_of};
use crate::text::{
    ascii_lowercase, concat, contains, digit_value, has_text, hex, hex_of, law_hex, lowered,
    occurs_at, same, text_read, trim, trimmed,
};
use crate::types::manifest::{
    HealthCheck, HealthCheckKind, HealthCheckView, ValidationSpec, ValidationSpecView,
};
use vstd::prelude::*;

verus! {

/// A command that has to succeed.
#[derive(Debug)]
pub struct CommandProbe {
    pub name: String,
    pub command: String,
}

/// The value of a [`CommandProbe`].
#[verifier::ext_equal]
pub struct CommandProbeView {
    pub name: Seq<char>,
    pub command: Seq<char>,
}

impl View for CommandProbe {
    type V = CommandProbeView;

    open spec fn view(&self) -> CommandProbeView {
        CommandProbeView {
            name: self.name@,
            command: self.command@,
        }
    }
}

/// An address that has to answer, with a text in the answer where one is given.
#[derive(Debug)]
pub struct FetchProbe {
    pub name: String,
    pub url: String,
    pub contains: Option<String>,
}

/// The value of a [`FetchProbe`].
#[verifier::ext_equal]
pub struct FetchProbeView {
    pub name: Seq<char>,
    pub url: Seq<char>,
    pub contains: Option<Seq<char>>,
}

impl View for FetchProbe {
    type V = FetchProbeView;

    open spec fn view(&self) -> FetchProbeView {
        FetchProbeView {
            name: self.name@,
            url: self.url@,
            contains: self.contains.deep_view(),
        }
    }
}

/// Something to find out about the machine.
#[derive(Debug)]
pub enum Probe {
    /// The path of the running system is to be the given one.
    SystemPath(String),
    /// The name of the machine is to be the given one.
    Hostname(String),
    /// A command is to succeed.
    Command(CommandProbe),
    /// An address is to answer.
    Fetch(FetchProbe),
    /// The check does not say what to find out, which is a complaint.
    Missing(String),
}

/// The value of a [`Probe`].
#[verifier::ext_equal]
pub enum ProbeView {
    SystemPath(Seq<char>),
    Hostname(Seq<char>),
    Command(CommandProbeView),
    Fetch(FetchProbeView),
    Missing(Seq<char>),
}

impl View for Probe {
    type V = ProbeView;

    open spec fn view(&self) -> ProbeView {
        match self {
            Probe::SystemPath(x) => ProbeView::SystemPath(x@),
            Probe::Hostname(x) => ProbeView::Hostname(x@),
            Probe::Command(x) => ProbeView::Command(x@),
            Probe::Fetch(x) => ProbeView::Fetch(x@),
            Probe::Missing(x) => ProbeView::Missing(x@),
        }
    }
}

impl DeepView for Probe {
    type V = ProbeView;

    open spec fn deep_view(&self) -> ProbeView {
        self@
    }
}

/// What a health check asks to find out, if anything.
pub open spec fn probe_of(check: HealthCheckView) -> Option<ProbeView> {
    match check.kind {
        HealthCheckKind::AlwaysPass => None,
        HealthCheckKind::CommandExitZero => Some(
            match check.command {
                Some(command) => ProbeView::Command(
                    CommandProbeView { name: check.name, command },
                ),
                None => ProbeView::Missing(
                    "missing command for command_exit_zero health check"@,
                ),
            },
        ),
        HealthCheckKind::HttpGet => Some(
            match check.url {
                Some(url) => ProbeView::Fetch(
                    FetchProbeView { name: check.name, url, contains: check.contains },
                ),
                None => ProbeView::Missing("missing url for http_get health check"@),
            },
        ),
    }
}

/// What health checks ask to find out, in their order.
pub open spec fn probes_of(checks: Seq<HealthCheckView>) -> Seq<ProbeView>
    decreases checks.len(),
{
    if checks.len() == 0 {
        Seq::empty()
    } else {
        match probe_of(checks.last()) {
            Some(probe) => probes_of(checks.drop_last()).push(probe),
            None => probes_of(checks.drop_last()),
        }
    }
}

/// What is to be found out about a machine: the path of the system and the name of the machine
/// where they are expected, and what the health checks ask, in this order.
pub open spec fn expected_probes_of(
    system_path: Option<Seq<char>>,
    hostname: Option<Seq<char>>,
    checks: Seq<HealthCheckView>,
) -> Seq<ProbeView> {
    let system = match system_path {
        Some(path) => seq![ProbeView::SystemPath(path)],
        None => Seq::empty(),
    };
    let name = match hostname {
        Some(name) => seq![ProbeView::Hostname(name)],
        None => Seq::empty(),
    };
    system + name + probes_of(checks)
}

/// What is to be found out to validate a release, whatever its executor.
pub open spec fn validation_probes_of(v: ValidationSpecView) -> Seq<ProbeView> {
    expected_probes_of(v.expected_system_path, v.expected_hostname, v.health_checks)
}

/// What is to be found out after a start of the machine.
pub open spec fn boot_probes_of(pending: PendingBootStateView) -> Seq<ProbeView> {
    expected_probes_of(
        pending.expected_system_path,
        pending.expected_hostname,
        pending.health_checks,
    )
}

/// Adds what health checks ask to find out.
fn add_probes(probes: &mut Vec<Probe>, checks: &Vec<HealthCheck>)
    ensures
        final(probes).deep_view() == old(probes).deep_view() + probes_of(checks.deep_view()),
{
    let ghost before = probes.deep_view();
    let ghost view = checks.deep_view();
    let mut i: usize = 0;
    assert(view.take(0) =~= Seq::empty());
    assert(probes.deep_view() =~= before + probes_of(view.take(0)));
    while i < checks.len()
        invariant
            i <= checks.len(),
            view == checks.deep_view(),
            probes.deep_view() == before + probes_of(view.take(i as int)),
        decreases checks.len() - i,
    {
        let ghost earlier = probes.deep_view();
        let check = &checks[i];
        assert(view.take(i + 1).drop_last() =~= view.take(i as int));
        assert(view.take(i + 1).last() == check@);
        match check.kind {
            HealthCheckKind::AlwaysPass => {},
            HealthCheckKind::CommandExitZero => {
                let probe = match &check.command {
                    Some(command) => Probe::Command(
                        CommandProbe { name: check.name.clone(), command: command.clone() },
                    ),
                    None => Probe::Missing(
                        "missing command for command_exit_zero health check".to_string(),
                    ),
                };
                assert(probe_of(check@) == Some(probe@));
                probes.push(probe);
                assert(probes.deep_view() =~= earlier.push(probe@));
            },
            HealthCheckKind::HttpGet => {
                let probe = match &check.url {
                    Some(url) => Probe::Fetch(
                        FetchProbe {
                            name: check.name.clone(),
                            url: url.clone(),
                            contains: check.contains.clone(),
                        },
                    ),
                    None => Probe::Missing("missing url for http_get health check".to_string()),
                };
                assert(probe_of(check@) == Some(probe@));
                probes.push(probe);
                assert(probes.deep_view() =~= earlier.push(probe@));
            },
        }
        assert(probes.deep_view() =~= before + probes_of(view.take(i + 1)));
        i += 1;
    }
    assert(view.take(i as int) =~= view);
}

/// What is to be found out about a machine.
fn expected_probes(
    system_path: &Option<String>,
    hostname: &Option<String>,
    checks: &Vec<HealthCheck>,
) -> (r: Vec<Probe>)
    ensures
        r.deep_view() == expected_probes_of(
            system_path.deep_view(),
            hostname.deep_view(),
            checks.deep_view(),
        ),
{
    let mut probes: Vec<Probe> = Vec::new();
    if let Some(path) = system_path {
        probes.push(Probe::SystemPath(path.clone()));
    }
    if let Some(name) = hostname {
        probes.push(Probe::Hostname(name.clone()));
    }
    add_probes(&mut probes, checks);
    assert(probes.deep_view() =~= expected_probes_of(
        system_path.deep_view(),
        hostname.deep_view(),
        checks.deep_view(),
    ));
    probes
}

/// What is to be found out to validate a release, whatever its executor.
pub fn validation_probes(validation: &ValidationSpec) -> (r: Vec<Probe>)
    ensures
        r.deep_view() == validation_probes_of(validation@),
{
    expected_probes(
        &validation.expected_system_path,
        &validation.expected_hostname,
        &validation.health_checks,
    )
}

/// What is to be found out after a start of the machine.
pub fn boot_probes(pending: &PendingBootState) -> (r: Vec<Probe>)
    ensures
        r.deep_view() == boot_probes_of(pending@),
{
    expected_probes(
        &pending.expected_system_path,
        &pending.expected_hostname,
        &pending.health_checks,
    )
}

/// The value of what was found out of a probe.
pub open spec fn judged(r: Result<(), String>) -> Result<(), Seq<char>> {
    match r {
        Ok(_) => Ok(()),
        Err(complaint) => Err(complaint@),
    }
}

/// The values of what was found out so far.
pub open spec fn all_judged(outcomes: Seq<Result<(), String>>) -> Seq<Result<(), Seq<char>>> {
    outcomes.map_values(|outcome: Result<(), String>| judged(outcome))
}

/// How far the finding out has come.
#[derive(Debug)]
pub enum Progress {
    /// The machine is not as it should be, with the complaint.
    Failed(String),
    /// The machine is as it should be.
    Passed,
    /// This probe is next.
    Next(usize),
}

/// The value of [`Progress`].
#[verifier::ext_equal]
pub enum ProgressView {
    Failed(Seq<char>),
    Passed,
    Next(int),
}

impl View for Progress {
    type V = ProgressView;

    open spec fn view(&self) -> ProgressView {
        match self {
            Progress::Failed(complaint) => ProgressView::Failed(complaint@),
            Progress::Passed => ProgressView::Passed,
            Progress::Next(at) => ProgressView::Next(*at as int),
        }
    }
}

/// How far the finding out has come, from a probe on: the first probe that complains ends it,
/// and the first of which nothing is known yet is next.
pub open spec fn progress_from(
    probes: Seq<ProbeView>,
    outcomes: Seq<Result<(), Seq<char>>>,
    at: int,
) -> ProgressView
    decreases probes.len() - at,
{
    if at >= probes.len() {
        ProgressView::Passed
    } else {
        match probes[at] {
            ProbeView::Missing(complaint) => ProgressView::Failed(complaint),
            _ => if at >= outcomes.len() {
                ProgressView::Next(at)
            } else {
                match outcomes[at] {
                    Err(complaint) => ProgressView::Failed(complaint),
                    Ok(_) => progress_from(probes, outcomes, at + 1),
                }
            },
        }
    }
}

/// How far the finding out has come, by what was found out of the first probes.
pub fn run_health_checks(probes: &Vec<Probe>, outcomes: &Vec<Result<(), String>>) -> (r: Progress)
    ensures
        r@ == progress_from(probes.deep_view(), all_judged(outcomes@), 0),
        r matches Progress::Next(at) ==> at < probes@.len(),
{
    let ghost view = probes.deep_view();
    let ghost found = all_judged(outcomes@);
    let mut i: usize = 0;
    while i < probes.len()
        invariant
            i <= probes.len(),
            view == probes.deep_view(),
            found == all_judged(outcomes@),
            progress_from(view, found, i as int) == progress_from(view, found, 0),
        decreases probes.len() - i,
    {
        assert(view[i as int] == probes@[i as int]@);
        match &probes[i] {
            Probe::Missing(complaint) => {
                return Progress::Failed(complaint.clone());
            },
            _ => {},
        }
        if i >= outcomes.len() {
            return Progress::Next(i);
        }
        assert(found[i as int] == judged(outcomes@[i as int]));
        match &outcomes[i] {
            Ok(_) => {},
            Err(complaint) => {
                return Progress::Failed(complaint.clone());
            },
        }
        i += 1;
    }
    Progress::Passed
}

/// The machine passes exactly where every probe says what to find out and was found to be as it
/// should be.
pub proof fn law_passed(probes: Seq<ProbeView>, outcomes: Seq<Result<(), Seq<char>>>, at: int)
    requires
        0 <= at <= probes.len(),
    ensures
        progress_from(probes, outcomes, at) is Passed <==> forall|k: int|
            at <= k < probes.len() ==> !((#[trigger] probes[k]) is Missing) && k < outcomes.len()
                && outcomes[k] is Ok,
    decreases probes.len() - at,
{
    if at < probes.len() {
        law_passed(probes, outcomes, at + 1);
        if probes[at] is Missing || at >= outcomes.len() || outcomes[at] is Err {
            assert(!(!(probes[at] is Missing) && at < outcomes.len() && outcomes[at] is Ok));
        }
    }
}

/// What is said of the path of the running system. The expected path is given as links in it
/// resolve, and so is the actual one.
pub open spec fn system_verdict(
    actual: Result<Seq<char>, Seq<char>>,
    expected: Result<Seq<char>, Seq<char>>,
) -> Result<(), Seq<char>> {
    match (actual, expected) {
        (Err(complaint), _) => Err(complaint),
        (_, Err(complaint)) => Err(complaint),
        (Ok(actual), Ok(expected)) => if actual == expected {
            Ok(())
        } else {
            Err("current system mismatch: expected "@ + expected + ", got "@ + actual)
        },
    }
}

/// What is said of the path of the running system.
pub fn judge_system_path(actual: Result<String, String>, expected: Result<String, String>) -> (r:
    Result<(), String>)
    ensures
        judged(r) == system_verdict(text_read(actual), text_read(expected)),
        r is Ok <==> actual is Ok && expected is Ok && actual->Ok_0@ == expected->Ok_0@,
{
    let actual = actual?;
    let expected = expected?;
    if same(actual.as_str(), expected.as_str()) {
        Ok(())
    } else {
        let start = concat("current system mismatch: expected ", expected.as_str());
        Err(concat(concat(start.as_str(), ", got ").as_str(), actual.as_str()))
    }
}

/// What is said of the name of the machine.
pub open spec fn hostname_verdict(
    expected: Seq<char>,
    actual: Result<Seq<char>, Seq<char>>,
) -> Result<(), Seq<char>> {
    match actual {
        Err(complaint) => Err(complaint),
        Ok(actual) => if actual == expected {
            Ok(())
        } else {
            Err("hostname mismatch: expected "@ + expected + ", got "@ + actual)
        },
    }
}

/// What is said of the name of the machine.
pub fn judge_hostname(expected: &str, actual: Result<String, String>) -> (r: Result<(), String>)
    ensures
        judged(r) == hostname_verdict(expected@, text_read(actual)),
        r is Ok <==> actual is Ok && actual->Ok_0@ == expected@,
{
    let actual = actual?;
    if same(actual.as_str(), expected) {
        Ok(())
    } else {
        let start = concat("hostname mismatch: expected ", expected);
        Err(concat(concat(start.as_str(), ", got ").as_str(), actual.as_str()))
    }
}

/// The name of a machine out of the file that holds it.
pub fn hostname_in(raw: &str) -> (r: String)
    ensures
        r@ == trimmed(raw@),
{
    trim(raw)
}

/// How a command ended.
#[derive(Debug)]
pub struct CommandEnd {
    pub success: bool,
    /// How the end is written down.
    pub status: String,
}

/// What is said of a command that has to succeed.
pub open spec fn command_verdict(name: Seq<char>, success: bool, status: Seq<char>) -> Result<
    (),
    Seq<char>,
> {
    if success {
        Ok(())
    } else {
        Err("health check "@ + name + " failed with exit status "@ + status)
    }
}

/// What is said of a command that has to succeed.
pub fn judge_command(name: &str, end: Result<CommandEnd, String>) -> (r: Result<(), String>)
    ensures
        judged(r) == match end {
            Ok(end) => command_verdict(name@, end.success, end.status@),
            Err(complaint) => Err(complaint@),
        },
        r is Ok <==> end is Ok && end->Ok_0.success,
{
    let end = end?;
    if end.success {
        Ok(())
    } else {
        let start = concat("health check ", name);
        Err(
            concat(
                concat(start.as_str(), " failed with exit status ").as_str(),
                end.status.as_str(),
            ),
        )
    }
}

/// What is said of the answer of an address.
pub open spec fn body_verdict(
    name: Seq<char>,
    wanted: Option<Seq<char>>,
    body: Result<Seq<char>, Seq<char>>,
) -> Result<(), Seq<char>> {
    match body {
        Err(complaint) => Err(complaint),
        Ok(body) => match wanted {
            None => Ok(()),
            Some(text) => if has_text(body, text) {
                Ok(())
            } else {
                Err("health check "@ + name + " body missing expected text"@)
            },
        },
    }
}

/// What is said of the answer of an address.
pub fn judge_body(name: &str, wanted: &Option<String>, body: Result<String, String>) -> (r: Result<
    (),
    String,
>)
    ensures
        judged(r) == body_verdict(name@, wanted.deep_view(), text_read(body)),
        r is Ok <==> body is Ok && (wanted is None || exists|at: int|
            0 <= at <= body->Ok_0@.len() - wanted->0@.len() && #[trigger] body->Ok_0@.subrange(
                at,
                at + wanted->0@.len(),
            ) == wanted->0@),
{
    proof {
        if wanted is Some && body is Ok {
            law_body_judged(name@, wanted->0@, body->Ok_0@);
        }
    }
    let body = body?;
    match wanted {
        None => Ok(()),
        Some(text) => if contains(body.as_str(), text.as_str()) {
            Ok(())
        } else {
            let start = concat("health check ", name);
            Err(concat(start.as_str(), " body missing expected text"))
        },
    }
}

/// What is said of an artifact: its digest is to be the given one, written in either case.
pub open spec fn digest_verdict(data: Seq<u8>, expected: Option<Seq<char>>) -> Result<
    (),
    Seq<char>,
> {
    match expected {
        None => Ok(()),
        Some(expected) => {
            let actual = hex(sha256(data));
            if actual == lowered(expected) {
                Ok(())
            } else {
                Err("sha256 mismatch: expected "@ + expected + ", got "@ + actual)
            }
        },
    }
}

/// What is said of an artifact with a digest.
pub fn digest_matches(digest: &Vec<u8>, expected: &str) -> (r: Result<(), String>)
    ensures
        judged(r) == if hex(digest@) == lowered(expected@) {
            Ok(())
        } else {
            Err("sha256 mismatch: expected "@ + expected@ + ", got "@ + hex(digest@))
        },
{
    let actual = hex_of(digest);
    if same(actual.as_str(), ascii_lowercase(expected).as_str()) {
        Ok(())
    } else {
        let start = concat("sha256 mismatch: expected ", expected);
        Err(concat(concat(start.as_str(), ", got ").as_str(), actual.as_str()))
    }
}

/// What is said of an artifact: its digest is to be the given one, if one is given.
pub fn verify_sha256(data: &Vec<u8>, expected: &Option<String>) -> (r: Result<(), String>)
    ensures
        judged(r) == digest_verdict(data@, expected.deep_view()),
{
    match expected {
        None => Ok(()),
        Some(expected) => digest_matches(&sha256_of(data), expected.as_str()),
    }
}

/// Whether an artifact passes does not depend on the case in which its digest is given.
pub proof fn law_digest_case(data: Seq<u8>, one: Seq<char>, other: Seq<char>)
    requires
        lowered(one) == lowered(other),
    ensures
        digest_verdict(data, Some(one)) is Ok <==> digest_verdict(data, Some(other)) is Ok,
{
}

proof fn lemma_checks_probed(checks: Seq<HealthCheckView>)
    ensures
        forall|k: int|
            0 <= k < checks.len() && probe_of(#[trigger] checks[k]) is Some ==> probes_of(
                checks,
            ).contains(probe_of(checks[k])->0),
    decreases checks.len(),
{
    if checks.len() > 0 {
        let rest = checks.drop_last();
        lemma_checks_probed(rest);
        assert forall|k: int|
            0 <= k < checks.len() && probe_of(#[trigger] checks[k]) is Some implies probes_of(
            checks,
        ).contains(probe_of(checks[k])->0) by {
            let probe = probe_of(checks[k])->0;
            if k < rest.len() {
                assert(rest[k] == checks[k]);
                assert(probes_of(rest).contains(probe));
                let j = choose|j: int| 0 <= j < probes_of(rest).len() && probes_of(rest)[j] == probe;
                assert(probes_of(checks)[j] == probe);
            } else {
                assert(probes_of(checks)[probes_of(checks).len() - 1] == probe);
            }
        }
    }
}

/// Validating a release asks for everything that it expects: the path of the system, the name of
/// the machine, and what each health check asks for.
pub proof fn law_expectations_probed(v: ValidationSpecView)
    ensures
        v.expected_system_path matches Some(path) ==> validation_probes_of(v).contains(
            ProbeView::SystemPath(path),
        ),
        v.expected_hostname matches Some(name) ==> validation_probes_of(v).contains(
            ProbeView::Hostname(name),
        ),
        forall|k: int|
            0 <= k < v.health_checks.len() && probe_of(#[trigger] v.health_checks[k]) is Some
                ==> validation_probes_of(v).contains(probe_of(v.health_checks[k])->0),
{
    let probes = validation_probes_of(v);
    let checks = probes_of(v.health_checks);
    let first: int = if v.expected_system_path is Some {
        1
    } else {
        0
    };
    let second: int = if v.expected_hostname is Some {
        1
    } else {
        0
    };
    lemma_checks_probed(v.health_checks);
    if v.expected_system_path is Some {
        assert(probes[0] == ProbeView::SystemPath(v.expected_system_path->0));
    }
    if v.expected_hostname is Some {
        assert(probes[first] == ProbeView::Hostname(v.expected_hostname->0));
    }
    assert forall|k: int|
        0 <= k < v.health_checks.len() && probe_of(
            #[trigger] v.health_checks[k],
        ) is Some implies probes.contains(probe_of(v.health_checks[k])->0) by {
        let probe = probe_of(v.health_checks[k])->0;
        let j = choose|j: int| 0 <= j < checks.len() && checks[j] == probe;
        assert(probes[first + second + j] == checks[j]);
    }
}

/// The name of the machine passes exactly where it was read and is the expected one, in length
/// and character for character. Where it was not read, what is said is why.
pub proof fn law_hostname_judged(expected: Seq<char>, actual: Result<Seq<char>, Seq<char>>)
    ensures
        hostname_verdict(expected, actual) is Ok <==> {
            &&& actual is Ok
            &&& actual->Ok_0.len() == expected.len()
            &&& forall|i: int| 0 <= i < expected.len() ==> actual->Ok_0[i] == #[trigger] expected[i]
        },
        actual is Err ==> hostname_verdict(expected, actual) == Err::<(), Seq<char>>(
            actual->Err_0,
        ),
        actual is Ok && actual->Ok_0 != expected ==> hostname_verdict(expected, actual) == Err::<
            (),
            Seq<char>,
        >("hostname mismatch: expected "@ + expected + ", got "@ + actual->Ok_0),
{
    if actual is Ok && actual->Ok_0.len() == expected.len() && forall|i: int|
        0 <= i < expected.len() ==> actual->Ok_0[i] == #[trigger] expected[i] {
        assert(actual->Ok_0 =~= expected);
    }
}

/// The path of the running system passes exactly where both paths were resolved and are the same,
/// in length and character for character.
pub proof fn law_system_path_judged(
    actual: Result<Seq<char>, Seq<char>>,
    expected: Result<Seq<char>, Seq<char>>,
)
    ensures
        system_verdict(actual, expected) is Ok <==> {
            &&& actual is Ok
            &&& expected is Ok
            &&& actual->Ok_0.len() == expected->Ok_0.len()
            &&& forall|i: int|
                0 <= i < expected->Ok_0.len() ==> actual->Ok_0[i] == #[trigger] expected->Ok_0[i]
        },
        actual is Err ==> system_verdict(actual, expected) == Err::<(), Seq<char>>(actual->Err_0),
        actual is Ok && expected is Err ==> system_verdict(actual, expected) == Err::<
            (),
            Seq<char>,
        >(expected->Err_0),
        actual is Ok && expected is Ok && actual->Ok_0 != expected->Ok_0 ==> system_verdict(
            actual,
            expected,
        ) == Err::<(), Seq<char>>(
            "current system mismatch: expected "@ + expected->Ok_0 + ", got "@ + actual->Ok_0,
        ),
{
    if actual is Ok && expected is Ok && actual->Ok_0.len() == expected->Ok_0.len() && forall|
        i: int,
    |
        0 <= i < expected->Ok_0.len() ==> actual->Ok_0[i] == #[trigger] expected->Ok_0[i] {
        assert(actual->Ok_0 =~= expected->Ok_0);
    }
}

/// A command passes exactly where it succeeded, whatever its name and however its end is written.
pub proof fn law_command_judged(name: Seq<char>, success: bool, status: Seq<char>)
    ensures
        command_verdict(name, success, status) is Ok <==> success,
{
}

/// An answer passes exactly where it holds the wanted text, in one piece at some position.
pub proof fn law_body_judged(name: Seq<char>, wanted: Seq<char>, body: Seq<char>)
    ensures
        body_verdict(name, Some(wanted), Ok(body)) is Ok <==> exists|at: int|
            0 <= at <= body.len() - wanted.len() && #[trigger] body.subrange(
                at,
                at + wanted.len(),
            ) == wanted,
        body_verdict(name, None, Ok(body)) is Ok,
        forall|complaint: Seq<char>, text: Option<Seq<char>>|
            (#[trigger] body_verdict(name, text, Err(complaint))) == Err::<(), Seq<char>>(
                complaint,
            ),
{
    if exists|at: int|
        0 <= at <= body.len() - wanted.len() && #[trigger] body.subrange(at, at + wanted.len())
            == wanted {
        let at = choose|at: int|
            0 <= at <= body.len() - wanted.len() && #[trigger] body.subrange(
                at,
                at + wanted.len(),
            ) == wanted;
        assert(occurs_at(body, wanted, at));
    }
    if has_text(body, wanted) {
        let at = choose|at: int| occurs_at(body, wanted, at);
        assert(body.subrange(at, at + wanted.len()) == wanted);
    }
}

/// An artifact passes exactly where no digest is given, or where the digest that is given has two
/// hexadecimal digits of either case for each byte of the digest of the artifact, which stand for
/// its number.
pub proof fn law_artifact_judged(data: Seq<u8>, expected: Option<Seq<char>>)
    ensures
        digest_verdict(data, expected) is Ok <==> (expected is None || {
            let digest = sha256(data);
            &&& expected->0.len() == 2 * digest.len()
            &&& forall|i: int|
                0 <= i < digest.len() ==> {
                    &&& digit_value(expected->0[2 * i]) == Some(#[trigger] digest[i] as int / 16)
                    &&& digit_value(expected->0[2 * i + 1]) == Some(digest[i] as int % 16)
                }
        }),
{
    if expected is Some {
        law_hex(sha256(data), expected->0);
    }
}

/// Probes are asked for one after the other: each only where all before it passed, and only once.
/// The first that does not pass ends the matter with its complaint.
pub proof fn law_probes_in_order(
    probes: Seq<ProbeView>,
    outcomes: Seq<Result<(), Seq<char>>>,
    from: int,
)
    requires
        0 <= from <= probes.len(),
        from <= outcomes.len(),
    ensures
        progress_from(probes, outcomes, from) matches ProgressView::Next(at) ==> {
            &&& at == outcomes.len()
            &&& at < probes.len()
            &&& !(probes[at] is Missing)
            &&& forall|k: int|
                from <= k < at ==> !((#[trigger] probes[k]) is Missing) && outcomes[k] is Ok
        },
        progress_from(probes, outcomes, from) matches ProgressView::Failed(complaint) ==> exists|
            at: int,
        |
            {
                &&& from <= at < probes.len()
                &&& at <= outcomes.len()
                &&& (#[trigger] probes[at] matches ProbeView::Missing(said) && said == complaint)
                    || (!(probes[at] is Missing) && at < outcomes.len() && outcomes[at] == Err::<
                    (),
                    Seq<char>,
                >(complaint))
                &&& forall|k: int|
                    from <= k < at ==> !((#[trigger] probes[k]) is Missing) && outcomes[k] is Ok
            },
    decreases probes.len() - from,
{
    if from < probes.len() && !(probes[from] is Missing) && from < outcomes.len()
        && outcomes[from] is Ok {
        law_probes_in_order(probes, outcomes, from + 1);
        if progress_from(probes, outcomes, from) is Failed {
            let complaint = progress_from(probes, outcomes, from)->Failed_0;
            let at = choose|at: int|
                {
                    &&& from + 1 <= at < probes.len()
                    &&& at <= outcomes.len()
                    &&& (#[trigger] probes[at] matches ProbeView::Missing(said) && said
                        == complaint) || (!(probes[at] is Missing) && at < outcomes.len()
                        && outcomes[at] == Err::<(), Seq<char>>(complaint))
                    &&& forall|k: int|
                        from + 1 <= k < at ==> !((#[trigger] probes[k]) is Missing)
                            && outcomes[k] is Ok
                };
            assert(probes[at] is Missing || !(probes[at] is Missing));
        }
    } else if from < probes.len() {
        assert(probes[from] is Missing || !(probes[from] is Missing));
    }
}

/// What a health check asks for: nothing where it always passes, that its command succeeds, or
/// that its address answers, with the wanted text where one is given. A check that does not say
/// its command or its address cannot pass.
pub proof fn law_check_probed(check: HealthCheckView)
    ensures
        check.kind is AlwaysPass <==> probe_of(check) is None,
        check.kind is CommandExitZero && check.command is Some ==> probe_of(check) == Some(
            ProbeView::Command(
                CommandProbeView { name: check.name, command: check.command->0 },
            ),
        ),
        check.kind is HttpGet && check.url is Some ==> probe_of(check) == Some(
            ProbeView::Fetch(
                FetchProbeView { name: check.name, url: check.url->0, contains: check.contains },
            ),
        ),
        check.kind is CommandExitZero && check.command is None || check.kind is HttpGet
            && check.url is None ==> probe_of(check) is Some && probe_of(check)->0 is Missing,
{
}

/// What is asked about a machine goes in this order: the running system, its name, and then the
/// checks in their own order, each where it is there. A further check is asked about last, and one
/// that always passes is not asked about.
pub proof fn law_probes_by_order(
    system_path: Option<Seq<char>>,
    hostname: Option<Seq<char>>,
    checks: Seq<HealthCheckView>,
    check: HealthCheckView,
)
    ensures
        ({
            let probes = expected_probes_of(system_path, hostname, checks);
            let more = expected_probes_of(system_path, hostname, checks.push(check));
            let bare = expected_probes_of(system_path, hostname, Seq::empty());
            &&& system_path is Some ==> probes.len() > 0 && probes[0] == ProbeView::SystemPath(
                system_path->0,
            )
            &&& system_path is None && hostname is Some ==> probes.len() > 0 && probes[0]
                == ProbeView::Hostname(hostname->0)
            &&& system_path is Some && hostname is Some ==> probes.len() > 1 && probes[1]
                == ProbeView::Hostname(hostname->0)
            &&& check.kind is AlwaysPass ==> more == probes
            &&& check.kind is CommandExitZero && check.command is Some ==> more == probes.push(
                ProbeView::Command(
                    CommandProbeView { name: check.name, command: check.command->0 },
                ),
            )
            &&& check.kind is HttpGet && check.url is Some ==> more == probes.push(
                ProbeView::Fetch(
                    FetchProbeView { name: check.name, url: check.url->0, contains: check.contains },
                ),
            )
            &&& bare.len() == (if system_path is Some {
                1int
            } else {
                0
            }) + (if hostname is Some {
                1int
            } else {
                0
            })
        }),
{
    assert(checks.push(check).drop_last() =~= checks);
    let probes = expected_probes_of(system_path, hostname, checks);
    let more = expected_probes_of(system_path, hostname, checks.push(check));
    match probe_of(check) {
        Some(probe) => {
            assert(more =~= probes.push(probe));
        },
        None => {
            assert(more =~= probes);
        },
    }
}

/// A release and a start of the machine that is waited for are held to what they expect, and to
/// their checks.
pub proof fn law_probes_by_expectation(v: ValidationSpecView, pending: PendingBootStateView)
    ensures
        validation_probes_of(v) == expected_probes_of(
            v.expected_system_path,
            v.expected_hostname,
            v.health_checks,
        ),
        boot_probes_of(pending) == expected_probes_of(
            pending.expected_system_path,
            pending.expected_hostname,
            pending.health_checks,
        ),
{
}

} // verus!
