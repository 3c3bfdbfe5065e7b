//! The run of the checks before going live, from the first question to the report.
//!
//! The run does not ask anything itself. It says what is to be asked next, and goes
//! on with the answer: the credentials; the key inventory; for each mapping in turn
//! its key, unless an earlier mapping led to the same key, and then the HSM, as long
//! as it is asked at all; and at last the files that the configuration names.

use vstd::prelude::*;

use crate::hsm_probe::ProbeOutcome;
#[allow(unused_imports)]
use crate::key_map;
use crate::text::same_text;
#[allow(unused_imports)]
use crate::verify;
#[allow(unused_imports)]
use crate::verify::{FindingView, ReportView};
use crate::verify::{
    check_discover_tls, check_listen_tls, check_one_key, judge, note_credentials, note_scan,
    Credentials, DiscoverFiles, Finding, HsmKcvProbe, KeyCheck, KeyReply, ListenFiles, Report,
};

verus! {

// ── questions and answers ────────────────────────────────────────────────────

/// What is to be asked next.
pub enum Question<T = String> {
    /// Whether AWS credentials can be had.
    Credentials,
    /// For a scan of the key inventory.
    Scan,
    /// APC, for the key with this identifier.
    Key(T),
    /// The HSM, for the check value of the key with this label.
    Hsm(T),
    /// For the files that the configuration names.
    Files,
}

/// The answer to a question.
pub enum RunEvent<T = String> {
    Credentials(Credentials<T>),
    /// The text of the error, if the scan failed.
    Scanned(Option<T>),
    Key(KeyReply<T>),
    Hsm(ProbeOutcome<T>),
    Files { listen: Option<ListenFiles<T>>, discover: Option<DiscoverFiles<T>> },
}

/// An answer as contracts speak of it.
pub type EventView = RunEvent<Seq<char>>;

impl View for Question<String> {
    type V = Question<Seq<char>>;

    open spec fn view(&self) -> Question<Seq<char>> {
        match self {
            Question::Credentials => Question::Credentials,
            Question::Scan => Question::Scan,
            Question::Key(id) => Question::Key(id@),
            Question::Hsm(label) => Question::Hsm(label@),
            Question::Files => Question::Files,
        }
    }
}

impl View for RunEvent<String> {
    type V = EventView;

    open spec fn view(&self) -> EventView {
        match self {
            RunEvent::Credentials(c) => RunEvent::Credentials(c@),
            RunEvent::Scanned(e) => RunEvent::Scanned(key_map::maybe(*e)),
            RunEvent::Key(reply) => RunEvent::Key(reply@),
            RunEvent::Hsm(outcome) => RunEvent::Hsm(outcome@),
            RunEvent::Files { listen, discover } => RunEvent::Files {
                listen: verify::maybe_listen(*listen),
                discover: verify::maybe_discover(*discover),
            },
        }
    }
}

/// How far the run has come: which answer it waits for.
pub enum Stage<T = String> {
    Credentials,
    Scan,
    /// For the key of the mapping that is next.
    Key,
    /// For the HSM, about the mapping that is next, whose key was checked.
    Hsm(KeyCheck<T>),
    Files,
}

impl View for Stage<String> {
    type V = Stage<Seq<char>>;

    open spec fn view(&self) -> Stage<Seq<char>> {
        match self {
            Stage::Credentials => Stage::Credentials,
            Stage::Scan => Stage::Scan,
            Stage::Key => Stage::Key,
            Stage::Hsm(check) => Stage::Hsm(check@),
            Stage::Files => Stage::Files,
        }
    }
}

/// A question and the run that waits for the answer, or the report.
pub enum RunStep<Q = Question, S = VerifyRun, R = Report> {
    Ask { question: Q, run: S },
    Done(R),
}

/// A step as contracts speak of it.
pub type RunStepView = RunStep<Question<Seq<char>>, RunView, ReportView>;

impl View for RunStep<Question, VerifyRun, Report> {
    type V = RunStepView;

    open spec fn view(&self) -> RunStepView {
        match self {
            RunStep::Ask { question, run } => RunStep::Ask { question: question@, run: run@ },
            RunStep::Done(report) => RunStep::Done(report@),
        }
    }
}

// ── the run as contracts speak of it ─────────────────────────────────────────

/// What is to be checked: the vendor, the host and port of the HSM, and the mappings
/// from label to key identifier.
pub struct Plan {
    pub vendor: Seq<char>,
    pub hsm: Option<(Seq<char>, u16)>,
    pub mappings: Seq<(Seq<char>, Seq<char>)>,
}

/// A run: what is to be checked, which answer it waits for, and what was found.
pub struct RunView {
    pub plan: Plan,
    pub stage: Stage<Seq<char>>,
    pub scan_error: Option<Seq<char>>,
    pub found: Seq<FindingView>,
}

/// The check of the key `id`, if one of the findings holds it.
pub open spec fn earlier(found: Seq<FindingView>, id: Seq<char>) -> Option<KeyCheck<Seq<char>>>
    decreases found.len(),
{
    if found.len() == 0 {
        None
    } else {
        match earlier(found.drop_last(), id) {
            Some(check) => Some(check),
            None => if found.last().id == id {
                Some(found.last().check)
            } else {
                None
            },
        }
    }
}

impl RunView {
    /// The mapping that is next: its label.
    pub open spec fn label(self) -> Seq<char> {
        self.plan.mappings[self.found.len() as int].0
    }

    /// The mapping that is next: the identifier of its key.
    pub open spec fn id(self) -> Seq<char> {
        self.plan.mappings[self.found.len() as int].1
    }

    /// The report up to the mappings that were found, and whether the HSM is asked.
    pub open spec fn noted(self) -> (ReportView, bool) {
        let (r, active) = verify::probe_setup(
            verify::with_scan(
                verify::with_credentials(verify::empty_report(), Credentials::Resolved),
                self.scan_error,
            ),
            self.plan.vendor,
            self.plan.hsm,
        );
        verify::all_judged(r, active, self.found)
    }

    /// The run with what was found of the mapping that is next.
    pub open spec fn with_finding(
        self,
        check: KeyCheck<Seq<char>>,
        outcome: Option<ProbeOutcome<Seq<char>>>,
    ) -> RunView {
        RunView {
            found: self.found.push(
                Finding { label: self.label(), id: self.id(), check, outcome },
            ),
            ..self
        }
    }

    /// The run at the stage `stage`.
    pub open spec fn at(self, stage: Stage<Seq<char>>) -> RunView {
        RunView { stage, ..self }
    }

    /// The run at its next question about a mapping, or about the files once every
    /// mapping was found. A key that was checked for an earlier mapping is not asked
    /// for again, and only a usable key is asked of the HSM.
    pub open spec fn advanced(self) -> RunView
        decreases self.plan.mappings.len() - self.found.len(),
    {
        if self.found.len() >= self.plan.mappings.len() {
            self.at(Stage::Files)
        } else {
            match earlier(self.found, self.id()) {
                None => self.at(Stage::Key),
                Some(check) => if self.noted().1 && check is Usable {
                    self.at(Stage::Hsm(check))
                } else {
                    self.with_finding(check, None).advanced()
                },
            }
        }
    }

    /// What is to be asked.
    pub open spec fn question(self) -> Question<Seq<char>> {
        match self.stage {
            Stage::Credentials => Question::Credentials,
            Stage::Scan => Question::Scan,
            Stage::Key => Question::Key(self.id()),
            Stage::Hsm(_) => Question::Hsm(self.label()),
            Stage::Files => Question::Files,
        }
    }

    /// The run, waiting for the answer to its question.
    pub open spec fn asking(self) -> RunStepView {
        RunStep::Ask { question: self.question(), run: self }
    }

    /// What the run does with an answer. Without credentials it is over at once. With
    /// the files it is over, and the report is that of all that was found. An answer
    /// to another question is passed over.
    pub open spec fn next(self, event: EventView) -> RunStepView {
        match (self.stage, event) {
            (Stage::Credentials, RunEvent::Credentials(c)) => if c is Resolved {
                self.at(Stage::Scan).asking()
            } else {
                RunStep::Done(verify::with_credentials(verify::empty_report(), c))
            },
            (Stage::Scan, RunEvent::Scanned(error)) => (RunView { scan_error: error, ..self })
                .advanced().asking(),
            (Stage::Key, RunEvent::Key(reply)) => {
                let check = verify::checked(reply);
                if self.noted().1 && check is Usable {
                    self.at(Stage::Hsm(check)).asking()
                } else {
                    self.with_finding(check, None).advanced().asking()
                }
            },
            (Stage::Hsm(check), RunEvent::Hsm(outcome)) => self.with_finding(
                check,
                Some(outcome),
            ).advanced().asking(),
            (Stage::Files, RunEvent::Files { listen, discover }) => RunStep::Done(
                verify::run_report(
                    Credentials::Resolved,
                    self.scan_error,
                    self.plan.vendor,
                    self.plan.hsm,
                    self.found,
                    listen,
                    discover,
                ),
            ),
            _ => self.asking(),
        }
    }

    /// The findings are those of the first mappings, in order, and the stage goes with
    /// how many there are. A key that is asked for was not checked before, and the HSM
    /// is asked of a usable key.
    pub open spec fn sound(self) -> bool {
        let n = self.found.len();
        &&& n <= self.plan.mappings.len()
        &&& forall|i: int|
            0 <= i < n ==> (#[trigger] self.found[i]).label == self.plan.mappings[i].0
                && self.found[i].id == self.plan.mappings[i].1
        &&& match self.stage {
            Stage::Credentials | Stage::Scan => n == 0,
            Stage::Key => n < self.plan.mappings.len() && earlier(self.found, self.id()) is None,
            Stage::Hsm(check) => n < self.plan.mappings.len() && check is Usable,
            Stage::Files => n == self.plan.mappings.len(),
        }
    }
}

/// A run of which nothing was asked yet.
pub open spec fn fresh(plan: Plan) -> RunView {
    RunView { plan, stage: Stage::Credentials, scan_error: None, found: Seq::empty() }
}

/// Where a run stands after the answers `events`.
pub open spec fn after(plan: Plan, events: Seq<EventView>) -> RunStepView
    decreases events.len(),
{
    if events.len() == 0 {
        fresh(plan).asking()
    } else {
        match after(plan, events.drop_last()) {
            RunStep::Ask { run, .. } => run.next(events.last()),
            RunStep::Done(report) => RunStep::Done(report),
        }
    }
}

// ── the run ──────────────────────────────────────────────────────────────────

/// A run of the checks before going live, waiting for an answer.
pub struct VerifyRun {
    vendor: String,
    hsm: Option<(String, u16)>,
    mappings: Vec<(String, String)>,
    stage: Stage,
    scan_error: Option<String>,
    found: Vec<Finding>,
    probe: HsmKcvProbe,
    report: Report,
}

/// The mappings as contracts speak of them.
pub open spec fn mapping_views(mappings: Seq<(String, String)>) -> Seq<(Seq<char>, Seq<char>)> {
    mappings.map_values(|m: (String, String)| (m.0@, m.1@))
}

/// The host and port of the HSM as contracts speak of them.
pub open spec fn address(hsm: Option<(String, u16)>) -> Option<(Seq<char>, u16)> {
    match hsm {
        Some((host, port)) => Some((host@, port)),
        None => None,
    }
}

spec fn finding_views(found: Seq<Finding>) -> Seq<FindingView> {
    found.map_values(|f: Finding| f@)
}

impl View for VerifyRun {
    type V = RunView;

    closed spec fn view(&self) -> RunView {
        RunView {
            plan: Plan {
                vendor: self.vendor@,
                hsm: address(self.hsm),
                mappings: mapping_views(self.mappings@),
            },
            stage: self.stage@,
            scan_error: key_map::maybe(self.scan_error),
            found: finding_views(self.found@),
        }
    }
}

impl VerifyRun {
    /// The report and the probe are those of what was found so far.
    pub closed spec fn in_step(&self) -> bool {
        (self.report@, self.probe@) == match self.stage {
            Stage::Credentials => (verify::empty_report(), false),
            Stage::Scan => (
                verify::with_credentials(verify::empty_report(), Credentials::Resolved),
                false,
            ),
            _ => self@.noted(),
        }
    }

    /// The run is sound, and what it notes goes with it.
    pub open spec fn wf(&self) -> bool {
        self@.sound() && self.in_step()
    }

    /// Begin a run.
    pub fn begin(vendor: String, hsm: Option<(String, u16)>, mappings: Vec<(String, String)>) -> (r:
        RunStep)
        ensures
            r@ == fresh(
                Plan {
                    vendor: vendor@,
                    hsm: address(hsm),
                    mappings: mapping_views(mappings@),
                },
            ).asking(),
            r matches RunStep::Ask { run, .. } && run.wf(),
    {
        let run = VerifyRun {
            vendor,
            hsm,
            mappings,
            stage: Stage::Credentials,
            scan_error: None,
            found: Vec::new(),
            probe: HsmKcvProbe::idle(),
            report: Report::new(),
        };
        assert(run@.found =~= Seq::empty());
        run.ask()
    }

    fn ask(self) -> (r: RunStep)
        requires
            self.wf(),
        ensures
            r@ == self@.asking(),
            r matches RunStep::Ask { run, .. } && run.wf(),
    {
        let n: usize = self.found.len();
        let question: Question = match &self.stage {
            Stage::Credentials => Question::Credentials,
            Stage::Scan => Question::Scan,
            Stage::Key => Question::Key(self.mappings[n].1.clone()),
            Stage::Hsm(_) => Question::Hsm(self.mappings[n].0.clone()),
            Stage::Files => Question::Files,
        };
        RunStep::Ask { question, run: self }
    }

    fn earlier_check(&self, id: &str) -> (r: Option<KeyCheck>)
        ensures
            earlier(self@.found, id@) == match r {
                Some(check) => Some(check@),
                None => None,
            },
    {
        let mut i: usize = 0;
        assert(self@.found.take(0) =~= Seq::empty());
        while i < self.found.len()
            invariant
                i <= self.found@.len(),
                earlier(self@.found.take(i as int), id@) is None,
            decreases self.found@.len() - i,
        {
            proof {
                let next = self@.found.take(i + 1);
                assert(next.drop_last() =~= self@.found.take(i as int));
                assert(next.last() == self.found@[i as int]@);
            }
            if same_text(self.found[i].id.as_str(), id) {
                proof {
                    lemma_earlier_stands(self@.found, i + 1, id@);
                }
                return Some(self.found[i].check.duplicate());
            }
            i = i + 1;
        }
        assert(self@.found.take(i as int) =~= self@.found);
        None
    }

    /// Note what was found of the mapping that is next.
    fn note(&mut self, check: KeyCheck, outcome: Option<ProbeOutcome>)
        requires
            old(self)@.found.len() < old(self)@.plan.mappings.len(),
            (old(self).report@, old(self).probe@) == old(self)@.noted(),
        ensures
            final(self)@ == old(self)@.with_finding(check@, verify::maybe_outcome(outcome)),
            (final(self).report@, final(self).probe@) == final(self)@.noted(),
    {
        let n: usize = self.found.len();
        let label: String = self.mappings[n].0.clone();
        let id: String = self.mappings[n].1.clone();
        let kept: Option<ProbeOutcome> = match &outcome {
            Some(o) => Some(o.duplicate()),
            None => None,
        };
        judge(label.as_str(), id.as_str(), &check, outcome, &mut self.probe, &mut self.report);
        let finding = Finding { label, id, check, outcome: kept };
        self.found.push(finding);
        proof {
            let was = old(self)@.found;
            assert(self@.found =~= was.push(finding@));
            assert(was.push(finding@).drop_last() =~= was);
        }
    }

    /// Go on to the next question about a mapping, or about the files.
    fn advance(self) -> (r: VerifyRun)
        requires
            self@.found.len() <= self@.plan.mappings.len(),
            forall|i: int|
                0 <= i < self@.found.len() ==> (#[trigger] self@.found[i]).label
                    == self@.plan.mappings[i].0 && self@.found[i].id == self@.plan.mappings[i].1,
            (self.report@, self.probe@) == self@.noted(),
        ensures
            r@ == self@.advanced(),
            r.wf(),
    {
        let mut run: VerifyRun = self;
        while run.found.len() < run.mappings.len()
            invariant
                run@.found.len() <= run@.plan.mappings.len(),
                forall|i: int|
                    0 <= i < run@.found.len() ==> (#[trigger] run@.found[i]).label
                        == run@.plan.mappings[i].0 && run@.found[i].id == run@.plan.mappings[i].1,
                (run.report@, run.probe@) == run@.noted(),
                run@.advanced() == self@.advanced(),
            decreases run.mappings@.len() - run.found@.len(),
        {
            let n: usize = run.found.len();
            let known: Option<KeyCheck> = run.earlier_check(run.mappings[n].1.as_str());
            match known {
                None => {
                    run.stage = Stage::Key;
                    return run;
                },
                Some(check) => {
                    if run.probe.wants(&check) {
                        run.stage = Stage::Hsm(check);
                        return run;
                    }
                    run.note(check, None);
                },
            }
        }
        run.stage = Stage::Files;
        run
    }

    /// Go on with an answer.
    pub fn next(self, event: RunEvent) -> (r: RunStep)
        requires
            self.wf(),
        ensures
            r@ == self@.next(event@),
            r matches RunStep::Ask { run, .. } ==> run.wf(),
    {
        let mut run: VerifyRun = self;
        match event {
            RunEvent::Credentials(credentials) => {
                if let Stage::Credentials = run.stage {
                    if !note_credentials(&credentials, &mut run.report) {
                        return RunStep::Done(run.report);
                    }
                    run.stage = Stage::Scan;
                }
                run.ask()
            },
            RunEvent::Scanned(error) => {
                if let Stage::Scan = run.stage {
                    run.scan_error = match &error {
                        Some(e) => Some(e.clone()),
                        None => None,
                    };
                    note_scan(error, &mut run.report);
                    let hsm: Option<(&str, u16)> = match &run.hsm {
                        Some((host, port)) => Some((host.as_str(), *port)),
                        None => None,
                    };
                    run.probe = HsmKcvProbe::from_config(
                        run.vendor.as_str(),
                        hsm,
                        &mut run.report,
                    );
                    return run.advance().ask();
                }
                run.ask()
            },
            RunEvent::Key(reply) => {
                if let Stage::Key = run.stage {
                    let check: KeyCheck = check_one_key(reply);
                    if run.probe.wants(&check) {
                        run.stage = Stage::Hsm(check);
                        return run.ask();
                    }
                    run.note(check, None);
                    return run.advance().ask();
                }
                run.ask()
            },
            RunEvent::Hsm(outcome) => {
                let asked: Option<KeyCheck> = match &run.stage {
                    Stage::Hsm(check) => Some(check.duplicate()),
                    _ => None,
                };
                if let Some(check) = asked {
                    run.note(check, Some(outcome));
                    return run.advance().ask();
                }
                run.ask()
            },
            RunEvent::Files { listen, discover } => {
                if let Stage::Files = run.stage {
                    check_listen_tls(&listen, &mut run.report);
                    check_discover_tls(&discover, &mut run.report);
                    return RunStep::Done(run.report);
                }
                run.ask()
            },
        }
    }
}

proof fn lemma_earlier_stands(found: Seq<FindingView>, n: int, id: Seq<char>)
    requires
        0 <= n <= found.len(),
        earlier(found.take(n), id) is Some,
    ensures
        earlier(found, id) == earlier(found.take(n), id),
    decreases found.len(),
{
    if n == found.len() {
        assert(found.take(n) =~= found);
    } else {
        assert(found.drop_last().take(n) =~= found.take(n));
        lemma_earlier_stands(found.drop_last(), n, id);
    }
}

// ── laws ─────────────────────────────────────────────────────────────────────

/// A run keeps to its plan: whatever is answered, the findings stay those of the first
/// mappings in order, so that no mapping is skipped and none is judged twice.
pub proof fn runs_stay_sound(run: RunView, event: EventView)
    requires
        run.sound(),
    ensures
        run.next(event) matches RunStep::Ask { question, run: then } ==> {
            &&& then.sound()
            &&& then.plan == run.plan
            &&& question == then.question()
        },
{
    match (run.stage, event) {
        (Stage::Scan, RunEvent::Scanned(error)) => {
            lemma_advanced(RunView { scan_error: error, ..run });
        },
        (Stage::Key, RunEvent::Key(reply)) => {
            lemma_advanced(run.with_finding(verify::checked(reply), None));
        },
        (Stage::Hsm(check), RunEvent::Hsm(outcome)) => {
            lemma_advanced(run.with_finding(check, Some(outcome)));
        },
        _ => {},
    }
}

proof fn lemma_advanced(run: RunView)
    requires
        run.found.len() <= run.plan.mappings.len(),
        forall|i: int|
            0 <= i < run.found.len() ==> (#[trigger] run.found[i]).label == run.plan.mappings[i].0
                && run.found[i].id == run.plan.mappings[i].1,
    ensures
        run.advanced().sound(),
        run.advanced().plan == run.plan,
    decreases run.plan.mappings.len() - run.found.len(),
{
    if run.found.len() < run.plan.mappings.len() {
        if let Some(check) = earlier(run.found, run.id()) {
            if !(run.noted().1 && check is Usable) {
                lemma_advanced(run.with_finding(check, None));
            }
        }
    }
}

/// A key is asked for once: no mapping that was judged led to the key of a question.
pub proof fn a_key_is_asked_for_once(run: RunView, i: int)
    requires
        run.sound(),
        run.question() is Key,
        0 <= i < run.found.len(),
    ensures
        run.found[i].id != run.question()->Key_0,
{
    lemma_earlier_finds(run.found, i);
}

proof fn lemma_earlier_finds(found: Seq<FindingView>, i: int)
    requires
        0 <= i < found.len(),
    ensures
        earlier(found, found[i].id) is Some,
    decreases found.len(),
{
    if i < found.len() - 1 {
        lemma_earlier_finds(found.drop_last(), i);
    }
}

/// Wherever a run stands, it is sound and follows its plan.
proof fn lemma_after_is_sound(plan: Plan, events: Seq<EventView>)
    ensures
        after(plan, events) matches RunStep::Ask { question, run } ==> {
            &&& run.sound()
            &&& run.plan == plan
            &&& question == run.question()
        },
    decreases events.len(),
{
    if events.len() > 0 {
        lemma_after_is_sound(plan, events.drop_last());
        if let RunStep::Ask { run, .. } = after(plan, events.drop_last()) {
            runs_stay_sound(run, events.last());
        }
    }
}

/// What a run ends with is either the refusal of its credentials, or the report of a
/// finding for each mapping of the plan.
pub proof fn a_report_is_of_every_mapping(plan: Plan, events: Seq<EventView>)
    requires
        after(plan, events) is Done,
    ensures
        ({
            let report = after(plan, events)->Done_0;
            ||| exists|c: Credentials<Seq<char>>|
                !(c is Resolved) && report == #[trigger] verify::with_credentials(
                    verify::empty_report(),
                    c,
                )
            ||| exists|run: RunView, listen, discover|
                {
                    &&& run.sound()
                    &&& run.plan == plan
                    &&& run.found.len() == plan.mappings.len()
                    &&& report == #[trigger] verify::run_report(
                        Credentials::Resolved,
                        run.scan_error,
                        plan.vendor,
                        plan.hsm,
                        run.found,
                        listen,
                        discover,
                    )
                }
        }),
    decreases events.len(),
{
    let front = events.drop_last();
    match after(plan, front) {
        RunStep::Done(_) => {
            a_report_is_of_every_mapping(plan, front);
        },
        RunStep::Ask { run, .. } => {
            lemma_after_is_sound(plan, front);
        },
    }
}

/// Answer `j` was given to the question for the key `id`, and was `reply`.
pub open spec fn answered(
    plan: Plan,
    events: Seq<EventView>,
    j: int,
    id: Seq<char>,
    reply: KeyReply<Seq<char>>,
) -> bool {
    &&& 0 <= j < events.len()
    &&& after(plan, events.take(j)) matches RunStep::Ask { question, .. } && question
        == Question::Key(id)
    &&& events[j] == EventView::Key(reply)
}

/// The check of the key `id` is that of an answer to the question for it.
pub open spec fn grounded(
    plan: Plan,
    events: Seq<EventView>,
    id: Seq<char>,
    check: KeyCheck<Seq<char>>,
) -> bool {
    exists|j: int, reply: KeyReply<Seq<char>>| #[trigger]
        answered(plan, events, j, id, reply) && check == verify::checked(reply)
}

/// Every check that the run holds is grounded.
spec fn all_grounded(plan: Plan, events: Seq<EventView>, run: RunView) -> bool {
    &&& forall|i: int|
        0 <= i < run.found.len() ==> grounded(
            plan,
            events,
            (#[trigger] run.found[i]).id,
            run.found[i].check,
        )
    &&& run.stage matches Stage::Hsm(check) ==> grounded(plan, events, run.id(), check)
}

proof fn lemma_grounds_last(
    plan: Plan,
    events: Seq<EventView>,
    more: EventView,
    id: Seq<char>,
    check: KeyCheck<Seq<char>>,
)
    requires
        grounded(plan, events, id, check),
    ensures
        grounded(plan, events.push(more), id, check),
{
    let (j, reply) = choose|j: int, reply: KeyReply<Seq<char>>| #[trigger]
        answered(plan, events, j, id, reply) && check == verify::checked(reply);
    assert(events.push(more).take(j) =~= events.take(j));
    assert(answered(plan, events.push(more), j, id, reply));
}

proof fn lemma_earlier_is_grounded(
    plan: Plan,
    events: Seq<EventView>,
    found: Seq<FindingView>,
    id: Seq<char>,
)
    requires
        earlier(found, id) is Some,
        forall|i: int|
            0 <= i < found.len() ==> grounded(
                plan,
                events,
                (#[trigger] found[i]).id,
                found[i].check,
            ),
    ensures
        grounded(plan, events, id, earlier(found, id)->0),
    decreases found.len(),
{
    let front = found.drop_last();
    if earlier(front, id) is Some {
        assert forall|i: int| 0 <= i < front.len() implies grounded(
            plan,
            events,
            (#[trigger] front[i]).id,
            front[i].check,
        ) by {
            assert(front[i] == found[i]);
        }
        lemma_earlier_is_grounded(plan, events, front, id);
    } else {
        assert(found[found.len() - 1].id == id);
    }
}

proof fn lemma_advanced_is_grounded(plan: Plan, events: Seq<EventView>, run: RunView)
    requires
        forall|i: int|
            0 <= i < run.found.len() ==> grounded(
                plan,
                events,
                (#[trigger] run.found[i]).id,
                run.found[i].check,
            ),
    ensures
        all_grounded(plan, events, run.advanced()),
    decreases run.plan.mappings.len() - run.found.len(),
{
    if run.found.len() < run.plan.mappings.len() {
        if let Some(check) = earlier(run.found, run.id()) {
            lemma_earlier_is_grounded(plan, events, run.found, run.id());
            if !(run.noted().1 && check is Usable) {
                lemma_advanced_is_grounded(plan, events, run.with_finding(check, None));
            }
        }
    }
}

proof fn lemma_after_is_grounded(plan: Plan, events: Seq<EventView>)
    ensures
        after(plan, events) matches RunStep::Ask { run, .. } ==> all_grounded(plan, events, run),
    decreases events.len(),
{
    if events.len() > 0 {
        let front = events.drop_last();
        let event = events.last();
        lemma_after_is_grounded(plan, front);
        lemma_after_is_sound(plan, front);
        assert(front.push(event) =~= events);
        if let RunStep::Ask { question, run } = after(plan, front) {
            assert forall|i: int| 0 <= i < run.found.len() implies grounded(
                plan,
                events,
                (#[trigger] run.found[i]).id,
                run.found[i].check,
            ) by {
                lemma_grounds_last(plan, front, event, run.found[i].id, run.found[i].check);
            }
            match (run.stage, event) {
                (Stage::Scan, RunEvent::Scanned(error)) => {
                    lemma_advanced_is_grounded(
                        plan,
                        events,
                        RunView { scan_error: error, ..run },
                    );
                },
                (Stage::Key, RunEvent::Key(reply)) => {
                    assert(events.take(events.len() - 1) =~= front);
                    assert(answered(plan, events, events.len() - 1, run.id(), reply));
                    lemma_advanced_is_grounded(
                        plan,
                        events,
                        run.with_finding(verify::checked(reply), None),
                    );
                },
                (Stage::Hsm(check), RunEvent::Hsm(outcome)) => {
                    lemma_grounds_last(plan, front, event, run.id(), check);
                    lemma_advanced_is_grounded(
                        plan,
                        events,
                        run.with_finding(check, Some(outcome)),
                    );
                },
                (Stage::Hsm(check), _) => {
                    lemma_grounds_last(plan, front, event, run.id(), check);
                },
                _ => {},
            }
        }
    }
}

/// A run that passes has seen every key: for each mapping APC was asked for the key,
/// and answered that it is complete and enabled.
pub proof fn a_passing_run_has_seen_every_key(plan: Plan, events: Seq<EventView>, i: int)
    requires
        after(plan, events) matches RunStep::Done(report) && report.clean(),
        0 <= i < plan.mappings.len(),
    ensures
        exists|j: int, reply: KeyReply<Seq<char>>|
            {
                &&& #[trigger] answered(plan, events, j, plan.mappings[i].1, reply)
                &&& reply matches KeyReply::Key(k)
                &&& k.state == "CREATE_COMPLETE"@
                &&& k.enabled
            },
    decreases events.len(),
{
    let front = events.drop_last();
    let event = events.last();
    assert(front.push(event) =~= events);
    match after(plan, front) {
        RunStep::Done(_) => {
            a_passing_run_has_seen_every_key(plan, front, i);
            let (j, reply) = choose|j: int, reply: KeyReply<Seq<char>>|
                {
                    &&& #[trigger] answered(plan, front, j, plan.mappings[i].1, reply)
                    &&& reply matches KeyReply::Key(k)
                    &&& k.state == "CREATE_COMPLETE"@
                    &&& k.enabled
                };
            assert(events.take(j) =~= front.take(j));
            assert(answered(plan, events, j, plan.mappings[i].1, reply));
        },
        RunStep::Ask { run, .. } => {
            lemma_after_is_sound(plan, front);
            lemma_after_is_grounded(plan, front);
            if let RunEvent::Files { listen, discover } = event {
                verify::a_run_passes_when_everything_is_ready(
                    Credentials::Resolved,
                    run.scan_error,
                    plan.vendor,
                    plan.hsm,
                    run.found,
                    listen,
                    discover,
                );
                let f = run.found[i];
                assert(f.good());
                lemma_grounds_last(plan, front, event, f.id, f.check);
                let (j, reply) = choose|j: int, reply: KeyReply<Seq<char>>| #[trigger]
                    answered(plan, events, j, f.id, reply) && f.check == verify::checked(reply);
                verify::usable_keys_are_complete_and_enabled(reply);
                assert(answered(plan, events, j, plan.mappings[i].1, reply));
            }
        },
    }
}

/// The HSM was asked about finding `i` if and only if its key is usable and the HSM was still
/// being asked when the run came to it.
pub open spec fn hsm_asked_rightly(run: RunView, i: int) -> bool {
    let active = (RunView { found: run.found.take(i), ..run }).noted().1;
    run.found[i].outcome is Some <==> run.found[i].check is Usable && active
}

/// The HSM is asked about every usable key, and about no other, until it proves to be out of reach
/// or to refuse the command; and never where none is configured or the vendor is not payShield.
pub proof fn the_hsm_is_asked_about_usable_keys(plan: Plan, events: Seq<EventView>)
    ensures
        after(plan, events) matches RunStep::Ask { run, .. } ==> forall|i: int|
            0 <= i < run.found.len() ==> #[trigger] hsm_asked_rightly(run, i),
        plan.hsm is None || plan.vendor != "thales_payshield"@ ==> (after(
            plan,
            events,
        ) matches RunStep::Ask { question, .. } ==> !(question is Hsm)),
    decreases events.len(),
{
    lemma_after_is_sound(plan, events);
    if events.len() > 0 {
        let front = events.drop_last();
        the_hsm_is_asked_about_usable_keys(plan, front);
        lemma_after_is_sound(plan, front);
        lemma_hsm_stage(plan, front);
        if let RunStep::Ask { run, .. } = after(plan, front) {
            match (run.stage, events.last()) {
                (Stage::Scan, RunEvent::Scanned(error)) => {
                    lemma_advanced_asks_rightly(RunView { scan_error: error, ..run });
                },
                (Stage::Key, RunEvent::Key(reply)) => {
                    let check = verify::checked(reply);
                    if !(run.noted().1 && check is Usable) {
                        lemma_finding_asks_rightly(run, check, None);
                        lemma_advanced_asks_rightly(run.with_finding(check, None));
                    } else {
                        lemma_stage_keeps_asking(run, Stage::Hsm(check));
                    }
                },
                (Stage::Hsm(check), RunEvent::Hsm(outcome)) => {
                    lemma_finding_asks_rightly(run, check, Some(outcome));
                    lemma_advanced_asks_rightly(run.with_finding(check, Some(outcome)));
                },
                _ => {},
            }
        }
    }
    if let RunStep::Ask { run, .. } = after(plan, events) {
        lemma_hsm_stage(plan, events);
        if plan.hsm is None || plan.vendor != "thales_payshield"@ {
            lemma_never_active(run);
        }
    }
}

proof fn lemma_stage_keeps_asking(run: RunView, stage: Stage<Seq<char>>)
    requires
        forall|i: int| 0 <= i < run.found.len() ==> #[trigger] hsm_asked_rightly(run, i),
    ensures
        forall|i: int|
            0 <= i < run.found.len() ==> #[trigger] hsm_asked_rightly(run.at(stage), i),
{
    assert forall|i: int| 0 <= i < run.found.len() implies #[trigger] hsm_asked_rightly(
        run.at(stage),
        i,
    ) by {
        assert(hsm_asked_rightly(run, i));
    }
}

proof fn lemma_finding_asks_rightly(
    run: RunView,
    check: KeyCheck<Seq<char>>,
    outcome: Option<ProbeOutcome<Seq<char>>>,
)
    requires
        forall|i: int| 0 <= i < run.found.len() ==> #[trigger] hsm_asked_rightly(run, i),
        outcome is Some <==> check is Usable && run.noted().1,
    ensures
        ({
            let next = run.with_finding(check, outcome);
            forall|i: int| 0 <= i < next.found.len() ==> #[trigger] hsm_asked_rightly(next, i)
        }),
{
    let next = run.with_finding(check, outcome);
    let n = run.found.len() as int;
    assert forall|i: int| 0 <= i < next.found.len() implies #[trigger] hsm_asked_rightly(
        next,
        i,
    ) by {
        assert(next.found.take(i) =~= run.found.take(i));
        if i < n {
            assert(hsm_asked_rightly(run, i));
        } else {
            assert(run.found.take(n) =~= run.found);
        }
    }
}

proof fn lemma_advanced_asks_rightly(run: RunView)
    requires
        forall|i: int| 0 <= i < run.found.len() ==> #[trigger] hsm_asked_rightly(run, i),
    ensures
        ({
            let next = run.advanced();
            forall|i: int| 0 <= i < next.found.len() ==> #[trigger] hsm_asked_rightly(next, i)
        }),
    decreases run.plan.mappings.len() - run.found.len(),
{
    if run.found.len() >= run.plan.mappings.len() {
        lemma_stage_keeps_asking(run, Stage::Files);
    } else {
        match earlier(run.found, run.id()) {
            None => {
                lemma_stage_keeps_asking(run, Stage::Key);
            },
            Some(check) => {
                if run.noted().1 && check is Usable {
                    lemma_stage_keeps_asking(run, Stage::Hsm(check));
                } else {
                    lemma_finding_asks_rightly(run, check, None);
                    lemma_advanced_asks_rightly(run.with_finding(check, None));
                }
            },
        }
    }
}

/// A run that waits for the HSM is still asking it.
proof fn lemma_hsm_stage(plan: Plan, events: Seq<EventView>)
    ensures
        after(plan, events) matches RunStep::Ask { run, .. } ==> (run.stage is Hsm ==> run.noted().1
            && run.stage->Hsm_0 is Usable),
    decreases events.len(),
{
    if events.len() > 0 {
        let front = events.drop_last();
        lemma_hsm_stage(plan, front);
        if let RunStep::Ask { run, .. } = after(plan, front) {
            match (run.stage, events.last()) {
                (Stage::Scan, RunEvent::Scanned(error)) => {
                    lemma_advanced_hsm_stage(RunView { scan_error: error, ..run });
                },
                (Stage::Key, RunEvent::Key(reply)) => {
                    lemma_advanced_hsm_stage(run.with_finding(verify::checked(reply), None));
                },
                (Stage::Hsm(check), RunEvent::Hsm(outcome)) => {
                    lemma_advanced_hsm_stage(run.with_finding(check, Some(outcome)));
                },
                _ => {},
            }
        }
    }
}

proof fn lemma_advanced_hsm_stage(run: RunView)
    ensures
        run.advanced().stage is Hsm ==> run.advanced().noted().1 && run.advanced().stage->Hsm_0
            is Usable,
    decreases run.plan.mappings.len() - run.found.len(),
{
    if run.found.len() < run.plan.mappings.len() {
        if let Some(check) = earlier(run.found, run.id()) {
            if !(run.noted().1 && check is Usable) {
                lemma_advanced_hsm_stage(run.with_finding(check, None));
            }
        }
    }
}

proof fn lemma_never_active(run: RunView)
    requires
        run.plan.hsm is None || run.plan.vendor != "thales_payshield"@,
    ensures
        !run.noted().1,
{
    let r = verify::with_scan(
        verify::with_credentials(verify::empty_report(), Credentials::Resolved),
        run.scan_error,
    );
    lemma_stays_inactive(verify::probe_setup(r, run.plan.vendor, run.plan.hsm).0, run.found);
}

proof fn lemma_stays_inactive(r: ReportView, found: Seq<FindingView>)
    ensures
        !verify::all_judged(r, false, found).1,
    decreases found.len(),
{
    if found.len() > 0 {
        lemma_stays_inactive(r, found.drop_last());
    }
}

/// A run goes through its questions in order: the credentials, the scan, the mappings, the files;
/// and it ends only with a refusal of the credentials or with the files.
pub proof fn a_run_asks_in_order(run: RunView, event: EventView)
    ensures
        run.stage is Credentials && event is Credentials ==> match run.next(event) {
            RunStep::Done(_) => !(event->Credentials_0 is Resolved),
            RunStep::Ask { question, .. } => event->Credentials_0 is Resolved && question is Scan,
        },
        run.stage is Scan && event is Scanned ==> (run.next(event) matches RunStep::Ask {
            question,
            ..
        } && (question is Key || question is Hsm || question is Files)),
        run.next(event) is Done ==> run.stage is Credentials && event is Credentials
            || run.stage is Files && event is Files,
        run.stage is Files && event is Files ==> run.next(event) is Done,
        run.stage is Key && !(event is Key) ==> run.next(event) == run.asking(),
        run.stage is Hsm && !(event is Hsm) ==> run.next(event) == run.asking(),
{
    if run.stage is Scan && event is Scanned {
        lemma_advanced_asks(RunView { scan_error: event->Scanned_0, ..run });
    }
}

proof fn lemma_advanced_asks(run: RunView)
    ensures
        run.advanced().stage is Key || run.advanced().stage is Hsm || run.advanced().stage is Files,
    decreases run.plan.mappings.len() - run.found.len(),
{
    if run.found.len() < run.plan.mappings.len() {
        if let Some(check) = earlier(run.found, run.id()) {
            if !(run.noted().1 && check is Usable) {
                lemma_advanced_asks(run.with_finding(check, None));
            }
        }
    }
}

} // verus!
