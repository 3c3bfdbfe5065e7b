//! Checks before going live: whether a configuration is consistent, and whether
//! every key mapping leads to a usable key.

use vstd::prelude::*;
use vstd::string::*;

#[allow(unused_imports)]
use crate::hsm_probe;
use crate::hsm_probe::{kcv_matches, ProbeOutcome};
#[allow(unused_imports)]
use crate::key_map;
#[allow(unused_imports)]
use crate::text;
use crate::text::{
    after_last, decimal_text, owned, pad_end_text, same_text, text_begins_with, text_contains,
};

verus! {

// ── the report ───────────────────────────────────────────────────────────────

/// What was found. The type parameter is how the lines are held; in contracts they
/// are sequences.
pub struct Report<L = Vec<String>> {
    pub ok: L,
    pub warnings: L,
    pub errors: L,
}

/// A report as contracts speak of it.
pub type ReportView = Report<Seq<Seq<char>>>;

impl View for Report<Vec<String>> {
    type V = ReportView;

    open spec fn view(&self) -> ReportView {
        Report {
            ok: text::views(self.ok@),
            warnings: text::views(self.warnings@),
            errors: text::views(self.errors@),
        }
    }
}

impl Report<Seq<Seq<char>>> {
    /// The report with a line that something is in order.
    pub open spec fn passed(self, line: Seq<char>) -> ReportView {
        Report { ok: self.ok.push(line), ..self }
    }

    /// The report with a warning.
    pub open spec fn warned(self, line: Seq<char>) -> ReportView {
        Report { warnings: self.warnings.push(line), ..self }
    }

    /// The report with an error.
    pub open spec fn failed(self, line: Seq<char>) -> ReportView {
        Report { errors: self.errors.push(line), ..self }
    }

    /// There is no error.
    pub open spec fn clean(self) -> bool {
        self.errors.len() == 0
    }
}

/// A report without a line.
pub open spec fn empty_report() -> ReportView {
    Report { ok: Seq::empty(), warnings: Seq::empty(), errors: Seq::empty() }
}

impl Report<Vec<String>> {
    /// An empty report.
    pub fn new() -> (r: Report)
        ensures
            r@ == empty_report(),
    {
        let r: Report = Report { ok: Vec::new(), warnings: Vec::new(), errors: Vec::new() };
        assert(r@.ok =~= Seq::empty());
        assert(r@.warnings =~= Seq::empty());
        assert(r@.errors =~= Seq::empty());
        r
    }

    /// Note that something is in order.
    pub fn pass(&mut self, line: String)
        ensures
            final(self)@ == old(self)@.passed(line@),
    {
        self.ok.push(line);
        assert(self@.ok =~= old(self)@.ok.push(line@));
    }

    /// Note a warning.
    pub fn warn(&mut self, line: String)
        ensures
            final(self)@ == old(self)@.warned(line@),
    {
        self.warnings.push(line);
        assert(self@.warnings =~= old(self)@.warnings.push(line@));
    }

    /// Note an error.
    pub fn fail(&mut self, line: String)
        ensures
            final(self)@ == old(self)@.failed(line@),
    {
        self.errors.push(line);
        assert(self@.errors =~= old(self)@.errors.push(line@));
    }

    /// Whether there is no error.
    pub fn is_clean(&self) -> (r: bool)
        ensures
            r == self@.clean(),
    {
        self.errors.len() == 0
    }
}

/// `lines`, each with `mark` in front.
pub open spec fn marked(mark: Seq<char>, lines: Seq<Seq<char>>) -> Seq<Seq<char>> {
    lines.map_values(|l: Seq<char>| mark + l)
}

/// The rule between the parts of the output.
pub const RULE: &'static str = "─────────────────────────────────────────────────────────────";

/// A report as it is printed: the lines, each marked with what it is; a rule; the
/// counts; and the verdict.
pub open spec fn printed(r: ReportView) -> Seq<Seq<char>> {
    marked("  ok    "@, r.ok) + marked("  warn  "@, r.warnings) + marked("  FAIL  "@, r.errors)
        + seq![
        RULE@,
        text::decimal(r.ok.len()) + " ok, "@ + text::decimal(r.warnings.len()) + " warning(s), "@
            + text::decimal(r.errors.len()) + " error(s)"@,
        if r.clean() {
            "Verification PASSED — config is ready to serve."@
        } else {
            "Verification FAILED — fix errors before starting the proxy."@
        },
    ]
}

fn add_marked(out: &mut Vec<String>, mark: &str, lines: &Vec<String>)
    ensures
        text::views(final(out)@) == text::views(old(out)@) + marked(mark@, text::views(lines@)),
{
    let mut i: usize = 0;
    let ghost start = text::views(out@);
    let ghost all = marked(mark@, text::views(lines@));
    assert(start + all.take(0) =~= start);
    while i < lines.len()
        invariant
            i <= lines@.len(),
            all == marked(mark@, text::views(lines@)),
            text::views(out@) == start + all.take(i as int),
        decreases lines@.len() - i,
    {
        let line: String = owned(mark).concat(lines[i].as_str());
        let ghost before = text::views(out@);
        out.push(line);
        proof {
            assert(all[i as int] == line@);
            assert(text::views(out@) =~= before.push(line@));
            assert(all.take(i + 1) =~= all.take(i as int).push(line@));
            assert(text::views(out@) =~= start + all.take(i + 1));
        }
        i = i + 1;
    }
    assert(all.take(i as int) =~= all);
}

/// The lines in which a report is printed.
pub fn report_lines(report: &Report) -> (r: Vec<String>)
    ensures
        text::views(r@) == printed(report@),
{
    let mut out: Vec<String> = Vec::new();
    assert(text::views(out@) =~= Seq::empty());
    add_marked(&mut out, "  ok    ", &report.ok);
    add_marked(&mut out, "  warn  ", &report.warnings);
    add_marked(&mut out, "  FAIL  ", &report.errors);
    out.push(owned(RULE));
    out.push(
        decimal_text(report.ok.len() as u128).concat(" ok, ").concat(
            decimal_text(report.warnings.len() as u128).as_str(),
        ).concat(" warning(s), ").concat(
            decimal_text(report.errors.len() as u128).as_str(),
        ).concat(" error(s)"),
    );
    out.push(
        if report.is_clean() {
            owned("Verification PASSED — config is ready to serve.")
        } else {
            owned("Verification FAILED — fix errors before starting the proxy.")
        },
    );
    assert(text::views(out@) =~= printed(report@));
    out
}

// ── one key ──────────────────────────────────────────────────────────────────

/// What APC says of a key. The type parameter is the text of the fields.
pub struct KeyFacts<T = String> {
    pub state: T,
    pub enabled: bool,
    pub kcv: T,
    /// Usage and algorithm.
    pub attributes: Option<(T, T)>,
}

/// The reply of APC to a question for a key.
pub enum KeyReply<T = String> {
    Key(KeyFacts<T>),
    /// A reply without a key.
    NoKey,
    /// The error text.
    Failed(T),
}

/// What became of a key.
pub enum KeyCheck<T = String> {
    Usable { kcv: T, usage: T, algo: T },
    NotFound,
    Disabled,
    WrongState(T),
    ApiError(T),
}

impl View for KeyReply<String> {
    type V = KeyReply<Seq<char>>;

    open spec fn view(&self) -> KeyReply<Seq<char>> {
        match self {
            KeyReply::Key(k) => KeyReply::Key(
                KeyFacts {
                    state: k.state@,
                    enabled: k.enabled,
                    kcv: k.kcv@,
                    attributes: match k.attributes {
                        Some((u, a)) => Some((u@, a@)),
                        None => None,
                    },
                },
            ),
            KeyReply::NoKey => KeyReply::NoKey,
            KeyReply::Failed(e) => KeyReply::Failed(e@),
        }
    }
}

impl View for KeyCheck<String> {
    type V = KeyCheck<Seq<char>>;

    open spec fn view(&self) -> KeyCheck<Seq<char>> {
        match self {
            KeyCheck::Usable { kcv, usage, algo } => KeyCheck::Usable {
                kcv: kcv@,
                usage: usage@,
                algo: algo@,
            },
            KeyCheck::NotFound => KeyCheck::NotFound,
            KeyCheck::Disabled => KeyCheck::Disabled,
            KeyCheck::WrongState(s) => KeyCheck::WrongState(s@),
            KeyCheck::ApiError(e) => KeyCheck::ApiError(e@),
        }
    }
}

impl KeyCheck<String> {
    /// Another copy of what became of a key.
    pub fn duplicate(&self) -> (r: KeyCheck)
        ensures
            r@ == self@,
    {
        match self {
            KeyCheck::Usable { kcv, usage, algo } => KeyCheck::Usable {
                kcv: kcv.clone(),
                usage: usage.clone(),
                algo: algo.clone(),
            },
            KeyCheck::NotFound => KeyCheck::NotFound,
            KeyCheck::Disabled => KeyCheck::Disabled,
            KeyCheck::WrongState(s) => KeyCheck::WrongState(s.clone()),
            KeyCheck::ApiError(e) => KeyCheck::ApiError(e.clone()),
        }
    }
}

/// A key is usable if its creation is complete, it is enabled, and APC tells its
/// usage and algorithm.
pub open spec fn checked(reply: KeyReply<Seq<char>>) -> KeyCheck<Seq<char>> {
    match reply {
        KeyReply::NoKey => KeyCheck::ApiError("get_key returned no Key field"@),
        KeyReply::Failed(e) => if text::contains(e, "ResourceNotFoundException"@) {
            KeyCheck::NotFound
        } else {
            KeyCheck::ApiError(e)
        },
        KeyReply::Key(k) => if k.state != "CREATE_COMPLETE"@ {
            KeyCheck::WrongState(k.state)
        } else if !k.enabled {
            KeyCheck::Disabled
        } else {
            match k.attributes {
                None => KeyCheck::ApiError("get_key returned no KeyAttributes"@),
                Some((usage, algo)) => KeyCheck::Usable { kcv: k.kcv, usage, algo },
            }
        },
    }
}

/// Judge the reply of APC to a question for a key.
pub fn check_one_key(reply: KeyReply) -> (r: KeyCheck)
    ensures
        r@ == checked(reply@),
{
    match reply {
        KeyReply::NoKey => KeyCheck::ApiError(owned("get_key returned no Key field")),
        KeyReply::Failed(e) => if text_contains(e.as_str(), "ResourceNotFoundException") {
            KeyCheck::NotFound
        } else {
            KeyCheck::ApiError(e)
        },
        KeyReply::Key(k) => if !same_text(k.state.as_str(), "CREATE_COMPLETE") {
            KeyCheck::WrongState(k.state)
        } else if !k.enabled {
            KeyCheck::Disabled
        } else {
            match k.attributes {
                None => KeyCheck::ApiError(owned("get_key returned no KeyAttributes")),
                Some((usage, algo)) => KeyCheck::Usable { kcv: k.kcv, usage, algo },
            }
        },
    }
}

/// A key identifier in short: what follows the last colon of an APC ARN.
pub open spec fn shortened(id: Seq<char>) -> Seq<char> {
    let prefix = "arn:aws:payment-cryptography:"@;
    let rest = id.skip(prefix.len() as int);
    if text::begins_with(id, prefix) && text::last_index(rest, ':') >= 0 {
        rest.skip(text::last_index(rest, ':') + 1)
    } else {
        id
    }
}

/// A key identifier in short.
pub fn short(arn_or_alias: &str) -> (r: String)
    ensures
        r@ == shortened(arn_or_alias@),
{
    let prefix: &str = "arn:aws:payment-cryptography:";
    if !text_begins_with(arn_or_alias, prefix) {
        return owned(arn_or_alias);
    }
    let n: usize = arn_or_alias.unicode_len();
    let rest: &str = arn_or_alias.substring_char(prefix.unicode_len(), n);
    assert(rest@ =~= arn_or_alias@.skip(prefix@.len() as int));
    let at: usize = after_last(rest, ':');
    if at == 0 {
        return owned(arn_or_alias);
    }
    let r: String = owned(rest.substring_char(at, rest.unicode_len()));
    assert(r@ =~= rest@.skip(at as int));
    r
}

// ── one mapping ──────────────────────────────────────────────────────────────

/// Whether the HSM is asked for check values. It stops being asked for the rest of
/// the run once it proves to be out of reach or to refuse the command.
pub struct HsmKcvProbe {
    active: bool,
}

impl View for HsmKcvProbe {
    type V = bool;

    closed spec fn view(&self) -> bool {
        self.active
    }
}

/// What is noted of the HSM at the start, and whether it is asked.
pub open spec fn probe_setup(
    r: ReportView,
    vendor: Seq<char>,
    hsm: Option<(Seq<char>, u16)>,
) -> (ReportView, bool) {
    match hsm {
        Some((host, port)) => if vendor == "thales_payshield"@ {
            (
                r.passed(
                    "HSM-side KCV cross-check enabled against "@ + host + ":"@ + text::decimal(
                        port as nat,
                    ) + " (BU probe)"@,
                ),
                true,
            )
        } else if vendor == "futurex_excrypt"@ {
            (
                r.warned(
                    "HSM-side KCV cross-check is gated for Futurex: the GPKR field layout is not verified against any available Excrypt reference — see the hsm_probe module docs and #13"@,
                ),
                false,
            )
        } else {
            (r, false)
        },
        None => (r, false),
    }
}

/// The host and port of the HSM, as contracts speak of them.
pub open spec fn hsm_view(hsm: Option<(&str, u16)>) -> Option<(Seq<char>, u16)> {
    match hsm {
        Some((host, port)) => Some((host@, port)),
        None => None,
    }
}

impl HsmKcvProbe {
    /// The HSM is not asked.
    pub fn idle() -> (r: HsmKcvProbe)
        ensures
            !r@,
    {
        HsmKcvProbe { active: false }
    }

    /// Set up the questions to the HSM from the configured vendor and the host and
    /// port of the HSM, if there is one.
    pub fn from_config(vendor: &str, hsm: Option<(&str, u16)>, report: &mut Report) -> (r:
        HsmKcvProbe)
        ensures
            (final(report)@, r@) == probe_setup(old(report)@, vendor@, hsm_view(hsm)),
    {
        match hsm {
            Some((host, port)) => {
                if same_text(vendor, "thales_payshield") {
                    report.pass(
                        owned("HSM-side KCV cross-check enabled against ").concat(host).concat(
                            ":",
                        ).concat(decimal_text(port as u128).as_str()).concat(" (BU probe)"),
                    );
                    HsmKcvProbe { active: true }
                } else if same_text(vendor, "futurex_excrypt") {
                    report.warn(
                        owned(
                            "HSM-side KCV cross-check is gated for Futurex: the GPKR field layout is not verified against any available Excrypt reference — see the hsm_probe module docs and #13",
                        ),
                    );
                    HsmKcvProbe { active: false }
                } else {
                    HsmKcvProbe { active: false }
                }
            },
            None => HsmKcvProbe { active: false },
        }
    }

    /// Whether the HSM is asked for the check value of a key: only while it is asked
    /// at all, and only of a key that is usable.
    pub fn wants(&self, check: &KeyCheck) -> (r: bool)
        ensures
            r == (self@ && check is Usable),
    {
        match check {
            KeyCheck::Usable { .. } => self.active,
            _ => false,
        }
    }

    /// Stop asking the HSM, with a warning why.
    pub fn stop(&mut self, why: &str, report: &mut Report)
        ensures
            !final(self)@,
            final(report)@ == old(report)@.warned(why@),
    {
        self.active = false;
        report.warn(owned(why));
    }
}

/// The label of a mapping, filled up to a column of 36 characters, and what it is
/// mapped to in short.
pub open spec fn mapping(label: Seq<char>, id: Seq<char>) -> Seq<char> {
    text::pad_end(label, ' ', 36) + " → "@ + shortened(id)
}

/// The line of a usable key, without its end.
pub open spec fn usable(
    label: Seq<char>,
    id: Seq<char>,
    kcv: Seq<char>,
    usage: Seq<char>,
    algo: Seq<char>,
) -> Seq<char> {
    mapping(label, id) + " ("@ + usage + "/"@ + algo + ", KCV="@ + kcv
}

/// What is noted of a mapping whose key was checked and, if it is usable and the
/// HSM is asked, whose check value was asked for; and whether the HSM is asked from
/// then on.
pub open spec fn judged(
    r: ReportView,
    active: bool,
    label: Seq<char>,
    id: Seq<char>,
    check: KeyCheck<Seq<char>>,
    outcome: Option<ProbeOutcome<Seq<char>>>,
) -> (ReportView, bool) {
    match check {
        KeyCheck::NotFound => (r.failed(mapping(label, id) + " NOT FOUND in APC"@), active),
        KeyCheck::Disabled => (r.failed(mapping(label, id) + " DISABLED"@), active),
        KeyCheck::WrongState(state) => (
            r.failed(
                mapping(label, id) + " state="@ + state + " (must be CREATE_COMPLETE)"@,
            ),
            active,
        ),
        KeyCheck::ApiError(e) => (
            r.failed(mapping(label, id) + " APC error: "@ + e),
            active,
        ),
        KeyCheck::Usable { kcv, usage, algo } => {
            let base = usable(label, id, kcv, usage, algo);
            match outcome {
                None => (r.passed(base + ")"@), active),
                Some(ProbeOutcome::Kcv(h)) => if hsm_probe::agree(kcv, h) {
                    (r.passed(base + ", HSM="@ + h + " ✓)"@), active)
                } else {
                    (
                        r.failed(
                            mapping(label, id) + " APC KCV="@ + kcv + ", HSM KCV="@ + h
                                + " — KEY MISMATCH"@,
                        ),
                        active,
                    )
                },
                Some(ProbeOutcome::UnsupportedForm) => (
                    r.warned(
                        base
                            + ", HSM: not probeable — mapping key is not an LMK-encrypted wire form)"@,
                    ),
                    active,
                ),
                Some(ProbeOutcome::KeyTypeUnknown) => (
                    r.warned(
                        base
                            + ", HSM: BU rejected all blind-probeable key types (ZPK/TMK-TPK-PVK/TAK/ZMK))"@,
                    ),
                    active,
                ),
                Some(ProbeOutcome::HsmError(e)) => (
                    r.warned(base + ", HSM probe error: "@ + e + ")"@),
                    active,
                ),
                Some(ProbeOutcome::CommandDisabled) => (
                    r.warned(
                        "HSM refused BU (error 68 — command disabled by security settings) — skipping HSM-side KCV checks"@,
                    ).passed(base + ")"@),
                    false,
                ),
                Some(ProbeOutcome::Unreachable(e)) => (
                    r.warned(
                        "HSM unreachable — skipping HSM-side KCV checks: "@ + e,
                    ).passed(base + ")"@),
                    false,
                ),
            }
        },
    }
}

/// An outcome that may be missing, as contracts speak of it.
pub open spec fn maybe_outcome(o: Option<ProbeOutcome>) -> Option<ProbeOutcome<Seq<char>>> {
    match o {
        Some(o) => Some(o@),
        None => None,
    }
}

fn mapping_text(label: &str, id: &str) -> (r: String)
    ensures
        r@ == mapping(label@, id@),
{
    pad_end_text(label, ' ', 36).concat(" → ").concat(short(id).as_str())
}

/// Note what was found of a mapping.
pub fn judge(
    label: &str,
    id: &str,
    check: &KeyCheck,
    outcome: Option<ProbeOutcome>,
    probe: &mut HsmKcvProbe,
    report: &mut Report,
)
    ensures
        (final(report)@, final(probe)@) == judged(
            old(report)@,
            old(probe)@,
            label@,
            id@,
            check@,
            maybe_outcome(outcome),
        ),
{
    let name: String = mapping_text(label, id);
    match check {
        KeyCheck::NotFound => {
            report.fail(name.concat(" NOT FOUND in APC"));
        },
        KeyCheck::Disabled => {
            report.fail(name.concat(" DISABLED"));
        },
        KeyCheck::WrongState(state) => {
            report.fail(
                name.concat(" state=").concat(state.as_str()).concat(
                    " (must be CREATE_COMPLETE)",
                ),
            );
        },
        KeyCheck::ApiError(e) => {
            report.fail(name.concat(" APC error: ").concat(e.as_str()));
        },
        KeyCheck::Usable { kcv, usage, algo } => {
            let base: String = owned(name.as_str()).concat(" (").concat(usage.as_str()).concat(
                "/",
            ).concat(algo.as_str()).concat(", KCV=").concat(kcv.as_str());
            match outcome {
                None => {
                    report.pass(base.concat(")"));
                },
                Some(ProbeOutcome::Kcv(h)) => {
                    if kcv_matches(kcv.as_str(), h.as_str()) {
                        report.pass(base.concat(", HSM=").concat(h.as_str()).concat(" ✓)"));
                    } else {
                        report.fail(
                            name.concat(" APC KCV=").concat(kcv.as_str()).concat(
                                ", HSM KCV=",
                            ).concat(h.as_str()).concat(" — KEY MISMATCH"),
                        );
                    }
                },
                Some(ProbeOutcome::UnsupportedForm) => {
                    report.warn(
                        base.concat(
                            ", HSM: not probeable — mapping key is not an LMK-encrypted wire form)",
                        ),
                    );
                },
                Some(ProbeOutcome::KeyTypeUnknown) => {
                    report.warn(
                        base.concat(
                            ", HSM: BU rejected all blind-probeable key types (ZPK/TMK-TPK-PVK/TAK/ZMK))",
                        ),
                    );
                },
                Some(ProbeOutcome::HsmError(e)) => {
                    report.warn(base.concat(", HSM probe error: ").concat(e.as_str()).concat(")"));
                },
                Some(ProbeOutcome::CommandDisabled) => {
                    probe.stop(
                        "HSM refused BU (error 68 — command disabled by security settings) — skipping HSM-side KCV checks",
                        report,
                    );
                    report.pass(base.concat(")"));
                },
                Some(ProbeOutcome::Unreachable(e)) => {
                    probe.stop(
                        owned("HSM unreachable — skipping HSM-side KCV checks: ").concat(
                            e.as_str(),
                        ).as_str(),
                        report,
                    );
                    report.pass(base.concat(")"));
                },
            }
        },
    }
}

// ── the rest of the configuration ────────────────────────────────────────────

/// What is noted of the AWS credentials: whether there is a provider of them, and
/// whether it gives any.
pub enum Credentials<T = String> {
    NoProvider,
    Refused(T),
    Resolved,
}

impl View for Credentials<String> {
    type V = Credentials<Seq<char>>;

    open spec fn view(&self) -> Credentials<Seq<char>> {
        match self {
            Credentials::NoProvider => Credentials::NoProvider,
            Credentials::Refused(e) => Credentials::Refused(e@),
            Credentials::Resolved => Credentials::Resolved,
        }
    }
}

/// The report with what is noted of the credentials.
pub open spec fn with_credentials(r: ReportView, c: Credentials<Seq<char>>) -> ReportView {
    match c {
        Credentials::NoProvider => r.failed("no AWS credentials provider in config"@),
        Credentials::Refused(e) => r.failed("AWS credentials: "@ + e),
        Credentials::Resolved => r.passed("AWS credentials resolved"@),
    }
}

/// Note the AWS credentials. The result tells whether there is any point in going
/// on.
pub fn note_credentials(credentials: &Credentials, report: &mut Report) -> (r: bool)
    ensures
        final(report)@ == with_credentials(old(report)@, credentials@),
        r == (credentials is Resolved),
{
    match credentials {
        Credentials::NoProvider => {
            report.fail(owned("no AWS credentials provider in config"));
            false
        },
        Credentials::Refused(e) => {
            report.fail(owned("AWS credentials: ").concat(e.as_str()));
            false
        },
        Credentials::Resolved => {
            report.pass(owned("AWS credentials resolved"));
            true
        },
    }
}

/// The report with what is noted of the scan of the key inventory, which is given
/// by the text of its error, if there is one.
pub open spec fn with_scan(r: ReportView, error: Option<Seq<char>>) -> ReportView {
    match error {
        Some(e) => r.warned(
            "APC list_keys scan failed: "@ + e
                + " — wrapped-key resolution will not work at runtime"@,
        ),
        None => r.passed("APC list_keys scan succeeded"@),
    }
}

/// Note the scan of the key inventory.
pub fn note_scan(error: Option<String>, report: &mut Report)
    ensures
        final(report)@ == with_scan(old(report)@, key_map::maybe(error)),
{
    match error {
        Some(e) => {
            report.warn(
                owned("APC list_keys scan failed: ").concat(e.as_str()).concat(
                    " — wrapped-key resolution will not work at runtime",
                ),
            );
        },
        None => {
            report.pass(owned("APC list_keys scan succeeded"));
        },
    }
}

/// A file that the configuration names, and whether it exists.
pub struct FileFact<T = String> {
    pub path: T,
    pub exists: bool,
}

/// The files of the listener's TLS. With a CA file clients must identify
/// themselves.
pub struct ListenFiles<T = String> {
    pub cert_file: FileFact<T>,
    pub key_file: FileFact<T>,
    pub ca_file: Option<FileFact<T>>,
}

/// The files of the TLS to the HSM.
pub struct ForwardFiles<T = String> {
    pub ca_file: FileFact<T>,
    pub client_cert_file: Option<FileFact<T>>,
    pub client_key_file: Option<FileFact<T>>,
}

/// Whether commands are forwarded to the HSM, and the files of the TLS to it.
pub struct DiscoverFiles<T = String> {
    pub enabled: bool,
    pub tls: Option<ForwardFiles<T>>,
}

impl View for FileFact<String> {
    type V = FileFact<Seq<char>>;

    open spec fn view(&self) -> FileFact<Seq<char>> {
        FileFact { path: self.path@, exists: self.exists }
    }
}

/// A file that may be missing, as contracts speak of it.
pub open spec fn maybe_file(f: Option<FileFact>) -> Option<FileFact<Seq<char>>> {
    match f {
        Some(f) => Some(f@),
        None => None,
    }
}

impl View for ListenFiles<String> {
    type V = ListenFiles<Seq<char>>;

    open spec fn view(&self) -> ListenFiles<Seq<char>> {
        ListenFiles {
            cert_file: self.cert_file@,
            key_file: self.key_file@,
            ca_file: maybe_file(self.ca_file),
        }
    }
}

impl View for DiscoverFiles<String> {
    type V = DiscoverFiles<Seq<char>>;

    open spec fn view(&self) -> DiscoverFiles<Seq<char>> {
        DiscoverFiles {
            enabled: self.enabled,
            tls: match self.tls {
                Some(t) => Some(
                    ForwardFiles {
                        ca_file: t.ca_file@,
                        client_cert_file: maybe_file(t.client_cert_file),
                        client_key_file: maybe_file(t.client_key_file),
                    },
                ),
                None => None,
            },
        }
    }
}

/// The report with what is noted of a file.
pub open spec fn with_file(r: ReportView, label: Seq<char>, f: FileFact<Seq<char>>) -> ReportView {
    if f.exists {
        r.passed(label + ": "@ + f.path)
    } else {
        r.failed(label + " does not exist: "@ + f.path)
    }
}

/// The report with what is noted of a file, if it is configured.
pub open spec fn with_maybe_file(
    r: ReportView,
    label: Seq<char>,
    f: Option<FileFact<Seq<char>>>,
) -> ReportView {
    match f {
        Some(f) => with_file(r, label, f),
        None => r,
    }
}

/// Note a file.
pub fn check_file_exists(label: &str, file: &FileFact, report: &mut Report)
    ensures
        final(report)@ == with_file(old(report)@, label@, file@),
{
    if file.exists {
        report.pass(owned(label).concat(": ").concat(file.path.as_str()));
    } else {
        report.fail(owned(label).concat(" does not exist: ").concat(file.path.as_str()));
    }
}

fn check_maybe_file(label: &str, file: &Option<FileFact>, report: &mut Report)
    ensures
        final(report)@ == with_maybe_file(old(report)@, label@, maybe_file(*file)),
{
    match file {
        Some(f) => {
            check_file_exists(label, f, report);
        },
        None => {},
    }
}

/// The report with what is noted of the listener's TLS.
pub open spec fn with_listen(r: ReportView, tls: Option<ListenFiles<Seq<char>>>) -> ReportView {
    match tls {
        Some(t) => with_maybe_file(
            with_file(
                with_file(r, "listen.tls.cert_file"@, t.cert_file),
                "listen.tls.key_file"@,
                t.key_file,
            ),
            "listen.tls.ca_file (mTLS)"@,
            t.ca_file,
        ),
        None => r.warned("inbound TLS not configured — plaintext listener (development only)"@),
    }
}

/// The files of the listener's TLS, as contracts speak of them.
pub open spec fn maybe_listen(tls: Option<ListenFiles>) -> Option<ListenFiles<Seq<char>>> {
    match tls {
        Some(t) => Some(t@),
        None => None,
    }
}

/// Note the listener's TLS.
pub fn check_listen_tls(tls: &Option<ListenFiles>, report: &mut Report)
    ensures
        final(report)@ == with_listen(old(report)@, maybe_listen(*tls)),
{
    match tls {
        Some(t) => {
            check_file_exists("listen.tls.cert_file", &t.cert_file, report);
            check_file_exists("listen.tls.key_file", &t.key_file, report);
            check_maybe_file("listen.tls.ca_file (mTLS)", &t.ca_file, report);
        },
        None => {
            report.warn(
                owned("inbound TLS not configured — plaintext listener (development only)"),
            );
        },
    }
}

/// The report with what is noted of the TLS to the HSM. A certificate and its key
/// belong together.
pub open spec fn with_discover(r: ReportView, discover: Option<DiscoverFiles<Seq<char>>>) -> ReportView {
    match discover {
        None => r,
        Some(d) => match d.tls {
            None => if d.enabled {
                r.warned("discover.enabled=true but no discover.tls — forward leg is plaintext"@)
            } else {
                r
            },
            Some(t) => {
                let noted = with_maybe_file(
                    with_maybe_file(
                        with_file(r, "discover.tls.ca_file"@, t.ca_file),
                        "discover.tls.client_cert_file (mTLS)"@,
                        t.client_cert_file,
                    ),
                    "discover.tls.client_key_file (mTLS)"@,
                    t.client_key_file,
                );
                if (t.client_cert_file is Some) == (t.client_key_file is Some) {
                    noted
                } else {
                    noted.failed(
                        "discover.tls: client_cert_file and client_key_file must be provided together"@,
                    )
                }
            },
        },
    }
}

/// The forwarding to the HSM, as contracts speak of it.
pub open spec fn maybe_discover(d: Option<DiscoverFiles>) -> Option<DiscoverFiles<Seq<char>>> {
    match d {
        Some(d) => Some(d@),
        None => None,
    }
}

/// Note the TLS to the HSM.
pub fn check_discover_tls(discover: &Option<DiscoverFiles>, report: &mut Report)
    ensures
        final(report)@ == with_discover(old(report)@, maybe_discover(*discover)),
{
    match discover {
        None => {},
        Some(d) => {
            match &d.tls {
                None => {
                    if d.enabled {
                        report.warn(
                            owned(
                                "discover.enabled=true but no discover.tls — forward leg is plaintext",
                            ),
                        );
                    }
                },
                Some(t) => {
                    check_file_exists("discover.tls.ca_file", &t.ca_file, report);
                    check_maybe_file(
                        "discover.tls.client_cert_file (mTLS)",
                        &t.client_cert_file,
                        report,
                    );
                    check_maybe_file(
                        "discover.tls.client_key_file (mTLS)",
                        &t.client_key_file,
                        report,
                    );
                    if t.client_cert_file.is_some() != t.client_key_file.is_some() {
                        report.fail(
                            owned(
                                "discover.tls: client_cert_file and client_key_file must be provided together",
                            ),
                        );
                    }
                },
            }
        },
    }
}

// ── the whole run ────────────────────────────────────────────────────────────

/// What was found of one mapping: the check of its key, and what became of the
/// question to the HSM, if it was asked. The type parameter is the text.
pub struct Finding<T = String> {
    pub label: T,
    pub id: T,
    pub check: KeyCheck<T>,
    pub outcome: Option<ProbeOutcome<T>>,
}

/// A finding as contracts speak of it.
pub type FindingView = Finding<Seq<char>>;

impl View for Finding<String> {
    type V = FindingView;

    open spec fn view(&self) -> FindingView {
        Finding {
            label: self.label@,
            id: self.id@,
            check: self.check@,
            outcome: maybe_outcome(self.outcome),
        }
    }
}

impl Finding<Seq<char>> {
    /// The key is usable, and the HSM, if it gave a check value, gave the same.
    pub open spec fn good(self) -> bool {
        &&& self.check is Usable
        &&& self.outcome matches Some(ProbeOutcome::Kcv(h)) ==> hsm_probe::agree(
            self.check->kcv,
            h,
        )
    }
}

/// What is noted of the mappings, one after the other, and whether the HSM is asked
/// from then on.
pub open spec fn all_judged(r: ReportView, active: bool, found: Seq<FindingView>) -> (
    ReportView,
    bool,
)
    decreases found.len(),
{
    if found.len() == 0 {
        (r, active)
    } else {
        let (before, asked) = all_judged(r, active, found.drop_last());
        let last = found.last();
        judged(before, asked, last.label, last.id, last.check, last.outcome)
    }
}

/// The report of a whole run: the credentials; and if they are resolved the scan of
/// the key inventory, the HSM, the mappings, the listener's TLS and the TLS to the
/// HSM.
pub open spec fn run_report(
    credentials: Credentials<Seq<char>>,
    scan_error: Option<Seq<char>>,
    vendor: Seq<char>,
    hsm: Option<(Seq<char>, u16)>,
    found: Seq<FindingView>,
    listen: Option<ListenFiles<Seq<char>>>,
    discover: Option<DiscoverFiles<Seq<char>>>,
) -> ReportView {
    let start = with_credentials(empty_report(), credentials);
    if credentials is Resolved {
        let (r, active) = probe_setup(with_scan(start, scan_error), vendor, hsm);
        with_discover(with_listen(all_judged(r, active, found).0, listen), discover)
    } else {
        start
    }
}

/// A file that is configured exists.
pub open spec fn file_present(f: Option<FileFact<Seq<char>>>) -> bool {
    f matches Some(f) ==> f.exists
}

/// The files of the listener's TLS exist.
pub open spec fn listen_ready(listen: Option<ListenFiles<Seq<char>>>) -> bool {
    listen matches Some(t) ==> t.cert_file.exists && t.key_file.exists && file_present(t.ca_file)
}

/// The files of the TLS to the HSM exist, and a certificate and its key are given
/// together.
pub open spec fn discover_ready(discover: Option<DiscoverFiles<Seq<char>>>) -> bool {
    discover matches Some(d) ==> (d.tls matches Some(t) ==> {
        &&& t.ca_file.exists
        &&& file_present(t.client_cert_file)
        &&& file_present(t.client_key_file)
        &&& (t.client_cert_file is Some) == (t.client_key_file is Some)
    })
}

// ── laws ─────────────────────────────────────────────────────────────────────

/// A mapping whose key is not usable, or whose check value differs from that of the
/// HSM, fails the verification; any other mapping adds no error.
pub proof fn only_bad_mappings_fail(
    r: ReportView,
    active: bool,
    label: Seq<char>,
    id: Seq<char>,
    check: KeyCheck<Seq<char>>,
    outcome: Option<ProbeOutcome<Seq<char>>>,
)
    ensures
        ({
            let after = judged(r, active, label, id, check, outcome).0;
            let bad = !(check is Usable) || (outcome matches Some(ProbeOutcome::Kcv(h))
                && !hsm_probe::agree(check->kcv, h));
            &&& bad ==> !after.clean() && after.errors.len() == r.errors.len() + 1
            &&& !bad ==> after.errors == r.errors
        }),
{
}

/// The mappings leave a report without errors if and only if it had none before and
/// every one of them is good.
pub proof fn a_clean_report_means_good_mappings(
    r: ReportView,
    active: bool,
    found: Seq<FindingView>,
)
    ensures
        all_judged(r, active, found).0.clean() <==> r.clean() && forall|i: int|
            0 <= i < found.len() ==> (#[trigger] found[i]).good(),
    decreases found.len(),
{
    if found.len() > 0 {
        let init = found.drop_last();
        let last = found.last();
        a_clean_report_means_good_mappings(r, active, init);
        let (before, asked) = all_judged(r, active, init);
        only_bad_mappings_fail(before, asked, last.label, last.id, last.check, last.outcome);
        assert(forall|i: int| 0 <= i < init.len() ==> init[i] == #[trigger] found[i]);
        assert(found[found.len() - 1] == last);
        if before.clean() && last.good() {
            assert forall|i: int| 0 <= i < found.len() implies (#[trigger] found[i]).good() by {
                if i < init.len() {
                    assert(init[i].good());
                }
            }
        }
        if forall|i: int| 0 <= i < found.len() ==> (#[trigger] found[i]).good() {
            assert forall|i: int| 0 <= i < init.len() implies (#[trigger] init[i]).good() by {
                assert(found[i].good());
            }
        }
    }
}

/// A run passes if and only if the credentials are resolved, every mapping leads to a
/// usable key whose check value the HSM does not contradict, and the files that the
/// configuration names are there.
pub proof fn a_run_passes_when_everything_is_ready(
    credentials: Credentials<Seq<char>>,
    scan_error: Option<Seq<char>>,
    vendor: Seq<char>,
    hsm: Option<(Seq<char>, u16)>,
    found: Seq<FindingView>,
    listen: Option<ListenFiles<Seq<char>>>,
    discover: Option<DiscoverFiles<Seq<char>>>,
)
    ensures
        run_report(credentials, scan_error, vendor, hsm, found, listen, discover).clean() <==> {
            &&& credentials is Resolved
            &&& forall|i: int| 0 <= i < found.len() ==> (#[trigger] found[i]).good()
            &&& listen_ready(listen)
            &&& discover_ready(discover)
        },
{
    let scanned = with_scan(with_credentials(empty_report(), credentials), scan_error);
    let (r, active) = probe_setup(scanned, vendor, hsm);
    a_clean_report_means_good_mappings(r, active, found);
}

/// Only a key that APC reports as complete and enabled is usable.
pub proof fn usable_keys_are_complete_and_enabled(reply: KeyReply<Seq<char>>)
    ensures
        checked(reply) is Usable ==> (reply matches KeyReply::Key(k) && k.state
            == "CREATE_COMPLETE"@ && k.enabled),
{
}

/// Once the HSM is not asked any more, it stays so.
pub proof fn a_stopped_probe_stays_stopped(
    r: ReportView,
    label: Seq<char>,
    id: Seq<char>,
    check: KeyCheck<Seq<char>>,
    outcome: Option<ProbeOutcome<Seq<char>>>,
)
    ensures
        !judged(r, false, label, id, check, outcome).1,
{
}

/// A report passes if and only if its last line says so.
pub proof fn the_verdict_is_the_last_line(r: ReportView)
    ensures
        printed(r).last() == if r.clean() {
            "Verification PASSED — config is ready to serve."@
        } else {
            "Verification FAILED — fix errors before starting the proxy."@
        },
{
}

/// A key is judged by what APC says of it: complete, enabled and with attributes it is usable,
/// with its own check value, usage and algorithm; complete but not enabled it is disabled; in any
/// other state it is reported with that state. A key that APC does not know is not found, and any
/// other failure is reported as it is.
pub proof fn a_key_is_judged_by_its_state(
    state: Seq<char>,
    enabled: bool,
    kcv: Seq<char>,
    attributes: Option<(Seq<char>, Seq<char>)>,
    failure: Seq<char>,
)
    ensures
        ({
            let r = checked(KeyReply::Key(KeyFacts { state, enabled, kcv, attributes }));
            &&& state == "CREATE_COMPLETE"@ && enabled && attributes is Some ==> r
                == (KeyCheck::Usable {
                kcv,
                usage: (attributes->0).0,
                algo: (attributes->0).1,
            })
            &&& state == "CREATE_COMPLETE"@ && !enabled ==> r is Disabled
            &&& state == "CREATE_COMPLETE"@ && enabled && attributes is None ==> r is ApiError
            &&& state != "CREATE_COMPLETE"@ ==> r == KeyCheck::WrongState(state)
        }),
        text::contains(failure, "ResourceNotFoundException"@) ==> checked(
            KeyReply::Failed(failure),
        ) is NotFound,
        !text::contains(failure, "ResourceNotFoundException"@) ==> checked(
            KeyReply::Failed(failure),
        ) == KeyCheck::ApiError(failure),
        checked(KeyReply::NoKey) is ApiError,
{
}

/// Each mapping is noted once: as an error if it is bad; else as in order, or, where the HSM was
/// asked but could tell nothing of the key, as a warning. The HSM stops being asked if and only if
/// it proves to be out of reach or to refuse the command, and that is a warning of its own.
pub proof fn each_mapping_is_noted_once(
    r: ReportView,
    label: Seq<char>,
    id: Seq<char>,
    check: KeyCheck<Seq<char>>,
    outcome: Option<ProbeOutcome<Seq<char>>>,
)
    ensures
        ({
            let (after, active) = judged(r, true, label, id, check, outcome);
            let usable = check is Usable;
            let stops = usable && outcome is Some && (outcome->0 is CommandDisabled || outcome->0
                is Unreachable);
            let unclear = usable && outcome is Some && (outcome->0 is UnsupportedForm || outcome->0
                is KeyTypeUnknown || outcome->0 is HsmError);
            let bad = !usable || (outcome matches Some(ProbeOutcome::Kcv(h)) && !hsm_probe::agree(
                check->kcv,
                h,
            ));
            &&& active <==> !stops
            &&& after.errors.len() == r.errors.len() + if bad {
                1nat
            } else {
                0
            }
            &&& after.warnings.len() == r.warnings.len() + if stops || unclear {
                1nat
            } else {
                0
            }
            &&& after.ok.len() == r.ok.len() + if bad || unclear {
                0nat
            } else {
                1
            }
        }),
{
}

/// The HSM is asked for check values only where one is configured and the vendor is payShield;
/// for Futurex that is a warning.
pub proof fn only_payshields_are_asked(
    r: ReportView,
    vendor: Seq<char>,
    hsm: Option<(Seq<char>, u16)>,
)
    ensures
        probe_setup(r, vendor, hsm).1 <==> hsm is Some && vendor == "thales_payshield"@,
        probe_setup(r, vendor, hsm).0.errors == r.errors,
        hsm is Some && vendor == "futurex_excrypt"@ ==> probe_setup(r, vendor, hsm).0.warnings.len()
            == r.warnings.len() + 1,
        hsm is None ==> probe_setup(r, vendor, hsm).0 == r,
{
    reveal_strlit("thales_payshield");
    reveal_strlit("futurex_excrypt");
    assert("thales_payshield"@[0] == 't' && "futurex_excrypt"@[0] == 'f');
}

/// Of an ARN of the service what follows the last colon is shown, and any other identifier as it
/// is.
pub proof fn identifiers_are_shortened_to_their_resource(middle: Seq<char>, resource: Seq<char>)
    requires
        !resource.contains(':'),
    ensures
        shortened(
            "arn:aws:payment-cryptography:"@ + middle + seq![':'] + resource,
        ) == resource,
        shortened("alias/"@ + resource) == "alias/"@ + resource,
{
    let prefix = "arn:aws:payment-cryptography:"@;
    let rest = middle + seq![':'] + resource;
    let id = prefix + middle + seq![':'] + resource;
    assert(id =~= prefix + rest);
    assert(id.take(prefix.len() as int) =~= prefix);
    assert(id.skip(prefix.len() as int) =~= rest);
    lemma_last_colon(middle, resource);
    assert(rest.skip(middle.len() as int + 1) =~= resource);
    reveal_strlit("arn:aws:payment-cryptography:");
    reveal_strlit("alias/");
    let alias = "alias/"@ + resource;
    assert(alias[1] == 'l');
    assert(prefix[1] == 'r');
    if text::begins_with(alias, prefix) {
        assert(alias.take(prefix.len() as int)[1] == alias[1]);
    }
}

proof fn lemma_last_colon(middle: Seq<char>, resource: Seq<char>)
    requires
        !resource.contains(':'),
    ensures
        text::last_index(middle + seq![':'] + resource, ':') == middle.len(),
    decreases resource.len(),
{
    let s = middle + seq![':'] + resource;
    if resource.len() > 0 {
        let front = resource.drop_last();
        assert(resource.contains(resource.last()));
        assert(s.last() == resource.last());
        assert(s.drop_last() =~= middle + seq![':'] + front);
        assert forall|i: int| 0 <= i < front.len() implies front[i] != ':' by {
            assert(resource.contains(resource[i]));
        }
        lemma_last_colon(middle, front);
    } else {
        assert(s.last() == ':');
    }
}

/// Every line of a report is printed with its mark, those in order first, the warnings next and
/// the errors last; then come a rule, the three counts and the verdict.
pub proof fn lines_are_printed_with_their_marks(r: ReportView, i: int)
    ensures
        ({
            let (o, w, e) = (r.ok.len(), r.warnings.len(), r.errors.len());
            let p = printed(r);
            &&& p.len() == o + w + e + 3
            &&& 0 <= i < o ==> p[i] == "  ok    "@ + r.ok[i]
            &&& 0 <= i < w ==> p[o + i] == "  warn  "@ + r.warnings[i]
            &&& 0 <= i < e ==> p[o + w + i] == "  FAIL  "@ + r.errors[i]
            &&& p[p.len() - 2] == text::decimal(o) + " ok, "@ + text::decimal(w)
                + " warning(s), "@ + text::decimal(e) + " error(s)"@
            &&& e == 0 ==> p[p.len() - 1] == "Verification PASSED — config is ready to serve."@
            &&& e > 0 ==> p[p.len() - 1]
                == "Verification FAILED — fix errors before starting the proxy."@
        }),
{
}

/// Lines are noted where they belong: what is in order among the lines in order, a warning among
/// the warnings, an error among the errors, each behind what was noted before.
pub proof fn lines_are_noted_where_they_belong(r: ReportView, line: Seq<char>)
    ensures
        r.passed(line) == (Report { ok: r.ok.push(line), warnings: r.warnings, errors: r.errors }),
        r.warned(line) == (Report {
            ok: r.ok,
            warnings: r.warnings.push(line),
            errors: r.errors,
        }),
        r.failed(line) == (Report { ok: r.ok, warnings: r.warnings, errors: r.errors.push(line) }),
        empty_report().ok.len() == 0,
        empty_report().warnings.len() == 0,
        empty_report().errors.len() == 0,
{
}

/// Without credentials a run ends in one error and nothing else. A scan that failed is no more
/// than a warning.
pub proof fn credentials_come_first(r: ReportView, why: Seq<char>)
    ensures
        with_credentials(r, Credentials::NoProvider).errors == r.errors.push(
            "no AWS credentials provider in config"@,
        ),
        with_credentials(r, Credentials::Refused(why)).errors == r.errors.push(
            "AWS credentials: "@ + why,
        ),
        with_credentials(r, Credentials::Resolved).ok == r.ok.push("AWS credentials resolved"@),
        with_credentials(r, Credentials::Resolved).errors == r.errors,
        with_scan(r, Some(why)).warnings == r.warnings.push(
            "APC list_keys scan failed: "@ + why
                + " — wrapped-key resolution will not work at runtime"@,
        ),
        with_scan(r, Some(why)).errors == r.errors,
        with_scan(r, None).ok == r.ok.push("APC list_keys scan succeeded"@),
        with_scan(r, None).warnings == r.warnings,
{
}

/// The number of errors that a file adds to a report: one if it is configured and missing.
pub open spec fn misses(configured: bool, exists: bool) -> nat {
    if configured && !exists {
        1
    } else {
        0
    }
}

/// The files of the listener's TLS are noted one by one: each that is missing is an error, each
/// that exists is in order with its path, and only a listener without TLS is a warning.
pub proof fn listener_files_are_noted_one_by_one(
    r: ReportView,
    cert: FileFact<Seq<char>>,
    key: FileFact<Seq<char>>,
    ca: Option<FileFact<Seq<char>>>,
)
    ensures
        ({
            let after = with_listen(
                r,
                Some(ListenFiles { cert_file: cert, key_file: key, ca_file: ca }),
            );
            &&& after.warnings == r.warnings
            &&& after.errors.len() == r.errors.len() + misses(true, cert.exists) + misses(
                true,
                key.exists,
            ) + misses(ca is Some, ca->0.exists)
            &&& after.ok.len() + after.errors.len() == r.ok.len() + r.errors.len() + if ca is Some {
                3nat
            } else {
                2
            }
            &&& cert.exists && key.exists && ca is Some && ca->0.exists ==> after.ok == r.ok + seq![
                "listen.tls.cert_file"@ + ": "@ + cert.path,
                "listen.tls.key_file"@ + ": "@ + key.path,
                "listen.tls.ca_file (mTLS)"@ + ": "@ + (ca->0).path,
            ]
            &&& !cert.exists && !key.exists && ca is Some && !ca->0.exists ==> after.errors
                == r.errors + seq![
                "listen.tls.cert_file"@ + " does not exist: "@ + cert.path,
                "listen.tls.key_file"@ + " does not exist: "@ + key.path,
                "listen.tls.ca_file (mTLS)"@ + " does not exist: "@ + (ca->0).path,
            ]
        }),
        with_listen(r, None).errors == r.errors,
        with_listen(r, None).ok == r.ok,
        with_listen(r, None).warnings == r.warnings.push(
            "inbound TLS not configured — plaintext listener (development only)"@,
        ),
{
}

/// The files of the TLS to the HSM are noted one by one, and a client certificate without its key,
/// or a key without its certificate, is one more error. Forwarding without TLS is a warning.
pub proof fn forwarding_files_are_noted_one_by_one(
    r: ReportView,
    enabled: bool,
    ca: FileFact<Seq<char>>,
    cert: Option<FileFact<Seq<char>>>,
    key: Option<FileFact<Seq<char>>>,
)
    ensures
        ({
            let tls = ForwardFiles { ca_file: ca, client_cert_file: cert, client_key_file: key };
            let after = with_discover(r, Some(DiscoverFiles { enabled, tls: Some(tls) }));
            let lone = cert is Some && key is None || cert is None && key is Some;
            &&& after.warnings == r.warnings
            &&& after.errors.len() == r.errors.len() + misses(true, ca.exists) + misses(
                cert is Some,
                cert->0.exists,
            ) + misses(key is Some, key->0.exists) + if lone {
                1nat
            } else {
                0
            }
            &&& ca.exists && cert is Some && cert->0.exists && key is Some && key->0.exists
                ==> after.ok == r.ok + seq![
                "discover.tls.ca_file"@ + ": "@ + ca.path,
                "discover.tls.client_cert_file (mTLS)"@ + ": "@ + (cert->0).path,
                "discover.tls.client_key_file (mTLS)"@ + ": "@ + (key->0).path,
            ]
        }),
        with_discover(r, None) == r,
        with_discover(r, Some(DiscoverFiles { enabled: false, tls: None })) == r,
        with_discover(r, Some(DiscoverFiles { enabled: true, tls: None })) == r.warned(
            "discover.enabled=true but no discover.tls — forward leg is plaintext"@,
        ),
{
}

/// A mapping is noted under its own label, filled up with spaces to 36 characters, and the
/// resource that its ARN names; then with what is wrong, or with the usage, algorithm and check
/// value of the key.
pub proof fn mappings_are_noted_under_their_labels(
    r: ReportView,
    label: Seq<char>,
    fill: Seq<char>,
    middle: Seq<char>,
    resource: Seq<char>,
    kcv: Seq<char>,
    usage: Seq<char>,
    algo: Seq<char>,
    why: Seq<char>,
)
    requires
        label.len() + fill.len() == 36,
        forall|i: int| 0 <= i < fill.len() ==> fill[i] == ' ',
        !resource.contains(':'),
    ensures
        ({
            let id = "arn:aws:payment-cryptography:"@ + middle + seq![':'] + resource;
            let head = label + fill + " → "@ + resource;
            let usable = KeyCheck::Usable { kcv, usage, algo };
            let line = head + " ("@ + usage + "/"@ + algo + ", KCV="@ + kcv;
            &&& judged(r, true, label, id, KeyCheck::NotFound, None).0.errors.last() == head
                + " NOT FOUND in APC"@
            &&& judged(r, true, label, id, KeyCheck::Disabled, None).0.errors.last() == head
                + " DISABLED"@
            &&& judged(r, true, label, id, KeyCheck::WrongState(why), None).0.errors.last() == head
                + " state="@ + why + " (must be CREATE_COMPLETE)"@
            &&& judged(r, true, label, id, KeyCheck::ApiError(why), None).0.errors.last() == head
                + " APC error: "@ + why
            &&& judged(r, true, label, id, usable, None).0.ok.last() == line + ")"@
            &&& judged(
                r,
                true,
                label,
                id,
                usable,
                Some(ProbeOutcome::Kcv(kcv)),
            ).0.ok.last() == line + ", HSM="@ + kcv + " ✓)"@ || !hsm_probe::agree(kcv, kcv)
            &&& !hsm_probe::agree(kcv, why) ==> judged(
                r,
                true,
                label,
                id,
                usable,
                Some(ProbeOutcome::Kcv(why)),
            ).0.errors.last() == head + " APC KCV="@ + kcv + ", HSM KCV="@ + why
                + " — KEY MISMATCH"@
            &&& judged(
                r,
                true,
                label,
                id,
                usable,
                Some(ProbeOutcome::HsmError(why)),
            ).0.warnings.last() == line + ", HSM probe error: "@ + why + ")"@
            &&& judged(
                r,
                true,
                label,
                id,
                usable,
                Some(ProbeOutcome::Unreachable(why)),
            ).0.ok.last() == line + ")"@
        }),
{
    identifiers_are_shortened_to_their_resource(middle, resource);
    assert(text::pad_end(label, ' ', 36) =~= label + fill);
}

} // verus!
