//! Why each handler behaves as it does, and how that was established.

use vstd::prelude::*;
use vstd::string::*;

#[allow(unused_imports)]
use crate::text;
use crate::text::{decimal_text, join_text, owned};

verus! {

/// How the wire layout of a command is established.
#[derive(Clone, Copy, Debug, PartialEq, Eq, Structural)]
pub enum WireGrounding {
    /// A published vector, run through the wire.
    VecThru,
    /// An encoder written from the manual, held against live APC.
    DiffXprov,
    /// Cited from the manual.
    Cited,
    /// Not grounded.
    Ungrounded,
}

/// How the expected value of a command is established.
#[derive(Clone, Copy, Debug, PartialEq, Eq, Structural)]
pub enum CryptoGrounding {
    /// A published test vector.
    Vec,
    /// A second implementation agrees.
    TwoImpl,
    /// APC alone.
    Apc,
    /// Not grounded.
    Ungrounded,
}

/// Where the proof of a piece of evidence lives.
#[derive(Clone, Copy)]
pub enum Proof {
    /// The name of a differential test against live APC.
    LiveTest(&'static str),
    /// A citation of the manual.
    ManualCite(&'static str),
    /// Deliberately unsupported, with the reason.
    Gated(&'static str),
}

/// One decision about a handler, and the evidence for it.
#[derive(Clone, Copy)]
pub struct Evidence {
    pub decision: &'static str,
    pub because: &'static str,
    pub wire: WireGrounding,
    pub crypto: CryptoGrounding,
    pub proof: Proof,
}

impl WireGrounding {
    /// The label of the report.
    pub open spec fn text(self) -> Seq<char> {
        match self {
            WireGrounding::VecThru => "vec-thru"@,
            WireGrounding::DiffXprov => "diff-xprov"@,
            WireGrounding::Cited => "cited"@,
            WireGrounding::Ungrounded => "none"@,
        }
    }

    /// The label of the report.
    pub fn label(self) -> (r: &'static str)
        ensures
            r@ == self.text(),
    {
        match self {
            WireGrounding::VecThru => "vec-thru",
            WireGrounding::DiffXprov => "diff-xprov",
            WireGrounding::Cited => "cited",
            WireGrounding::Ungrounded => "none",
        }
    }
}

impl CryptoGrounding {
    /// The label of the report.
    pub open spec fn text(self) -> Seq<char> {
        match self {
            CryptoGrounding::Vec => "vec"@,
            CryptoGrounding::TwoImpl => "2impl"@,
            CryptoGrounding::Apc => "apc"@,
            CryptoGrounding::Ungrounded => "none"@,
        }
    }

    /// The label of the report.
    pub fn label(self) -> (r: &'static str)
        ensures
            r@ == self.text(),
    {
        match self {
            CryptoGrounding::Vec => "vec",
            CryptoGrounding::TwoImpl => "2impl",
            CryptoGrounding::Apc => "apc",
            CryptoGrounding::Ungrounded => "none",
        }
    }
}

impl Proof {
    /// The line of the report.
    pub open spec fn text(self) -> Seq<char> {
        match self {
            Proof::LiveTest(t) => "live test `"@ + t@ + "`"@,
            Proof::ManualCite(c) => "manual: "@ + c@,
            Proof::Gated(r) => "gated (68): "@ + r@,
        }
    }

    /// The line of the report.
    pub fn label(&self) -> (r: String)
        ensures
            r@ == self.text(),
    {
        match self {
            Proof::LiveTest(t) => owned("live test `").concat(t).concat("`"),
            Proof::ManualCite(c) => owned("manual: ").concat(c),
            Proof::Gated(r) => owned("gated (68): ").concat(r),
        }
    }

    /// The name of the live test, if this proof is one.
    pub fn live_test(&self) -> (r: Option<&'static str>)
        ensures
            r == match self {
                Proof::LiveTest(t) => Some(*t),
                _ => None,
            },
    {
        match self {
            Proof::LiveTest(t) => Some(t),
            _ => None,
        }
    }
}

// ── the report ───────────────────────────────────────────────────────────────

/// One handler in the report: its command codes and its evidence. The type
/// parameters are how the two lists are held; in contracts both are sequences.
pub struct Entry<C = Vec<&'static str>, E = Vec<Evidence>> {
    pub codes: C,
    pub evidence: E,
}

/// An entry as contracts speak of it.
pub type EntryView = Entry<Seq<Seq<char>>, Seq<Evidence>>;

impl View for Entry<Vec<&'static str>, Vec<Evidence>> {
    type V = EntryView;

    open spec fn view(&self) -> EntryView {
        Entry { codes: text::texts(self.codes@), evidence: self.evidence@ }
    }
}

/// Entries as contracts speak of them.
pub open spec fn entry_views(entries: Seq<Entry>) -> Seq<EntryView> {
    entries.map_values(|e: Entry| e@)
}

/// One piece of evidence.
pub open spec fn evidence_text(e: Evidence) -> Seq<char> {
    "- **"@ + e.decision@ + "**\n"@ + "  - wire `"@ + e.wire.text() + "` · crypto `"@
        + e.crypto.text() + "` · "@ + e.proof.text() + "\n"@ + "  - "@ + e.because@ + "\n"@
}

/// All pieces of evidence of a handler.
pub open spec fn evidence_texts(es: Seq<Evidence>) -> Seq<char>
    decreases es.len(),
{
    if es.len() == 0 {
        Seq::empty()
    } else {
        evidence_texts(es.drop_last()) + evidence_text(es.last())
    }
}

/// The command codes of a handler, each in back quotes.
pub open spec fn quoted_codes(codes: Seq<Seq<char>>) -> Seq<char> {
    "`"@ + text::join(codes, "`, `"@) + "`"@
}

/// The sections of the handlers that give evidence.
pub open spec fn sections(entries: Seq<EntryView>) -> Seq<char>
    decreases entries.len(),
{
    if entries.len() == 0 {
        Seq::empty()
    } else {
        let e = entries.last();
        if e.evidence.len() == 0 {
            sections(entries.drop_last())
        } else {
            sections(entries.drop_last()) + ("## "@ + quoted_codes(e.codes) + "\n\n"@
                + evidence_texts(e.evidence) + "\n"@)
        }
    }
}

/// The list of the handlers that give no evidence.
pub open spec fn gaps(entries: Seq<EntryView>) -> Seq<char>
    decreases entries.len(),
{
    if entries.len() == 0 {
        Seq::empty()
    } else {
        let e = entries.last();
        if e.evidence.len() == 0 {
            gaps(entries.drop_last()) + ("- "@ + quoted_codes(e.codes) + "\n"@)
        } else {
            gaps(entries.drop_last())
        }
    }
}

/// How many handlers give evidence.
pub open spec fn grounded(entries: Seq<EntryView>) -> nat
    decreases entries.len(),
{
    if entries.len() == 0 {
        0
    } else {
        grounded(entries.drop_last()) + if entries.last().evidence.len() == 0 {
            0nat
        } else {
            1nat
        }
    }
}

/// The report, in Markdown: a heading, the coverage, a section for each handler
/// that gives evidence, and a list of those that give none.
pub open spec fn report(entries: Seq<EntryView>) -> Seq<char> {
    let open_ones = (entries.len() - grounded(entries)) as nat;
    "<!-- GENERATED by tests/grounding.rs (grounding_report_is_current). DO NOT EDIT. -->\n"@
        + "<!-- Source of truth: each handler's Handler::grounding(); see src/handlers/grounding.rs. -->\n\n"@
        + "# Grounding report\n\n"@
        + "Evidence for *why* each handler behaves as it does and *how* it was verified. Generated from `Handler::grounding()` — do not edit by hand. Grounding labels: wire `vec-thru` > `diff-xprov` > `cited` > `none`; crypto `vec` > `2impl` > `apc` > `none`.\n\n"@
        + "**Coverage:** "@ + text::decimal(grounded(entries)) + " of "@ + text::decimal(
        entries.len(),
    ) + " handlers carry grounding; "@ + text::decimal(open_ones)
        + " not yet grounded (tracked at the end). This reflects current state — it does not claim the rest are verified.\n\n"@
        + sections(entries) + if open_ones == 0 {
        Seq::empty()
    } else {
        "## Not yet grounded\n\n"@
            + "These handlers have no `grounding()` yet — the open documentation/testing gap. Grounding them is the ongoing work (documentation + test added together).\n\n"@
            + gaps(entries)
    }
}

fn append_evidence(s: &mut String, e: &Evidence)
    ensures
        final(s)@ == old(s)@ + evidence_text(*e),
{
    s.append("- **");
    s.append(e.decision);
    s.append("**\n");
    s.append("  - wire `");
    s.append(e.wire.label());
    s.append("` · crypto `");
    s.append(e.crypto.label());
    s.append("` · ");
    s.append(e.proof.label().as_str());
    s.append("\n");
    s.append("  - ");
    s.append(e.because);
    s.append("\n");
    assert(s@ =~= old(s)@ + evidence_text(*e));
}

fn append_codes(s: &mut String, codes: &Vec<&'static str>)
    ensures
        final(s)@ == old(s)@ + quoted_codes(text::texts(codes@)),
{
    s.append("`");
    s.append(join_text(codes, "`, `").as_str());
    s.append("`");
    assert(s@ =~= old(s)@ + quoted_codes(text::texts(codes@)));
}

fn append_section(s: &mut String, e: &Entry)
    ensures
        final(s)@ == old(s)@ + ("## "@ + quoted_codes(e@.codes) + "\n\n"@ + evidence_texts(
            e@.evidence,
        ) + "\n"@),
{
    s.append("## ");
    append_codes(s, &e.codes);
    s.append("\n\n");
    let ghost head = s@;
    let mut i: usize = 0;
    while i < e.evidence.len()
        invariant
            i <= e.evidence@.len(),
            s@ == head + evidence_texts(e.evidence@.take(i as int)),
        decreases e.evidence@.len() - i,
    {
        let ghost before = s@;
        append_evidence(s, &e.evidence[i]);
        i = i + 1;
        assert(e.evidence@.take(i as int).drop_last() =~= e.evidence@.take(i - 1));
        assert(s@ =~= head + evidence_texts(e.evidence@.take(i as int)));
    }
    assert(e.evidence@.take(i as int) =~= e.evidence@);
    s.append("\n");
    assert(s@ =~= old(s)@ + ("## "@ + quoted_codes(e@.codes) + "\n\n"@ + evidence_texts(
        e@.evidence,
    ) + "\n"@));
}

/// The sections of the handlers that give evidence, and how many they are.
fn section_texts(entries: &[Entry]) -> (r: (String, usize))
    ensures
        (r.0)@ == sections(entry_views(entries@)),
        r.1 == grounded(entry_views(entries@)),
        r.1 <= entries@.len(),
{
    let mut s: String = String::new();
    let mut n: usize = 0;
    let mut i: usize = 0;
    let ghost views = entry_views(entries@);
    while i < entries.len()
        invariant
            i <= entries@.len(),
            views == entry_views(entries@),
            s@ == sections(views.take(i as int)),
            n == grounded(views.take(i as int)),
            n <= i,
        decreases entries@.len() - i,
    {
        proof {
            assert(views.take(i + 1).drop_last() =~= views.take(i as int));
            assert(views.take(i + 1).last() == entries@[i as int]@);
        }
        if entries[i].evidence.len() > 0 {
            append_section(&mut s, &entries[i]);
            n = n + 1;
        }
        i = i + 1;
    }
    assert(views.take(i as int) =~= views);
    (s, n)
}

/// The list of the handlers that give no evidence.
fn gap_texts(entries: &[Entry]) -> (r: String)
    ensures
        r@ == gaps(entry_views(entries@)),
{
    let mut s: String = String::new();
    let mut i: usize = 0;
    let ghost views = entry_views(entries@);
    while i < entries.len()
        invariant
            i <= entries@.len(),
            views == entry_views(entries@),
            s@ == gaps(views.take(i as int)),
        decreases entries@.len() - i,
    {
        proof {
            assert(views.take(i + 1).drop_last() =~= views.take(i as int));
            assert(views.take(i + 1).last() == entries@[i as int]@);
        }
        if entries[i].evidence.len() == 0 {
            let ghost before = s@;
            s.append("- ");
            append_codes(&mut s, &entries[i].codes);
            s.append("\n");
            assert(s@ =~= before + ("- "@ + quoted_codes(entries@[i as int]@.codes) + "\n"@));
        }
        i = i + 1;
    }
    assert(views.take(i as int) =~= views);
    s
}

/// Write the report.
#[must_use]
pub fn format_report(entries: &[Entry]) -> (r: String)
    ensures
        r@ == report(entry_views(entries@)),
{
    let (body, n) = section_texts(entries);
    let open_ones: usize = entries.len() - n;
    let mut s: String = String::new();
    s.append(
        "<!-- GENERATED by tests/grounding.rs (grounding_report_is_current). DO NOT EDIT. -->\n",
    );
    s.append(
        "<!-- Source of truth: each handler's Handler::grounding(); see src/handlers/grounding.rs. -->\n\n",
    );
    s.append("# Grounding report\n\n");
    s.append(
        "Evidence for *why* each handler behaves as it does and *how* it was verified. Generated from `Handler::grounding()` — do not edit by hand. Grounding labels: wire `vec-thru` > `diff-xprov` > `cited` > `none`; crypto `vec` > `2impl` > `apc` > `none`.\n\n",
    );
    s.append("**Coverage:** ");
    s.append(decimal_text(n as u128).as_str());
    s.append(" of ");
    s.append(decimal_text(entries.len() as u128).as_str());
    s.append(" handlers carry grounding; ");
    s.append(decimal_text(open_ones as u128).as_str());
    s.append(
        " not yet grounded (tracked at the end). This reflects current state — it does not claim the rest are verified.\n\n",
    );
    s.append(body.as_str());
    if open_ones > 0 {
        s.append("## Not yet grounded\n\n");
        s.append(
            "These handlers have no `grounding()` yet — the open documentation/testing gap. Grounding them is the ongoing work (documentation + test added together).\n\n",
        );
        s.append(gap_texts(entries).as_str());
    }
    assert(s@ =~= report(entry_views(entries@)));
    s
}

/// Each grounding goes by a label of its own.
pub proof fn groundings_go_by_their_labels(
    w: WireGrounding,
    x: WireGrounding,
    c: CryptoGrounding,
    d: CryptoGrounding,
)
    ensures
        WireGrounding::VecThru.text() == "vec-thru"@,
        WireGrounding::DiffXprov.text() == "diff-xprov"@,
        WireGrounding::Cited.text() == "cited"@,
        WireGrounding::Ungrounded.text() == "none"@,
        CryptoGrounding::Vec.text() == "vec"@,
        CryptoGrounding::TwoImpl.text() == "2impl"@,
        CryptoGrounding::Apc.text() == "apc"@,
        CryptoGrounding::Ungrounded.text() == "none"@,
        w.text() == x.text() ==> w == x,
        c.text() == d.text() ==> c == d,
{
    reveal_strlit("vec-thru");
    reveal_strlit("diff-xprov");
    reveal_strlit("cited");
    reveal_strlit("none");
    reveal_strlit("vec");
    reveal_strlit("2impl");
    reveal_strlit("apc");
    assert("vec-thru"@[0] == 'v' && "diff-xprov"@[0] == 'd' && "cited"@[0] == 'c');
    assert("none"@[0] == 'n' && "vec"@[0] == 'v' && "2impl"@[0] == '2' && "apc"@[0] == 'a');
}

/// A piece of evidence is written with its decision first, then how wire and value are grounded
/// and what proves it, then the reason; the proof is told by its kind.
pub proof fn evidence_is_written_in_full(
    decision: &'static str,
    because: &'static str,
    what: &'static str,
)
    ensures
        evidence_text(
            Evidence {
                decision,
                because,
                wire: WireGrounding::DiffXprov,
                crypto: CryptoGrounding::Apc,
                proof: Proof::LiveTest(what),
            },
        ) == "- **"@ + decision@ + "**\n"@ + "  - wire `"@ + "diff-xprov"@ + "` · crypto `"@
            + "apc"@ + "` · "@ + ("live test `"@ + what@ + "`"@) + "\n"@ + "  - "@ + because@
            + "\n"@,
        evidence_text(
            Evidence {
                decision,
                because,
                wire: WireGrounding::Cited,
                crypto: CryptoGrounding::TwoImpl,
                proof: Proof::ManualCite(what),
            },
        ) == "- **"@ + decision@ + "**\n"@ + "  - wire `"@ + "cited"@ + "` · crypto `"@ + "2impl"@
            + "` · "@ + ("manual: "@ + what@) + "\n"@ + "  - "@ + because@ + "\n"@,
        evidence_text(
            Evidence {
                decision,
                because,
                wire: WireGrounding::Ungrounded,
                crypto: CryptoGrounding::Ungrounded,
                proof: Proof::Gated(what),
            },
        ) == "- **"@ + decision@ + "**\n"@ + "  - wire `"@ + "none"@ + "` · crypto `"@ + "none"@
            + "` · "@ + ("gated (68): "@ + what@) + "\n"@ + "  - "@ + because@ + "\n"@,
{
}

/// The report is put together handler by handler, in order: what it says of two lists of handlers
/// is what it says of the first and then of the second.
pub proof fn reports_are_put_together(a: Seq<EntryView>, b: Seq<EntryView>)
    ensures
        sections(a + b) == sections(a) + sections(b),
        gaps(a + b) == gaps(a) + gaps(b),
        grounded(a + b) == grounded(a) + grounded(b),
    decreases b.len(),
{
    if b.len() == 0 {
        assert(a + b =~= a);
        assert(sections(a) + sections(b) =~= sections(a));
        assert(gaps(a) + gaps(b) =~= gaps(a));
    } else {
        reports_are_put_together(a, b.drop_last());
        assert((a + b).drop_last() =~= a + b.drop_last());
        assert((a + b).last() == b.last());
        assert(sections(a + b) =~= sections(a) + sections(b));
        assert(gaps(a + b) =~= gaps(a) + gaps(b));
    }
}

/// A handler with evidence has a section under its command codes, with its pieces of evidence in
/// order, and counts as grounded; one without is listed as a gap, and does not count.
pub proof fn each_handler_is_reported_once(
    first: Seq<char>,
    second: Seq<char>,
    one: Evidence,
    two: Evidence,
)
    ensures
        ({
            let e = Entry { codes: seq![first, second], evidence: seq![one, two] };
            &&& sections(seq![e]) == "## "@ + ("`"@ + (first + "`, `"@ + second) + "`"@) + "\n\n"@
                + (evidence_text(one) + evidence_text(two)) + "\n"@
            &&& gaps(seq![e]).len() == 0
            &&& grounded(seq![e]) == 1
        }),
        ({
            let e = Entry { codes: seq![first], evidence: Seq::<Evidence>::empty() };
            &&& sections(seq![e]).len() == 0
            &&& gaps(seq![e]) == "- "@ + ("`"@ + first + "`"@) + "\n"@
            &&& grounded(seq![e]) == 0
        }),
{
    let none = Seq::<EntryView>::empty();
    let es = seq![one, two];
    let e = Entry { codes: seq![first, second], evidence: es };
    assert(es.drop_last() =~= seq![one]);
    assert(es.drop_last().drop_last() =~= Seq::<Evidence>::empty());
    reveal_with_fuel(evidence_texts, 3);
    assert(evidence_texts(es) =~= evidence_text(one) + evidence_text(two));
    assert(e.codes.drop_last() =~= seq![first]);
    reveal_with_fuel(text::join, 3);
    assert(text::join(e.codes, "`, `"@) == first + "`, `"@ + second);
    assert(seq![e].drop_last() =~= none);
    assert(sections(none) =~= Seq::empty());
    assert(gaps(none) =~= Seq::empty());
    assert(grounded(none) == 0);
    assert(sections(seq![e]) =~= "## "@ + ("`"@ + (first + "`, `"@ + second) + "`"@) + "\n\n"@ + (
    evidence_text(one) + evidence_text(two)) + "\n"@);
    let g = Entry { codes: seq![first], evidence: Seq::<Evidence>::empty() };
    assert(seq![g].drop_last() =~= none);
    assert(sections(seq![g]) =~= Seq::empty());
    assert(gaps(seq![e]) =~= Seq::empty());
    assert(text::join(g.codes, "`, `"@) == first);
    assert(gaps(seq![g]) =~= "- "@ + ("`"@ + first + "`"@) + "\n"@);
}

/// As many handlers count as grounded as give evidence.
pub proof fn grounded_handlers_are_counted(entries: Seq<EntryView>)
    ensures
        grounded(entries) == entries.filter(|e: EntryView| e.evidence.len() > 0).len(),
        grounded(entries) <= entries.len(),
        grounded(entries) == entries.len() <==> forall|i: int|
            0 <= i < entries.len() ==> (#[trigger] entries[i]).evidence.len() > 0,
    decreases entries.len(),
{
    reveal(Seq::filter);
    if entries.len() > 0 {
        let front = entries.drop_last();
        grounded_handlers_are_counted(front);
        assert(forall|i: int| 0 <= i < front.len() ==> front[i] == #[trigger] entries[i]);
        assert(entries[entries.len() - 1] == entries.last());
        if forall|i: int| 0 <= i < front.len() ==> (#[trigger] front[i]).evidence.len() > 0 {
            if entries.last().evidence.len() > 0 {
                assert forall|i: int| 0 <= i < entries.len() implies (
                #[trigger] entries[i]).evidence.len() > 0 by {
                    if i < front.len() {
                        assert(front[i].evidence.len() > 0);
                    }
                }
            }
        }
        if forall|i: int| 0 <= i < entries.len() ==> (#[trigger] entries[i]).evidence.len() > 0 {
            assert forall|i: int| 0 <= i < front.len() implies (#[trigger] front[i]).evidence.len()
                > 0 by {
                assert(entries[i].evidence.len() > 0);
            }
        }
    }
}

/// The report says how many of the handlers give evidence and how many do not, and ends with the
/// sections of those that do, followed, where there are any, by the list of those that do not.
pub proof fn the_report_counts_what_it_lists(entries: Seq<EntryView>)
    ensures
        ({
            let with = entries.filter(|e: EntryView| e.evidence.len() > 0).len();
            let without = (entries.len() - with) as nat;
            let counts = "**Coverage:** "@ + text::decimal(with) + " of "@ + text::decimal(
                entries.len(),
            ) + " handlers carry grounding; "@ + text::decimal(without);
            let n = report(entries).len();
            &&& exists|at: int| text::stands_at(report(entries), counts, at)
            &&& without == 0 ==> report(entries).skip(n - sections(entries).len()) == sections(
                entries,
            )
            &&& without > 0 ==> report(entries).skip(n - gaps(entries).len()) == gaps(entries)
        }),
{
    grounded_handlers_are_counted(entries);
    let with = grounded(entries);
    let without = (entries.len() - with) as nat;
    let counts = "**Coverage:** "@ + text::decimal(with) + " of "@ + text::decimal(entries.len())
        + " handlers carry grounding; "@ + text::decimal(without);
    let head =
        "<!-- GENERATED by tests/grounding.rs (grounding_report_is_current). DO NOT EDIT. -->\n"@
        + "<!-- Source of truth: each handler's Handler::grounding(); see src/handlers/grounding.rs. -->\n\n"@
        + "# Grounding report\n\n"@
        + "Evidence for *why* each handler behaves as it does and *how* it was verified. Generated from `Handler::grounding()` — do not edit by hand. Grounding labels: wire `vec-thru` > `diff-xprov` > `cited` > `none`; crypto `vec` > `2impl` > `apc` > `none`.\n\n"@;
    let r = report(entries);
    let at = head.len() as int;
    assert(r.subrange(at, at + counts.len()) =~= counts);
    assert(text::stands_at(r, counts, at));
    if without == 0 {
        assert(r.skip(r.len() - sections(entries).len()) =~= sections(entries));
    } else {
        assert(r.skip(r.len() - gaps(entries).len()) =~= gaps(entries));
    }
}

} // verus!
