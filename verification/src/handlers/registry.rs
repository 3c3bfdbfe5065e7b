//! The dispatch table: which handler answers to which command code.

use vstd::prelude::*;
#[allow(unused_imports)]
use vstd::utf8;

#[allow(unused_imports)]
use crate::handlers;
#[allow(unused_imports)]
use crate::handlers::grounding;
use crate::handlers::grounding::{format_report, Entry, EntryView, Evidence};
use crate::handlers::noop::NotAvailableHandler;
#[allow(unused_imports)]
use crate::handlers::thales::cap_arqc::CapArqcHandler;
#[allow(unused_imports)]
use crate::handlers::thales::cvv::CvvHandler;
#[allow(unused_imports)]
use crate::handlers::thales::diebold_pin::DieboldPinHandler;
#[allow(unused_imports)]
use crate::handlers::thales::dukpt_mac::DukptMacHandler;
#[allow(unused_imports)]
use crate::handlers::thales::dukpt_pin_verify::DukptPinVerifyHandler;
#[allow(unused_imports)]
use crate::handlers::thales::dukpt_pin_verify_aes::DukptPinVerifyAesHandler;
#[allow(unused_imports)]
use crate::handlers::thales::dynamic_cvv::DynamicCvvHandler;
#[allow(unused_imports)]
use crate::handlers::thales::emv_decrypt::EmvDecryptHandler;
#[allow(unused_imports)]
use crate::handlers::thales::encrypt_decrypt::EncryptDecryptHandler;
#[allow(unused_imports)]
use crate::handlers::thales::heartbeat::HeartbeatHandler;
#[allow(unused_imports)]
use crate::handlers::thales::hmac::HmacHandler;
#[allow(unused_imports)]
use crate::handlers::thales::international_encrypt::InternationalEncryptHandler;
#[allow(unused_imports)]
use crate::handlers::thales::issuer_script_mac::IssuerScriptMacHandler;
#[allow(unused_imports)]
use crate::handlers::thales::kq_arqc::KqArqcHandler;
#[allow(unused_imports)]
use crate::handlers::thales::kw_arqc::KwArqcHandler;
#[allow(unused_imports)]
use crate::handlers::thales::legacy_mac::LegacyMacHandler;
#[allow(unused_imports)]
use crate::handlers::thales::mac::MacHandler;
#[allow(unused_imports)]
use crate::handlers::thales::mac_translate::MacTranslateHandler;
#[allow(unused_imports)]
use crate::handlers::thales::pin::PinHandler;
#[allow(unused_imports)]
use crate::handlers::thales::pin_change::PinChangeHandler;
#[allow(unused_imports)]
use crate::handlers::thales::pin_verify_non_dukpt::PinVerifyNonDukptHandler;
#[allow(unused_imports)]
use crate::handlers::thales::random_pin::RandomPinHandler;
#[allow(unused_imports)]
use crate::handlers::thales::unionpay_arqc::UnionPayArqcHandler;
use crate::handlers::thales::{ThalesHandler, ThalesModule};
use crate::handlers::{Handler, Step, StepView};
use crate::key_map::{KeyMap, KeyTable};
#[allow(unused_imports)]
use crate::text;
use crate::text::{bytes_before, same_bytes, same_text, text_before, text_bytes};
use crate::vendor::VendorModule;

verus! {

/// A handler in the table: one of the vendor's, or the one for commands that have
/// no equivalent.
pub enum Registered<H> {
    Vendor(H),
    Unavailable(NotAvailableHandler),
}

impl<H: Handler> Handler for Registered<H> {
    open spec fn codes(&self) -> Seq<Seq<char>> {
        match self {
            Registered::Vendor(h) => h.codes(),
            Registered::Unavailable(h) => h.codes(),
        }
    }

    open spec fn step(&self, command_code: Seq<u8>, payload: Seq<u8>, keys: KeyTable) -> StepView {
        match self {
            Registered::Vendor(h) => h.step(command_code, payload, keys),
            Registered::Unavailable(h) => h.step(command_code, payload, keys),
        }
    }

    open spec fn evidence(&self) -> Seq<Evidence> {
        match self {
            Registered::Vendor(h) => h.evidence(),
            Registered::Unavailable(h) => h.evidence(),
        }
    }

    fn command_codes(&self) -> Vec<&'static str> {
        match self {
            Registered::Vendor(h) => h.command_codes(),
            Registered::Unavailable(h) => h.command_codes(),
        }
    }

    fn start(&self, command_code: &[u8], payload: &[u8], keys: &KeyMap) -> Step {
        match self {
            Registered::Vendor(h) => h.start(command_code, payload, keys),
            Registered::Unavailable(h) => h.start(command_code, payload, keys),
        }
    }

    fn grounding(&self) -> Vec<Evidence> {
        match self {
            Registered::Vendor(h) => h.grounding(),
            Registered::Unavailable(h) => h.grounding(),
        }
    }
}

/// A dispatch table as contracts speak of it.
pub type Table<H> = Map<Seq<u8>, Registered<H>>;

/// `code` is the encoding of one of `codes`.
pub open spec fn coded(codes: Seq<Seq<char>>, code: Seq<u8>) -> bool {
    exists|k: int| 0 <= k < codes.len() && utf8::encode_utf8(#[trigger] codes[k]) == code
}

/// The table with `h` under each of `codes`, over what stood there.
pub open spec fn placed<H>(t: Table<H>, h: Registered<H>, codes: Seq<Seq<char>>) -> Table<H> {
    Map::new(
        |c: Seq<u8>| t.dom().contains(c) || coded(codes, c),
        |c: Seq<u8>|
            if coded(codes, c) {
                h
            } else {
                t[c]
            },
    )
}

/// The table with `h` under each of its command codes, over what stood there.
pub open spec fn registered<H: Handler>(t: Table<H>, h: Registered<H>) -> Table<H> {
    placed(t, h, h.codes())
}

/// The table with `hs` registered one after the other.
pub open spec fn all_registered<H: Handler>(t: Table<H>, hs: Seq<H>) -> Table<H>
    decreases hs.len(),
{
    if hs.len() == 0 {
        t
    } else {
        registered(all_registered(t, hs.drop_last()), Registered::Vendor(hs.last()))
    }
}

/// The table of a vendor: its handlers, and over them the one for commands that
/// have no equivalent.
pub open spec fn vendor_table<H: Handler>(hs: Seq<H>) -> Table<H> {
    registered(all_registered(Map::empty(), hs), Registered::Unavailable(NotAvailableHandler))
}

/// What is reported of a handler.
pub open spec fn entry_of<H: Handler>(h: Registered<H>) -> EntryView {
    Entry { codes: h.codes(), evidence: h.evidence() }
}

/// `e` is what is reported of some handler in the table.
pub open spec fn reports_some<H: Handler>(e: EntryView, t: Table<H>) -> bool {
    exists|c: Seq<u8>| #[trigger] t.dom().contains(c) && e == entry_of(t[c])
}

/// Some entry has `code` as its first command code.
pub open spec fn begins_some(es: Seq<EntryView>, code: Seq<char>) -> bool {
    exists|i: int| 0 <= i < es.len() && (#[trigger] es[i]).codes[0] == code
}

/// `es` reports the handlers in the table, each once, in ascending order of their
/// first command codes. Of handlers that share their first code one is reported.
pub open spec fn is_listing<H: Handler>(es: Seq<EntryView>, t: Table<H>) -> bool {
    &&& forall|i: int| 0 <= i < es.len() ==> (#[trigger] es[i]).codes.len() > 0
    &&& forall|i: int, j: int|
        0 <= i < j < es.len() ==> text::text_less(
            (#[trigger] es[i]).codes[0],
            (#[trigger] es[j]).codes[0],
        )
    &&& forall|i: int| 0 <= i < es.len() ==> reports_some(#[trigger] es[i], t)
    &&& forall|c: Seq<u8>| #[trigger]
        t.dom().contains(c) ==> begins_some(es, t[c].codes()[0])
}

struct Slot {
    code: Vec<u8>,
    handler: usize,
}

/// The dispatch table.
pub struct Registry<H = ThalesHandler> {
    handlers: Vec<Registered<H>>,
    slots: Vec<Slot>,
}

spec fn slot_at(slots: Seq<Slot>, code: Seq<u8>) -> int {
    choose|i: int| 0 <= i < slots.len() && slots[i].code@ == code
}

spec fn has_slot(slots: Seq<Slot>, code: Seq<u8>) -> bool {
    exists|i: int| 0 <= i < slots.len() && #[trigger] slots[i].code@ == code
}

spec fn slots_ascend(slots: Seq<Slot>) -> bool {
    forall|i: int, j: int|
        0 <= i < j < slots.len() ==> text::bytes_less(
            #[trigger] slots[i].code@,
            #[trigger] slots[j].code@,
        )
}

impl<H> View for Registry<H> {
    type V = Table<H>;

    closed spec fn view(&self) -> Table<H> {
        Map::new(
            |c: Seq<u8>| has_slot(self.slots@, c),
            |c: Seq<u8>| self.handlers@[self.slots@[slot_at(self.slots@, c)].handler as int],
        )
    }
}

impl<H: Handler> Registry<H> {
    /// The codes are in order, and each has a handler that answers to it.
    pub closed spec fn wf(&self) -> bool {
        &&& slots_ascend(self.slots@)
        &&& forall|i: int|
            0 <= i < self.slots@.len() ==> (#[trigger] self.slots@[i]).handler
                < self.handlers@.len()
        &&& forall|i: int|
            0 <= i < self.slots@.len() ==> coded(
                self.handlers@[(#[trigger] self.slots@[i]).handler as int].codes(),
                self.slots@[i].code@,
            )
    }

    proof fn lemma_slot(&self, i: int)
        requires
            self.wf(),
            0 <= i < self.slots@.len(),
        ensures
            self@.dom().contains(self.slots@[i].code@),
            self@[self.slots@[i].code@] == self.handlers@[self.slots@[i].handler as int],
    {
        let c = self.slots@[i].code@;
        assert(has_slot(self.slots@, c));
        let j = slot_at(self.slots@, c);
        assert(self.slots@[j].code@ == c);
        text::bytes_less_is_total(c, c);
        assert(i == j);
    }

    /// In every registry, each code of the table is one that its handler answers to.
    pub proof fn codes_belong_to_their_handlers(&self)
        requires
            self.wf(),
        ensures
            forall|c: Seq<u8>| #[trigger]
                self@.dom().contains(c) ==> coded(self@[c].codes(), c),
    {
        assert forall|c: Seq<u8>| #[trigger] self@.dom().contains(c) implies coded(
            self@[c].codes(),
            c,
        ) by {
            let i = slot_at(self.slots@, c);
            assert(self.slots@[i].code@ == c);
            self.lemma_slot(i);
        }
    }

    /// A table without entries.
    fn empty() -> (r: Registry<H>)
        ensures
            r.wf(),
            r@ == Map::<Seq<u8>, Registered<H>>::empty(),
    {
        let r: Registry<H> = Registry { handlers: Vec::new(), slots: Vec::new() };
        assert(r@ =~= Map::<Seq<u8>, Registered<H>>::empty());
        r
    }

    /// The number of codes below `code`.
    fn below(&self, code: &[u8]) -> (r: usize)
        requires
            self.wf(),
        ensures
            r <= self.slots@.len(),
            forall|i: int|
                0 <= i < r ==> text::bytes_less(#[trigger] self.slots@[i].code@, code@),
            forall|i: int|
                r <= i < self.slots@.len() ==> !text::bytes_less(
                    #[trigger] self.slots@[i].code@,
                    code@,
                ),
    {
        let mut p: usize = 0;
        while p < self.slots.len() && bytes_before(self.slots[p].code.as_slice(), code)
            invariant
                p <= self.slots@.len(),
                forall|i: int|
                    0 <= i < p ==> text::bytes_less(#[trigger] self.slots@[i].code@, code@),
            decreases self.slots@.len() - p,
        {
            p = p + 1;
        }
        proof {
            assert forall|i: int| p <= i < self.slots@.len() implies !text::bytes_less(
                #[trigger] self.slots@[i].code@,
                code@,
            ) by {
                if p < i && text::bytes_less(self.slots@[i].code@, code@) {
                    text::bytes_less_is_transitive(
                        self.slots@[p as int].code@,
                        self.slots@[i].code@,
                        code@,
                    );
                }
            }
        }
        p
    }

    /// Put handler number `handler` under `code`.
    fn put(&mut self, code: Vec<u8>, handler: usize)
        requires
            old(self).wf(),
            handler < old(self).handlers@.len(),
            coded(old(self).handlers@[handler as int].codes(), code@),
        ensures
            final(self).wf(),
            final(self).handlers == old(self).handlers,
            final(self)@ == old(self)@.insert(code@, old(self).handlers@[handler as int]),
    {
        let p: usize = self.below(code.as_slice());
        let ghost was = self.slots@;
        let ghost c = code@;
        let ghost h = self.handlers@[handler as int];
        if p < self.slots.len() && same_bytes(self.slots[p].code.as_slice(), code.as_slice()) {
            self.slots.set(p, Slot { code, handler });
            proof {
                let now = self.slots@;
                assert forall|i: int| 0 <= i < now.len() implies #[trigger] now[i].code@
                    == was[i].code@ by {}
                assert(slots_ascend(now)) by {
                    assert forall|i: int, j: int| 0 <= i < j < now.len() implies text::bytes_less(
                        #[trigger] now[i].code@,
                        #[trigger] now[j].code@,
                    ) by {
                        assert(text::bytes_less(was[i].code@, was[j].code@));
                    }
                }
                assert forall|x: Seq<u8>| has_slot(now, x) == has_slot(was, x) by {
                    if has_slot(now, x) {
                        assert(was[slot_at(now, x)].code@ == x);
                    }
                    if has_slot(was, x) {
                        assert(now[slot_at(was, x)].code@ == x);
                    }
                }
                assert(was[p as int].code@ == c);
                assert forall|x: Seq<u8>| #[trigger] self@.dom().contains(x) implies self@[x]
                    == old(self)@.insert(c, h)[x] by {
                    let i = slot_at(now, x);
                    self.lemma_slot(i);
                    old(self).lemma_slot(i);
                    self.lemma_slot(p as int);
                    assert(now[i].code@ == x);
                    if i != p {
                        assert(was[i].code@ == x);
                        text::bytes_less_is_total(x, x);
                        assert(now[i] == was[i]);
                        assert(x != c);
                    }
                }
                assert(self@ =~= old(self)@.insert(c, h));
            }
        } else {
            self.slots.insert(p, Slot { code, handler });
            proof {
                let now = self.slots@;
                assert(now[p as int].code@ == c);
                assert forall|i: int| 0 <= i < was.len() implies #[trigger] was[i] == now[if i < p {
                    i
                } else {
                    i + 1
                }] by {}
                assert(p < was.len() ==> text::bytes_less(c, was[p as int].code@)) by {
                    if p < was.len() {
                        text::bytes_less_is_total(c, was[p as int].code@);
                    }
                }
                assert(slots_ascend(now)) by {
                    assert forall|i: int, j: int| 0 <= i < j < now.len() implies text::bytes_less(
                        #[trigger] now[i].code@,
                        #[trigger] now[j].code@,
                    ) by {
                        let a = if i < p {
                            i
                        } else {
                            i - 1
                        };
                        let b = if j < p {
                            j
                        } else {
                            j - 1
                        };
                        if i == p {
                            assert(now[j] == was[b]);
                            if b > p {
                                text::bytes_less_is_transitive(
                                    c,
                                    was[p as int].code@,
                                    was[b].code@,
                                );
                            }
                        } else if j == p {
                            assert(now[i] == was[a]);
                        } else {
                            assert(now[i] == was[a] && now[j] == was[b]);
                            assert(text::bytes_less(was[a].code@, was[b].code@));
                        }
                    }
                }
                assert forall|i: int| 0 <= i < now.len() implies (#[trigger] now[i]).handler
                    < self.handlers@.len() && coded(
                    self.handlers@[now[i].handler as int].codes(),
                    now[i].code@,
                ) by {
                    if i != p {
                        let a = if i < p {
                            i
                        } else {
                            i - 1
                        };
                        assert(now[i] == was[a]);
                    }
                }
                assert forall|x: Seq<u8>| has_slot(now, x) == (x == c || has_slot(was, x)) by {
                    if has_slot(now, x) {
                        let i = slot_at(now, x);
                        if i != p {
                            assert(was[if i < p {
                                i
                            } else {
                                i - 1
                            }].code@ == x);
                        }
                    }
                    if has_slot(was, x) {
                        let i = slot_at(was, x);
                        assert(now[if i < p {
                            i
                        } else {
                            i + 1
                        }].code@ == x);
                    }
                }
                assert forall|x: Seq<u8>| #[trigger] self@.dom().contains(x) implies self@[x]
                    == old(self)@.insert(c, h)[x] by {
                    let i = slot_at(now, x);
                    assert(now[i].code@ == x);
                    self.lemma_slot(i);
                    if i == p {
                        self.lemma_slot(p as int);
                    } else {
                        let a = if i < p {
                            i
                        } else {
                            i - 1
                        };
                        assert(now[i] == was[a]);
                        old(self).lemma_slot(a);
                        text::bytes_less_is_total(x, c);
                        if i < p {
                            assert(text::bytes_less(now[i].code@, now[p as int].code@));
                        } else {
                            assert(text::bytes_less(now[p as int].code@, now[i].code@));
                        }
                        assert(x != c);
                    }
                }
                assert(self@ =~= old(self)@.insert(c, h));
            }
        }
    }

    fn add_handler(&mut self, h: Registered<H>)
        requires
            old(self).wf(),
        ensures
            final(self).wf(),
            final(self)@ == registered(old(self)@, h),
    {
        let codes: Vec<&'static str> = h.command_codes();
        let n: usize = self.handlers.len();
        let ghost start = self@;
        let ghost all = h.codes();
        self.handlers.push(h);
        proof {
            assert forall|i: int| 0 <= i < self.slots@.len() implies self.handlers@[(
            #[trigger] self.slots@[i]).handler as int] == old(
                self,
            ).handlers@[self.slots@[i].handler as int] by {}
            assert forall|x: Seq<u8>| #[trigger] self@.dom().contains(x) implies self@[x]
                == start[x] by {
                let i = slot_at(self.slots@, x);
                assert(self.slots@[i].code@ == x);
            }
            assert(self@ =~= start);
            assert(placed(start, h, all.take(0)) =~= start);
        }
        let mut k: usize = 0;
        while k < codes.len()
            invariant
                k <= codes@.len(),
                self.wf(),
                n < self.handlers@.len(),
                self.handlers@[n as int] == h,
                all == h.codes(),
                text::texts(codes@) == all,
                self@ == placed(start, h, all.take(k as int)),
            decreases codes@.len() - k,
        {
            let code: Vec<u8> = text_bytes(codes[k]);
            proof {
                assert(all[k as int] == codes@[k as int]@);
                assert(utf8::encode_utf8(all[k as int]) == code@);
                assert(coded(all, code@));
            }
            let ghost c = code@;
            let ghost before = self@;
            self.put(code, n);
            proof {
                let part = all.take(k as int);
                let more = all.take(k + 1);
                assert forall|x: Seq<u8>| coded(more, x) == (x == c || coded(part, x)) by {
                    if coded(more, x) {
                        let i = choose|i: int|
                            0 <= i < more.len() && utf8::encode_utf8(#[trigger] more[i]) == x;
                        if i < k {
                            assert(utf8::encode_utf8(part[i]) == x);
                        }
                    }
                    if coded(part, x) {
                        let i = choose|i: int|
                            0 <= i < part.len() && utf8::encode_utf8(#[trigger] part[i]) == x;
                        assert(utf8::encode_utf8(more[i]) == x);
                    }
                    if x == c {
                        assert(utf8::encode_utf8(more[k as int]) == x);
                    }
                }
                assert(self@ =~= placed(start, h, more));
            }
            k = k + 1;
        }
        assert(all.take(k as int) =~= all);
    }

    /// Register a handler under each of its command codes, over what stood there.
    pub fn register(&mut self, h: H)
        requires
            old(self).wf(),
        ensures
            final(self).wf(),
            final(self)@ == registered(old(self)@, Registered::Vendor(h)),
    {
        self.add_handler(Registered::Vendor(h))
    }

    /// The handler that answers to a command code.
    pub fn get(&self, command_code: &[u8]) -> (r: Option<&Registered<H>>)
        requires
            self.wf(),
        ensures
            match r {
                Some(h) => self@.dom().contains(command_code@) && self@[command_code@] == *h,
                None => !self@.dom().contains(command_code@),
            },
    {
        let p: usize = self.below(command_code);
        if p < self.slots.len() && same_bytes(self.slots[p].code.as_slice(), command_code) {
            proof {
                self.lemma_slot(p as int);
            }
            return Some(&self.handlers[self.slots[p].handler]);
        }
        proof {
            if has_slot(self.slots@, command_code@) {
                let i = slot_at(self.slots@, command_code@);
                assert(self.slots@[i].code@ == command_code@);
                text::bytes_less_is_total(command_code@, command_code@);
                assert(p < i);
                assert(text::bytes_less(self.slots@[p as int].code@, self.slots@[i].code@));
            }
        }
        None
    }

    /// All command codes, in ascending order.
    pub fn command_codes(&self) -> (r: Vec<Vec<u8>>)
        requires
            self.wf(),
        ensures
            forall|i: int, j: int|
                0 <= i < j < r@.len() ==> text::bytes_less(
                    (#[trigger] r@[i])@,
                    (#[trigger] r@[j])@,
                ),
            forall|c: Seq<u8>| #[trigger]
                self@.dom().contains(c) <==> exists|i: int| 0 <= i < r@.len() && (#[trigger] r@[i])@ == c,
    {
        let mut r: Vec<Vec<u8>> = Vec::new();
        let mut i: usize = 0;
        while i < self.slots.len()
            invariant
                i <= self.slots@.len(),
                r@.len() == i,
                forall|k: int| 0 <= k < i ==> (#[trigger] r@[k])@ == self.slots@[k].code@,
            decreases self.slots@.len() - i,
        {
            r.push(vstd::slice::slice_to_vec(self.slots[i].code.as_slice()));
            i = i + 1;
        }
        proof {
            assert forall|a: int, b: int| 0 <= a < b < r@.len() implies text::bytes_less(
                (#[trigger] r@[a])@,
                (#[trigger] r@[b])@,
            ) by {
                assert(text::bytes_less(self.slots@[a].code@, self.slots@[b].code@));
            }
            assert forall|c: Seq<u8>| #[trigger] self@.dom().contains(c) <==> exists|i: int|
                0 <= i < r@.len() && (#[trigger] r@[i])@ == c by {
                if has_slot(self.slots@, c) {
                    let k = slot_at(self.slots@, c);
                    assert(self.slots@[k].code@ == c);
                    assert(r@[k]@ == c);
                }
                if exists|i: int| 0 <= i < r@.len() && (#[trigger] r@[i])@ == c {
                    let k = choose|i: int| 0 <= i < r@.len() && (#[trigger] r@[i])@ == c;
                    assert(self.slots@[k].code@ == c);
                }
            }
        }
        r
    }

    /// What is reported of the handlers in the table.
    pub fn grounding_entries(&self) -> (r: Vec<Entry>)
        requires
            self.wf(),
        ensures
            is_listing(grounding::entry_views(r@), self@),
    {
        let mut r: Vec<Entry> = Vec::new();
        let mut i: usize = 0;
        let ghost t = self@;
        while i < self.slots.len()
            invariant
                self.wf(),
                t == self@,
                i <= self.slots@.len(),
                listing_so_far(r@, t),
                forall|k: int|
                    0 <= k < i ==> begins_some(
                        grounding::entry_views(r@),
                        self.handlers@[(#[trigger] self.slots@[k]).handler as int].codes()[0],
                    ),
            decreases self.slots@.len() - i,
        {
            let ghost c = self.slots@[i as int].code@;
            proof {
                self.lemma_slot(i as int);
                assert(coded(t[c].codes(), c));
            }
            let h: &Registered<H> = &self.handlers[self.slots[i].handler];
            let codes: Vec<&'static str> = h.command_codes();
            let first: &'static str = codes[0];
            let mut p: usize = 0;
            while p < r.len() && text_before(r[p].codes[0], first)
                invariant
                    p <= r@.len(),
                    forall|k: int| 0 <= k < r@.len() ==> (#[trigger] r@[k]).codes@.len() > 0,
                    forall|k: int|
                        0 <= k < p ==> text::text_less((#[trigger] r@[k]).codes@[0]@, first@),
                decreases r@.len() - p,
            {
                p = p + 1;
            }
            let ghost was = r@;
            if p == r.len() || !same_text(r[p].codes[0], first) {
                let evidence: Vec<Evidence> = h.grounding();
                r.insert(p, Entry { codes, evidence });
                proof {
                    assert(r@[p as int]@ == entry_of(t[c]));
                    lemma_listing_grows(was, r@, p as int, t, c);
                }
            } else {
                assert(grounding::entry_views(r@)[p as int].codes[0] == first@);
            }
            proof {
                assert forall|k: int| 0 <= k < i + 1 implies begins_some(
                    grounding::entry_views(r@),
                    self.handlers@[(#[trigger] self.slots@[k]).handler as int].codes()[0],
                ) by {
                    let code = self.handlers@[self.slots@[k].handler as int].codes()[0];
                    if k < i {
                        let a = choose|a: int|
                            0 <= a < was.len() && (#[trigger] grounding::entry_views(
                                was,
                            )[a]).codes[0] == code;
                        if r@.len() > was.len() {
                            let b = if a < p {
                                a
                            } else {
                                a + 1
                            };
                            assert(r@[b] == was[a]);
                            assert(grounding::entry_views(r@)[b].codes[0] == code);
                        }
                    } else {
                        assert(grounding::entry_views(r@)[p as int].codes[0] == code);
                    }
                }
            }
            i = i + 1;
        }
        proof {
            let es = grounding::entry_views(r@);
            assert forall|k: int| 0 <= k < es.len() implies (#[trigger] es[k]).codes.len() > 0
                && reports_some(es[k], t) by {
                assert(es[k] == r@[k]@);
            }
            assert forall|a: int, b: int| 0 <= a < b < es.len() implies text::text_less(
                (#[trigger] es[a]).codes[0],
                (#[trigger] es[b]).codes[0],
            ) by {
                assert(es[a] == r@[a]@ && es[b] == r@[b]@);
            }
            assert forall|c: Seq<u8>| #[trigger] t.dom().contains(c) implies begins_some(
                es,
                t[c].codes()[0],
            ) by {
                let k = slot_at(self.slots@, c);
                assert(self.slots@[k].code@ == c);
                self.lemma_slot(k);
            }
        }
        r
    }

    /// The grounding report of the handlers in the table.
    #[must_use]
    pub fn grounding_report(&self) -> (r: String)
        requires
            self.wf(),
        ensures
            exists|es: Seq<EntryView>| #[trigger]
                is_listing(es, self@) && r@ == grounding::report(es),
    {
        let entries: Vec<Entry> = self.grounding_entries();
        format_report(entries.as_slice())
    }

    /// The table of a vendor.
    pub fn for_module<M: VendorModule<Commands = H>>(module: &M) -> (r: Registry<H>)
        ensures
            r.wf(),
            r@ == vendor_table(module.listed()),
    {
        let mut r: Registry<H> = Registry::empty();
        let mut handlers: Vec<H> = module.handlers();
        let ghost hs = handlers@;
        let mut rest: Vec<H> = Vec::new();
        while handlers.len() > 0
            invariant
                handlers@ + rest@.reverse() == hs,
            decreases handlers@.len(),
        {
            let ghost before = handlers@;
            let ghost gone = rest@;
            match handlers.pop() {
                Some(h) => {
                    rest.push(h);
                    assert(handlers@ + rest@.reverse() =~= before + gone.reverse());
                },
                None => {},
            }
        }
        assert(rest@.reverse() =~= hs);
        assert(hs.take(0) =~= Seq::empty());
        while rest.len() > 0
            invariant
                r.wf(),
                rest@.len() <= hs.len(),
                rest@.reverse() == hs.skip(hs.len() - rest@.len()),
                r@ == all_registered(Map::empty(), hs.take(hs.len() - rest@.len())),
            decreases rest@.len(),
        {
            let ghost k = hs.len() - rest@.len();
            let ghost before = rest@;
            match rest.pop() {
                Some(h) => {
                    assert(before.reverse()[0] == h);
                    assert(hs.skip(k)[0] == h);
                    assert(hs.take(k + 1).drop_last() =~= hs.take(k));
                    r.register(h);
                    assert(rest@.reverse() =~= before.reverse().skip(1));
                    assert(hs.skip(k).skip(1) =~= hs.skip(k + 1));
                },
                None => {},
            }
        }
        assert(hs.take(hs.len() as int) =~= hs);
        r.add_handler(Registered::Unavailable(NotAvailableHandler));
        r
    }
}

impl Registry<ThalesHandler> {
    /// The payShield table.
    pub fn build() -> (r: Registry<ThalesHandler>)
        ensures
            r.wf(),
            r@ == vendor_table(ThalesModule.listed()),
    {
        Registry::for_module(&ThalesModule)
    }
}

spec fn listing_so_far<H: Handler>(es: Seq<Entry>, t: Table<H>) -> bool {
    &&& forall|i: int| 0 <= i < es.len() ==> (#[trigger] es[i]).codes@.len() > 0
    &&& forall|i: int, j: int|
        0 <= i < j < es.len() ==> text::text_less(
            (#[trigger] es[i]).codes@[0]@,
            (#[trigger] es[j]).codes@[0]@,
        )
    &&& forall|i: int| 0 <= i < es.len() ==> reports_some((#[trigger] es[i])@, t)
}

proof fn lemma_listing_grows<H: Handler>(
    was: Seq<Entry>,
    now: Seq<Entry>,
    p: int,
    t: Table<H>,
    c: Seq<u8>,
)
    requires
        listing_so_far(was, t),
        0 <= p <= was.len(),
        now == was.insert(p, now[p]),
        t.dom().contains(c),
        now[p]@ == entry_of(t[c]),
        now[p].codes@.len() > 0,
        forall|k: int| 0 <= k < p ==> text::text_less(
            (#[trigger] was[k]).codes@[0]@,
            now[p].codes@[0]@,
        ),
        p < was.len() ==> !text::text_less(was[p].codes@[0]@, now[p].codes@[0]@)
            && was[p].codes@[0]@ != now[p].codes@[0]@,
    ensures
        listing_so_far(now, t),
{
    let first = now[p].codes@[0]@;
    assert(p < was.len() ==> text::text_less(first, was[p].codes@[0]@)) by {
        if p < was.len() {
            let other = was[p].codes@[0]@;
            text::bytes_less_is_total(utf8::encode_utf8(first), utf8::encode_utf8(other));
            utf8::encode_utf8_decode_utf8(first);
            utf8::encode_utf8_decode_utf8(other);
        }
    }
    assert forall|i: int| 0 <= i < now.len() && i != p implies #[trigger] now[i] == was[if i < p {
        i
    } else {
        i - 1
    }] by {}
    assert forall|i: int, j: int| 0 <= i < j < now.len() implies text::text_less(
        (#[trigger] now[i]).codes@[0]@,
        (#[trigger] now[j]).codes@[0]@,
    ) by {
        let a = if i < p {
            i
        } else {
            i - 1
        };
        let b = if j < p {
            j
        } else {
            j - 1
        };
        if i == p {
            assert(now[j] == was[b]);
            if b > p {
                assert(text::text_less(was[p].codes@[0]@, was[b].codes@[0]@));
                text::bytes_less_is_transitive(
                    utf8::encode_utf8(first),
                    utf8::encode_utf8(was[p].codes@[0]@),
                    utf8::encode_utf8(was[b].codes@[0]@),
                );
            }
        } else if j == p {
            assert(now[i] == was[a]);
        } else {
            assert(now[i] == was[a] && now[j] == was[b]);
        }
    }
    assert forall|i: int| 0 <= i < now.len() implies reports_some((#[trigger] now[i])@, t) by {
        if i != p {
            let a = if i < p {
                i
            } else {
                i - 1
            };
            assert(now[i] == was[a]);
        }
    }
}

// ── laws ─────────────────────────────────────────────────────────────────────

/// A handler is found under each of its own codes after it was registered, and
/// nothing else has changed.
pub proof fn registering_changes_its_own_codes_alone<H: Handler>(
    t: Table<H>,
    h: Registered<H>,
    code: Seq<u8>,
)
    ensures
        coded(h.codes(), code) ==> registered(t, h).dom().contains(code) && registered(t, h)[code]
            == h,
        !coded(h.codes(), code) ==> registered(t, h).dom().contains(code) == t.dom().contains(
            code,
        ) && (t.dom().contains(code) ==> registered(t, h)[code] == t[code]),
{
}

/// To register a handler a second time changes nothing.
pub proof fn registering_twice_is_registering_once<H: Handler>(t: Table<H>, h: Registered<H>)
    ensures
        registered(registered(t, h), h) == registered(t, h),
{
    assert(registered(registered(t, h), h) =~= registered(t, h));
}

/// Whatever the handlers of a vendor, a command that has no equivalent is answered
/// as disabled.
pub proof fn unavailable_commands_are_disabled<H: Handler>(
    hs: Seq<H>,
    code: Seq<u8>,
    payload: Seq<u8>,
    keys: KeyTable,
)
    requires
        coded(NotAvailableHandler.codes(), code),
    ensures
        vendor_table(hs).dom().contains(code),
        vendor_table(hs)[code].step(code, payload, keys) == handlers::disabled(),
{
    let h = Registered::<H>::Unavailable(NotAvailableHandler);
    assert(h.codes() == NotAvailableHandler.codes());
}

/// In the table of a vendor every code has a handler that answers to it.
pub proof fn handlers_stand_under_their_own_codes<H: Handler>(hs: Seq<H>, code: Seq<u8>)
    ensures
        vendor_table(hs).dom().contains(code) ==> coded(vendor_table(hs)[code].codes(), code),
{
    lemma_own_codes(hs, code);
}

proof fn lemma_own_codes<H: Handler>(hs: Seq<H>, code: Seq<u8>)
    ensures
        ({
            let t = all_registered(Map::<Seq<u8>, Registered<H>>::empty(), hs);
            t.dom().contains(code) ==> coded(t[code].codes(), code)
        }),
    decreases hs.len(),
{
    if hs.len() > 0 {
        lemma_own_codes(hs.drop_last(), code);
    }
}

/// Every handler of a vendor is reached by each of its codes that neither a later
/// handler nor the one for commands without an equivalent lays claim to.
pub proof fn vendor_handlers_are_reached<H: Handler>(hs: Seq<H>, i: int, code: Seq<u8>)
    requires
        0 <= i < hs.len(),
        coded(hs[i].codes(), code),
        forall|j: int| i < j < hs.len() ==> !coded((#[trigger] hs[j]).codes(), code),
        !coded(NotAvailableHandler.codes(), code),
    ensures
        vendor_table(hs).dom().contains(code),
        vendor_table(hs)[code] == Registered::Vendor(hs[i]),
{
    lemma_reached(hs, i, code);
    let h = Registered::<H>::Unavailable(NotAvailableHandler);
    assert(h.codes() == NotAvailableHandler.codes());
}

proof fn lemma_reached<H: Handler>(hs: Seq<H>, i: int, code: Seq<u8>)
    requires
        0 <= i < hs.len(),
        coded(hs[i].codes(), code),
        forall|j: int| i < j < hs.len() ==> !coded((#[trigger] hs[j]).codes(), code),
    ensures
        ({
            let t = all_registered(Map::<Seq<u8>, Registered<H>>::empty(), hs);
            t.dom().contains(code) && t[code] == Registered::Vendor(hs[i])
        }),
    decreases hs.len(),
{
    let last = hs.len() - 1;
    let h = Registered::Vendor(hs[last]);
    assert(h.codes() == hs[last].codes());
    if i < last {
        assert(!coded(hs[last].codes(), code));
        let init = hs.drop_last();
        assert forall|j: int| i < j < init.len() implies !coded(
            (#[trigger] init[j]).codes(),
            code,
        ) by {
            assert(init[j] == hs[j]);
        }
        assert(init[i] == hs[i]);
        lemma_reached(init, i, code);
    }
}

/// Each payShield command stands under the handler that it is for: none of them is taken by
/// another handler, or answered as one that has no equivalent. The command is given by its two
/// letters.
pub proof fn payshield_commands_reach_their_handlers(first: char, second: char, h: ThalesHandler)
    requires
        ({
            ||| h == ThalesHandler::Pin(PinHandler) && (first == 'C' && (second == 'A'
                || second == 'C') || first == 'B' && second == 'Q' || first == 'G' && second == '0')
            ||| h == ThalesHandler::PinChange(PinChangeHandler) && (first == 'C' && second == 'U'
                || first == 'D' && second == 'U')
            ||| h == ThalesHandler::DieboldPin(DieboldPinHandler) && (first == 'C' && second == 'E'
                || first == 'G' && second == 'A')
            ||| h == ThalesHandler::RandomPin(RandomPinHandler) && (first == 'J' && second == 'A')
            ||| h == ThalesHandler::DukptPinVerify(DukptPinVerifyHandler) && (first == 'C'
                && (second == 'K' || second == 'M' || second == 'O' || second == 'Q'))
            ||| h == ThalesHandler::DukptPinVerifyAes(DukptPinVerifyAesHandler) && (first == 'G'
                && (second == 'O' || second == 'Q' || second == 'S' || second == 'U'))
            ||| h == ThalesHandler::PinVerifyNonDukpt(PinVerifyNonDukptHandler) && (first == 'D'
                && (second == 'A' || second == 'C') || first == 'E' && (second == 'A'
                || second == 'C'))
            ||| h == ThalesHandler::EncryptDecrypt(EncryptDecryptHandler) && (first == 'H'
                && (second == 'E' || second == 'G'))
            ||| h == ThalesHandler::InternationalEncrypt(InternationalEncryptHandler)
                && (first == 'M' && (second == '0' || second == '2' || second == '4'))
            ||| h == ThalesHandler::DukptMac(DukptMacHandler) && (first == 'G' && second == 'W')
            ||| h == ThalesHandler::IssuerScriptMac(IssuerScriptMacHandler) && (first == 'J'
                && second == 'U' || first == 'K' && (second == 'U' || second == 'Y'))
            ||| h == ThalesHandler::CapArqc(CapArqcHandler) && (first == 'K' && (second == '2'
                || second == 'S'))
            ||| h == ThalesHandler::EmvDecrypt(EmvDecryptHandler) && (first == 'K' && second == '0')
            ||| h == ThalesHandler::KqArqc(KqArqcHandler) && (first == 'K' && second == 'Q')
            ||| h == ThalesHandler::KwArqc(KwArqcHandler) && (first == 'K' && second == 'W')
            ||| h == ThalesHandler::UnionPayArqc(UnionPayArqcHandler) && (first == 'J'
                && second == 'S')
            ||| h == ThalesHandler::Hmac(HmacHandler) && (first == 'L' && (second == 'Q'
                || second == 'S'))
            ||| h == ThalesHandler::Mac(MacHandler) && (first == 'C' && (second == '2'
                || second == '4') || first == 'M' && (second == '6' || second == '8'))
            ||| h == ThalesHandler::MacTranslate(MacTranslateHandler) && (first == 'M'
                && second == 'Y')
            ||| h == ThalesHandler::LegacyMac(LegacyMacHandler) && (first == 'M' && (second == 'A'
                || second == 'C' || second == 'E' || second == 'K' || second == 'M'
                || second == 'O' || second == 'U' || second == 'W' || second == 'Q'
                || second == 'S'))
            ||| h == ThalesHandler::Cvv(CvvHandler) && (first == 'C' && (second == 'W'
                || second == 'Y') || first == 'N' && second == 'Y' || first == 'R' && second == 'Y')
            ||| h == ThalesHandler::DynamicCvv(DynamicCvvHandler) && (first == 'Q' && second == 'Y'
                || first == 'P' && second == 'M')
            ||| h == ThalesHandler::Heartbeat(HeartbeatHandler) && (first == 'B' && second == '2')
        }),
    ensures
        vendor_table(ThalesModule.listed()).dom().contains(text::ascii_2(first, second)),
        vendor_table(ThalesModule.listed())[text::ascii_2(first, second)] == Registered::Vendor(h),
{
    let hs = ThalesModule.listed();
    let code = text::ascii_2(first, second);
    let name = seq![first, second];
    utf8::is_ascii_chars_encode_utf8(name);
    assert(utf8::encode_utf8(name) =~= code);
    assert forall|codes: Seq<Seq<char>>| #[trigger] coded(codes, code) == codes.contains(name) by {
        lemma_coded(codes, name);
    }
    lemma_unavailable_codes(first, second);
    lemma_pin_codes(first, second);
    lemma_pin_change_codes(first, second);
    lemma_diebold_pin_codes(first, second);
    lemma_random_pin_codes(first, second);
    lemma_dukpt_pin_verify_codes(first, second);
    lemma_dukpt_pin_verify_aes_codes(first, second);
    lemma_pin_verify_non_dukpt_codes(first, second);
    lemma_encrypt_decrypt_codes(first, second);
    lemma_international_encrypt_codes(first, second);
    lemma_dukpt_mac_codes(first, second);
    lemma_issuer_script_mac_codes(first, second);
    lemma_cap_arqc_codes(first, second);
    lemma_emv_decrypt_codes(first, second);
    lemma_kq_arqc_codes(first, second);
    lemma_kw_arqc_codes(first, second);
    lemma_unionpay_arqc_codes(first, second);
    lemma_hmac_codes(first, second);
    lemma_mac_codes(first, second);
    lemma_mac_translate_codes(first, second);
    lemma_legacy_mac_codes(first, second);
    lemma_cvv_codes(first, second);
    lemma_dynamic_cvv_codes(first, second);
    lemma_heartbeat_codes(first, second);
    let i = if h is Pin {
        0int
    } else if h is PinChange {
        1
    } else if h is DieboldPin {
        2
    } else if h is RandomPin {
        3
    } else if h is DukptPinVerify {
        4
    } else if h is DukptPinVerifyAes {
        5
    } else if h is PinVerifyNonDukpt {
        6
    } else if h is EncryptDecrypt {
        7
    } else if h is InternationalEncrypt {
        8
    } else if h is DukptMac {
        9
    } else if h is IssuerScriptMac {
        10
    } else if h is CapArqc {
        11
    } else if h is EmvDecrypt {
        12
    } else if h is KqArqc {
        13
    } else if h is KwArqc {
        14
    } else if h is UnionPayArqc {
        15
    } else if h is Hmac {
        16
    } else if h is Mac {
        17
    } else if h is MacTranslate {
        18
    } else if h is LegacyMac {
        19
    } else if h is Cvv {
        20
    } else if h is DynamicCvv {
        21
    } else {
        22
    };
    assert(hs.len() == 23);
    assert(hs[0] == ThalesHandler::Pin(PinHandler));
    assert(hs[1] == ThalesHandler::PinChange(PinChangeHandler));
    assert(hs[2] == ThalesHandler::DieboldPin(DieboldPinHandler));
    assert(hs[3] == ThalesHandler::RandomPin(RandomPinHandler));
    assert(hs[4] == ThalesHandler::DukptPinVerify(DukptPinVerifyHandler));
    assert(hs[5] == ThalesHandler::DukptPinVerifyAes(DukptPinVerifyAesHandler));
    assert(hs[6] == ThalesHandler::PinVerifyNonDukpt(PinVerifyNonDukptHandler));
    assert(hs[7] == ThalesHandler::EncryptDecrypt(EncryptDecryptHandler));
    assert(hs[8] == ThalesHandler::InternationalEncrypt(InternationalEncryptHandler));
    assert(hs[9] == ThalesHandler::DukptMac(DukptMacHandler));
    assert(hs[10] == ThalesHandler::IssuerScriptMac(IssuerScriptMacHandler));
    assert(hs[11] == ThalesHandler::CapArqc(CapArqcHandler));
    assert(hs[12] == ThalesHandler::EmvDecrypt(EmvDecryptHandler));
    assert(hs[13] == ThalesHandler::KqArqc(KqArqcHandler));
    assert(hs[14] == ThalesHandler::KwArqc(KwArqcHandler));
    assert(hs[15] == ThalesHandler::UnionPayArqc(UnionPayArqcHandler));
    assert(hs[16] == ThalesHandler::Hmac(HmacHandler));
    assert(hs[17] == ThalesHandler::Mac(MacHandler));
    assert(hs[18] == ThalesHandler::MacTranslate(MacTranslateHandler));
    assert(hs[19] == ThalesHandler::LegacyMac(LegacyMacHandler));
    assert(hs[20] == ThalesHandler::Cvv(CvvHandler));
    assert(hs[21] == ThalesHandler::DynamicCvv(DynamicCvvHandler));
    assert(hs[22] == ThalesHandler::Heartbeat(HeartbeatHandler));
    vendor_handlers_are_reached(hs, i, code);
}

proof fn lemma_coded(codes: Seq<Seq<char>>, name: Seq<char>)
    ensures
        coded(codes, utf8::encode_utf8(name)) == codes.contains(name),
{
    let code = utf8::encode_utf8(name);
    if coded(codes, code) {
        let k = choose|k: int| 0 <= k < codes.len()
            && utf8::encode_utf8(#[trigger] codes[k]) == code;
        utf8::encode_utf8_decode_utf8(codes[k]);
        utf8::encode_utf8_decode_utf8(name);
        assert(codes[k] == name);
    }
    if codes.contains(name) {
        let k = codes.index_of(name);
        assert(utf8::encode_utf8(codes[k]) == code);
    }
}

proof fn lemma_pin_codes(first: char, second: char)
    ensures
        PinHandler.codes().contains(seq![first, second]) <==> (first == 'C' && (second == 'A'
            || second == 'C') || first == 'B' && second == 'Q' || first == 'G' && second == '0'),
{
    let codes = PinHandler.codes();
    let name = seq![first, second];
    reveal_strlit("CA");
    reveal_strlit("CC");
    reveal_strlit("BQ");
    reveal_strlit("G0");
    assert("CA"@ =~= seq!['C', 'A']);
    assert("CC"@ =~= seq!['C', 'C']);
    assert("BQ"@ =~= seq!['B', 'Q']);
    assert("G0"@ =~= seq!['G', '0']);
    assert(codes[0] == "CA"@);
    assert(codes[1] == "CC"@);
    assert(codes[2] == "BQ"@);
    assert(codes[3] == "G0"@);
    assert(codes.len() == 4);
    assert(name[0] == first && name[1] == second);
    if codes.contains(name) {
        let k = codes.index_of(name);
        assert(codes[k] == name);
        assert(codes[k][0] == first && codes[k][1] == second);
    }
}

proof fn lemma_pin_change_codes(first: char, second: char)
    ensures
        PinChangeHandler.codes().contains(seq![first, second]) <==> (first == 'C' && second == 'U'
            || first == 'D' && second == 'U'),
{
    let codes = PinChangeHandler.codes();
    let name = seq![first, second];
    reveal_strlit("CU");
    reveal_strlit("DU");
    assert("CU"@ =~= seq!['C', 'U']);
    assert("DU"@ =~= seq!['D', 'U']);
    assert(codes[0] == "CU"@);
    assert(codes[1] == "DU"@);
    assert(codes.len() == 2);
    assert(name[0] == first && name[1] == second);
    if codes.contains(name) {
        let k = codes.index_of(name);
        assert(codes[k] == name);
        assert(codes[k][0] == first && codes[k][1] == second);
    }
}

proof fn lemma_diebold_pin_codes(first: char, second: char)
    ensures
        DieboldPinHandler.codes().contains(seq![first, second]) <==> (first == 'C' && second == 'E'
            || first == 'G' && second == 'A'),
{
    let codes = DieboldPinHandler.codes();
    let name = seq![first, second];
    reveal_strlit("CE");
    reveal_strlit("GA");
    assert("CE"@ =~= seq!['C', 'E']);
    assert("GA"@ =~= seq!['G', 'A']);
    assert(codes[0] == "CE"@);
    assert(codes[1] == "GA"@);
    assert(codes.len() == 2);
    assert(name[0] == first && name[1] == second);
    if codes.contains(name) {
        let k = codes.index_of(name);
        assert(codes[k] == name);
        assert(codes[k][0] == first && codes[k][1] == second);
    }
}

proof fn lemma_random_pin_codes(first: char, second: char)
    ensures
        RandomPinHandler.codes().contains(seq![first, second]) <==> (first == 'J' && second == 'A'),
{
    let codes = RandomPinHandler.codes();
    let name = seq![first, second];
    reveal_strlit("JA");
    assert("JA"@ =~= seq!['J', 'A']);
    assert(codes[0] == "JA"@);
    assert(codes.len() == 1);
    assert(name[0] == first && name[1] == second);
    if codes.contains(name) {
        let k = codes.index_of(name);
        assert(codes[k] == name);
        assert(codes[k][0] == first && codes[k][1] == second);
    }
}

proof fn lemma_dukpt_pin_verify_codes(first: char, second: char)
    ensures
        DukptPinVerifyHandler.codes().contains(seq![first, second]) <==> (first == 'C'
            && (second == 'K' || second == 'M' || second == 'O' || second == 'Q')),
{
    let codes = DukptPinVerifyHandler.codes();
    let name = seq![first, second];
    reveal_strlit("CK");
    reveal_strlit("CM");
    reveal_strlit("CO");
    reveal_strlit("CQ");
    assert("CK"@ =~= seq!['C', 'K']);
    assert("CM"@ =~= seq!['C', 'M']);
    assert("CO"@ =~= seq!['C', 'O']);
    assert("CQ"@ =~= seq!['C', 'Q']);
    assert(codes[0] == "CK"@);
    assert(codes[1] == "CM"@);
    assert(codes[2] == "CO"@);
    assert(codes[3] == "CQ"@);
    assert(codes.len() == 4);
    assert(name[0] == first && name[1] == second);
    if codes.contains(name) {
        let k = codes.index_of(name);
        assert(codes[k] == name);
        assert(codes[k][0] == first && codes[k][1] == second);
    }
}

proof fn lemma_dukpt_pin_verify_aes_codes(first: char, second: char)
    ensures
        DukptPinVerifyAesHandler.codes().contains(seq![first, second]) <==> (first == 'G'
            && (second == 'O' || second == 'Q' || second == 'S' || second == 'U')),
{
    let codes = DukptPinVerifyAesHandler.codes();
    let name = seq![first, second];
    reveal_strlit("GO");
    reveal_strlit("GQ");
    reveal_strlit("GS");
    reveal_strlit("GU");
    assert("GO"@ =~= seq!['G', 'O']);
    assert("GQ"@ =~= seq!['G', 'Q']);
    assert("GS"@ =~= seq!['G', 'S']);
    assert("GU"@ =~= seq!['G', 'U']);
    assert(codes[0] == "GO"@);
    assert(codes[1] == "GQ"@);
    assert(codes[2] == "GS"@);
    assert(codes[3] == "GU"@);
    assert(codes.len() == 4);
    assert(name[0] == first && name[1] == second);
    if codes.contains(name) {
        let k = codes.index_of(name);
        assert(codes[k] == name);
        assert(codes[k][0] == first && codes[k][1] == second);
    }
}

proof fn lemma_pin_verify_non_dukpt_codes(first: char, second: char)
    ensures
        PinVerifyNonDukptHandler.codes().contains(seq![first, second]) <==> (first == 'D'
            && (second == 'A' || second == 'C') || first == 'E' && (second == 'A'
            || second == 'C')),
{
    let codes = PinVerifyNonDukptHandler.codes();
    let name = seq![first, second];
    reveal_strlit("DA");
    reveal_strlit("DC");
    reveal_strlit("EA");
    reveal_strlit("EC");
    assert("DA"@ =~= seq!['D', 'A']);
    assert("DC"@ =~= seq!['D', 'C']);
    assert("EA"@ =~= seq!['E', 'A']);
    assert("EC"@ =~= seq!['E', 'C']);
    assert(codes[0] == "DA"@);
    assert(codes[1] == "DC"@);
    assert(codes[2] == "EA"@);
    assert(codes[3] == "EC"@);
    assert(codes.len() == 4);
    assert(name[0] == first && name[1] == second);
    if codes.contains(name) {
        let k = codes.index_of(name);
        assert(codes[k] == name);
        assert(codes[k][0] == first && codes[k][1] == second);
    }
}

proof fn lemma_encrypt_decrypt_codes(first: char, second: char)
    ensures
        EncryptDecryptHandler.codes().contains(seq![first, second]) <==> (first == 'H'
            && (second == 'E' || second == 'G')),
{
    let codes = EncryptDecryptHandler.codes();
    let name = seq![first, second];
    reveal_strlit("HE");
    reveal_strlit("HG");
    assert("HE"@ =~= seq!['H', 'E']);
    assert("HG"@ =~= seq!['H', 'G']);
    assert(codes[0] == "HE"@);
    assert(codes[1] == "HG"@);
    assert(codes.len() == 2);
    assert(name[0] == first && name[1] == second);
    if codes.contains(name) {
        let k = codes.index_of(name);
        assert(codes[k] == name);
        assert(codes[k][0] == first && codes[k][1] == second);
    }
}

proof fn lemma_international_encrypt_codes(first: char, second: char)
    ensures
        InternationalEncryptHandler.codes().contains(seq![first, second]) <==> (first == 'M'
            && (second == '0' || second == '2' || second == '4')),
{
    let codes = InternationalEncryptHandler.codes();
    let name = seq![first, second];
    reveal_strlit("M0");
    reveal_strlit("M2");
    reveal_strlit("M4");
    assert("M0"@ =~= seq!['M', '0']);
    assert("M2"@ =~= seq!['M', '2']);
    assert("M4"@ =~= seq!['M', '4']);
    assert(codes[0] == "M0"@);
    assert(codes[1] == "M2"@);
    assert(codes[2] == "M4"@);
    assert(codes.len() == 3);
    assert(name[0] == first && name[1] == second);
    if codes.contains(name) {
        let k = codes.index_of(name);
        assert(codes[k] == name);
        assert(codes[k][0] == first && codes[k][1] == second);
    }
}

proof fn lemma_dukpt_mac_codes(first: char, second: char)
    ensures
        DukptMacHandler.codes().contains(seq![first, second]) <==> (first == 'G' && second == 'W'),
{
    let codes = DukptMacHandler.codes();
    let name = seq![first, second];
    reveal_strlit("GW");
    assert("GW"@ =~= seq!['G', 'W']);
    assert(codes[0] == "GW"@);
    assert(codes.len() == 1);
    assert(name[0] == first && name[1] == second);
    if codes.contains(name) {
        let k = codes.index_of(name);
        assert(codes[k] == name);
        assert(codes[k][0] == first && codes[k][1] == second);
    }
}

proof fn lemma_issuer_script_mac_codes(first: char, second: char)
    ensures
        IssuerScriptMacHandler.codes().contains(seq![first, second]) <==> (first == 'J'
            && second == 'U' || first == 'K' && (second == 'U' || second == 'Y')),
{
    let codes = IssuerScriptMacHandler.codes();
    let name = seq![first, second];
    reveal_strlit("JU");
    reveal_strlit("KU");
    reveal_strlit("KY");
    assert("JU"@ =~= seq!['J', 'U']);
    assert("KU"@ =~= seq!['K', 'U']);
    assert("KY"@ =~= seq!['K', 'Y']);
    assert(codes[0] == "JU"@);
    assert(codes[1] == "KU"@);
    assert(codes[2] == "KY"@);
    assert(codes.len() == 3);
    assert(name[0] == first && name[1] == second);
    if codes.contains(name) {
        let k = codes.index_of(name);
        assert(codes[k] == name);
        assert(codes[k][0] == first && codes[k][1] == second);
    }
}

proof fn lemma_cap_arqc_codes(first: char, second: char)
    ensures
        CapArqcHandler.codes().contains(seq![first, second]) <==> (first == 'K' && (second == '2'
            || second == 'S')),
{
    let codes = CapArqcHandler.codes();
    let name = seq![first, second];
    reveal_strlit("K2");
    reveal_strlit("KS");
    assert("K2"@ =~= seq!['K', '2']);
    assert("KS"@ =~= seq!['K', 'S']);
    assert(codes[0] == "K2"@);
    assert(codes[1] == "KS"@);
    assert(codes.len() == 2);
    assert(name[0] == first && name[1] == second);
    if codes.contains(name) {
        let k = codes.index_of(name);
        assert(codes[k] == name);
        assert(codes[k][0] == first && codes[k][1] == second);
    }
}

proof fn lemma_emv_decrypt_codes(first: char, second: char)
    ensures
        EmvDecryptHandler.codes().contains(seq![first, second]) <==> (first == 'K'
            && second == '0'),
{
    let codes = EmvDecryptHandler.codes();
    let name = seq![first, second];
    reveal_strlit("K0");
    assert("K0"@ =~= seq!['K', '0']);
    assert(codes[0] == "K0"@);
    assert(codes.len() == 1);
    assert(name[0] == first && name[1] == second);
    if codes.contains(name) {
        let k = codes.index_of(name);
        assert(codes[k] == name);
        assert(codes[k][0] == first && codes[k][1] == second);
    }
}

proof fn lemma_kq_arqc_codes(first: char, second: char)
    ensures
        KqArqcHandler.codes().contains(seq![first, second]) <==> (first == 'K' && second == 'Q'),
{
    let codes = KqArqcHandler.codes();
    let name = seq![first, second];
    reveal_strlit("KQ");
    assert("KQ"@ =~= seq!['K', 'Q']);
    assert(codes[0] == "KQ"@);
    assert(codes.len() == 1);
    assert(name[0] == first && name[1] == second);
    if codes.contains(name) {
        let k = codes.index_of(name);
        assert(codes[k] == name);
        assert(codes[k][0] == first && codes[k][1] == second);
    }
}

proof fn lemma_kw_arqc_codes(first: char, second: char)
    ensures
        KwArqcHandler.codes().contains(seq![first, second]) <==> (first == 'K' && second == 'W'),
{
    let codes = KwArqcHandler.codes();
    let name = seq![first, second];
    reveal_strlit("KW");
    assert("KW"@ =~= seq!['K', 'W']);
    assert(codes[0] == "KW"@);
    assert(codes.len() == 1);
    assert(name[0] == first && name[1] == second);
    if codes.contains(name) {
        let k = codes.index_of(name);
        assert(codes[k] == name);
        assert(codes[k][0] == first && codes[k][1] == second);
    }
}

proof fn lemma_unionpay_arqc_codes(first: char, second: char)
    ensures
        UnionPayArqcHandler.codes().contains(seq![first, second]) <==> (first == 'J'
            && second == 'S'),
{
    let codes = UnionPayArqcHandler.codes();
    let name = seq![first, second];
    reveal_strlit("JS");
    assert("JS"@ =~= seq!['J', 'S']);
    assert(codes[0] == "JS"@);
    assert(codes.len() == 1);
    assert(name[0] == first && name[1] == second);
    if codes.contains(name) {
        let k = codes.index_of(name);
        assert(codes[k] == name);
        assert(codes[k][0] == first && codes[k][1] == second);
    }
}

proof fn lemma_hmac_codes(first: char, second: char)
    ensures
        HmacHandler.codes().contains(seq![first, second]) <==> (first == 'L' && (second == 'Q'
            || second == 'S')),
{
    let codes = HmacHandler.codes();
    let name = seq![first, second];
    reveal_strlit("LQ");
    reveal_strlit("LS");
    assert("LQ"@ =~= seq!['L', 'Q']);
    assert("LS"@ =~= seq!['L', 'S']);
    assert(codes[0] == "LQ"@);
    assert(codes[1] == "LS"@);
    assert(codes.len() == 2);
    assert(name[0] == first && name[1] == second);
    if codes.contains(name) {
        let k = codes.index_of(name);
        assert(codes[k] == name);
        assert(codes[k][0] == first && codes[k][1] == second);
    }
}

proof fn lemma_mac_codes(first: char, second: char)
    ensures
        MacHandler.codes().contains(seq![first, second]) <==> (first == 'C' && (second == '2'
            || second == '4') || first == 'M' && (second == '6' || second == '8')),
{
    let codes = MacHandler.codes();
    let name = seq![first, second];
    reveal_strlit("C2");
    reveal_strlit("C4");
    reveal_strlit("M6");
    reveal_strlit("M8");
    assert("C2"@ =~= seq!['C', '2']);
    assert("C4"@ =~= seq!['C', '4']);
    assert("M6"@ =~= seq!['M', '6']);
    assert("M8"@ =~= seq!['M', '8']);
    assert(codes[0] == "C2"@);
    assert(codes[1] == "C4"@);
    assert(codes[2] == "M6"@);
    assert(codes[3] == "M8"@);
    assert(codes.len() == 4);
    assert(name[0] == first && name[1] == second);
    if codes.contains(name) {
        let k = codes.index_of(name);
        assert(codes[k] == name);
        assert(codes[k][0] == first && codes[k][1] == second);
    }
}

proof fn lemma_mac_translate_codes(first: char, second: char)
    ensures
        MacTranslateHandler.codes().contains(seq![first, second]) <==> (first == 'M'
            && second == 'Y'),
{
    let codes = MacTranslateHandler.codes();
    let name = seq![first, second];
    reveal_strlit("MY");
    assert("MY"@ =~= seq!['M', 'Y']);
    assert(codes[0] == "MY"@);
    assert(codes.len() == 1);
    assert(name[0] == first && name[1] == second);
    if codes.contains(name) {
        let k = codes.index_of(name);
        assert(codes[k] == name);
        assert(codes[k][0] == first && codes[k][1] == second);
    }
}

proof fn lemma_legacy_mac_codes(first: char, second: char)
    ensures
        LegacyMacHandler.codes().contains(seq![first, second]) <==> (first == 'M' && (second == 'A'
            || second == 'C' || second == 'E' || second == 'K' || second == 'M' || second == 'O'
            || second == 'U' || second == 'W' || second == 'Q' || second == 'S')),
{
    let codes = LegacyMacHandler.codes();
    let name = seq![first, second];
    reveal_strlit("MA");
    reveal_strlit("MC");
    reveal_strlit("ME");
    reveal_strlit("MK");
    reveal_strlit("MM");
    reveal_strlit("MO");
    reveal_strlit("MU");
    reveal_strlit("MW");
    reveal_strlit("MQ");
    reveal_strlit("MS");
    assert("MA"@ =~= seq!['M', 'A']);
    assert("MC"@ =~= seq!['M', 'C']);
    assert("ME"@ =~= seq!['M', 'E']);
    assert("MK"@ =~= seq!['M', 'K']);
    assert("MM"@ =~= seq!['M', 'M']);
    assert("MO"@ =~= seq!['M', 'O']);
    assert("MU"@ =~= seq!['M', 'U']);
    assert("MW"@ =~= seq!['M', 'W']);
    assert("MQ"@ =~= seq!['M', 'Q']);
    assert("MS"@ =~= seq!['M', 'S']);
    assert(codes[0] == "MA"@);
    assert(codes[1] == "MC"@);
    assert(codes[2] == "ME"@);
    assert(codes[3] == "MK"@);
    assert(codes[4] == "MM"@);
    assert(codes[5] == "MO"@);
    assert(codes[6] == "MU"@);
    assert(codes[7] == "MW"@);
    assert(codes[8] == "MQ"@);
    assert(codes[9] == "MS"@);
    assert(codes.len() == 10);
    assert(name[0] == first && name[1] == second);
    if codes.contains(name) {
        let k = codes.index_of(name);
        assert(codes[k] == name);
        assert(codes[k][0] == first && codes[k][1] == second);
    }
}

proof fn lemma_cvv_codes(first: char, second: char)
    ensures
        CvvHandler.codes().contains(seq![first, second]) <==> (first == 'C' && (second == 'W'
            || second == 'Y') || first == 'N' && second == 'Y' || first == 'R' && second == 'Y'),
{
    let codes = CvvHandler.codes();
    let name = seq![first, second];
    reveal_strlit("CW");
    reveal_strlit("CY");
    reveal_strlit("NY");
    reveal_strlit("RY");
    assert("CW"@ =~= seq!['C', 'W']);
    assert("CY"@ =~= seq!['C', 'Y']);
    assert("NY"@ =~= seq!['N', 'Y']);
    assert("RY"@ =~= seq!['R', 'Y']);
    assert(codes[0] == "CW"@);
    assert(codes[1] == "CY"@);
    assert(codes[2] == "NY"@);
    assert(codes[3] == "RY"@);
    assert(codes.len() == 4);
    assert(name[0] == first && name[1] == second);
    if codes.contains(name) {
        let k = codes.index_of(name);
        assert(codes[k] == name);
        assert(codes[k][0] == first && codes[k][1] == second);
    }
}

proof fn lemma_dynamic_cvv_codes(first: char, second: char)
    ensures
        DynamicCvvHandler.codes().contains(seq![first, second]) <==> (first == 'Q' && second == 'Y'
            || first == 'P' && second == 'M'),
{
    let codes = DynamicCvvHandler.codes();
    let name = seq![first, second];
    reveal_strlit("QY");
    reveal_strlit("PM");
    assert("QY"@ =~= seq!['Q', 'Y']);
    assert("PM"@ =~= seq!['P', 'M']);
    assert(codes[0] == "QY"@);
    assert(codes[1] == "PM"@);
    assert(codes.len() == 2);
    assert(name[0] == first && name[1] == second);
    if codes.contains(name) {
        let k = codes.index_of(name);
        assert(codes[k] == name);
        assert(codes[k][0] == first && codes[k][1] == second);
    }
}

proof fn lemma_heartbeat_codes(first: char, second: char)
    ensures
        HeartbeatHandler.codes().contains(seq![first, second]) <==> (first == 'B' && second == '2'),
{
    let codes = HeartbeatHandler.codes();
    let name = seq![first, second];
    reveal_strlit("B2");
    assert("B2"@ =~= seq!['B', '2']);
    assert(codes[0] == "B2"@);
    assert(codes.len() == 1);
    assert(name[0] == first && name[1] == second);
    if codes.contains(name) {
        let k = codes.index_of(name);
        assert(codes[k] == name);
        assert(codes[k][0] == first && codes[k][1] == second);
    }
}

proof fn lemma_unavailable_codes(first: char, second: char)
    ensures
        NotAvailableHandler.codes().contains(seq![first, second]) <==> (first == 'A'
            && (second == 'Q' || second == '0' || second == '4' || second == '6' || second == '8'
            || second == 'A' || second == 'C' || second == 'E' || second == 'G' || second == 'K'
            || second == 'M' || second == 'S' || second == 'U' || second == 'W') || first == 'B'
            && (second == 'A' || second == 'C' || second == 'E' || second == 'K' || second == 'I'
            || second == '0' || second == '8' || second == 'G' || second == 'U' || second == 'W'
            || second == 'S' || second == 'Y') || first == 'C' && (second == 'G' || second == 'S')
            || first == 'D' && (second == 'E' || second == 'G' || second == 'W' || second == 'Y')
            || first == 'E' && (second == 'E' || second == 'G' || second == 'M' || second == 'U'
            || second == 'W' || second == 'Y') || first == 'F' && (second == 'W' || second == 'A'
            || second == 'C' || second == 'E' || second == 'G' || second == 'K') || first == 'J'
            && (second == 'C' || second == 'E' || second == 'G' || second == '6' || second == '8'
            || second == 'K') || first == 'L' && (second == 'E' || second == 'G' || second == 'O'
            || second == '0' || second == 'U' || second == 'W') || first == 'N' && (second == 'G'
            || second == '0' || second == 'C' || second == 'I' || second == 'O') || first == 'G'
            && (second == 'M' || second == 'C' || second == 'E' || second == 'G' || second == 'K'
            || second == 'Y') || first == 'H' && (second == 'A' || second == 'C' || second == 'Y')
            || first == 'I' && second == 'A' || first == 'K' && (second == '8' || second == 'A'
            || second == 'C' || second == 'G' || second == 'I') || first == 'M' && (second == 'G'
            || second == 'I') || first == 'Q' && (second == '0' || second == '6' || second == '8'
            || second == 'H') || first == 'R' && second == 'A' || first == 'S' && second == 'E'
            || first == 'T' && (second == 'G' || second == 'Y') || first == 'U' && second == 'I'
            || first == 'V' && (second == 'W' || second == 'Y') || first == 'W' && (second == 'C'
            || second == 'Q' || second == 'W' || second == 'Y')),
{
    let codes = NotAvailableHandler.codes();
    let name = seq![first, second];
    reveal_strlit("AQ");
    reveal_strlit("BA");
    reveal_strlit("BC");
    reveal_strlit("BE");
    reveal_strlit("BK");
    reveal_strlit("CG");
    reveal_strlit("DE");
    reveal_strlit("DG");
    reveal_strlit("EE");
    reveal_strlit("EG");
    reveal_strlit("FW");
    reveal_strlit("JC");
    reveal_strlit("JE");
    reveal_strlit("JG");
    reveal_strlit("LE");
    reveal_strlit("LG");
    reveal_strlit("LO");
    reveal_strlit("NG");
    reveal_strlit("EM");
    reveal_strlit("EU");
    reveal_strlit("EW");
    reveal_strlit("EY");
    reveal_strlit("GM");
    reveal_strlit("A0");
    reveal_strlit("A4");
    reveal_strlit("A6");
    reveal_strlit("A8");
    reveal_strlit("AA");
    reveal_strlit("AC");
    reveal_strlit("AE");
    reveal_strlit("AG");
    reveal_strlit("AK");
    reveal_strlit("AM");
    reveal_strlit("AS");
    reveal_strlit("AU");
    reveal_strlit("AW");
    reveal_strlit("BI");
    reveal_strlit("B0");
    reveal_strlit("B8");
    reveal_strlit("BG");
    reveal_strlit("BU");
    reveal_strlit("BW");
    reveal_strlit("BS");
    reveal_strlit("BY");
    reveal_strlit("CS");
    reveal_strlit("DW");
    reveal_strlit("DY");
    reveal_strlit("FA");
    reveal_strlit("FC");
    reveal_strlit("FE");
    reveal_strlit("FG");
    reveal_strlit("FK");
    reveal_strlit("GC");
    reveal_strlit("GE");
    reveal_strlit("GG");
    reveal_strlit("GK");
    reveal_strlit("GY");
    reveal_strlit("HA");
    reveal_strlit("HC");
    reveal_strlit("HY");
    reveal_strlit("IA");
    reveal_strlit("J6");
    reveal_strlit("J8");
    reveal_strlit("JK");
    reveal_strlit("K8");
    reveal_strlit("KA");
    reveal_strlit("KC");
    reveal_strlit("KG");
    reveal_strlit("KI");
    reveal_strlit("L0");
    reveal_strlit("LU");
    reveal_strlit("LW");
    reveal_strlit("MG");
    reveal_strlit("MI");
    reveal_strlit("N0");
    reveal_strlit("NC");
    reveal_strlit("NI");
    reveal_strlit("NO");
    reveal_strlit("Q0");
    reveal_strlit("Q6");
    reveal_strlit("Q8");
    reveal_strlit("QH");
    reveal_strlit("RA");
    reveal_strlit("SE");
    reveal_strlit("TG");
    reveal_strlit("TY");
    reveal_strlit("UI");
    reveal_strlit("VW");
    reveal_strlit("VY");
    reveal_strlit("WC");
    reveal_strlit("WQ");
    reveal_strlit("WW");
    reveal_strlit("WY");
    assert("AQ"@ =~= seq!['A', 'Q']);
    assert("BA"@ =~= seq!['B', 'A']);
    assert("BC"@ =~= seq!['B', 'C']);
    assert("BE"@ =~= seq!['B', 'E']);
    assert("BK"@ =~= seq!['B', 'K']);
    assert("CG"@ =~= seq!['C', 'G']);
    assert("DE"@ =~= seq!['D', 'E']);
    assert("DG"@ =~= seq!['D', 'G']);
    assert("EE"@ =~= seq!['E', 'E']);
    assert("EG"@ =~= seq!['E', 'G']);
    assert("FW"@ =~= seq!['F', 'W']);
    assert("JC"@ =~= seq!['J', 'C']);
    assert("JE"@ =~= seq!['J', 'E']);
    assert("JG"@ =~= seq!['J', 'G']);
    assert("LE"@ =~= seq!['L', 'E']);
    assert("LG"@ =~= seq!['L', 'G']);
    assert("LO"@ =~= seq!['L', 'O']);
    assert("NG"@ =~= seq!['N', 'G']);
    assert("EM"@ =~= seq!['E', 'M']);
    assert("EU"@ =~= seq!['E', 'U']);
    assert("EW"@ =~= seq!['E', 'W']);
    assert("EY"@ =~= seq!['E', 'Y']);
    assert("GM"@ =~= seq!['G', 'M']);
    assert("A0"@ =~= seq!['A', '0']);
    assert("A4"@ =~= seq!['A', '4']);
    assert("A6"@ =~= seq!['A', '6']);
    assert("A8"@ =~= seq!['A', '8']);
    assert("AA"@ =~= seq!['A', 'A']);
    assert("AC"@ =~= seq!['A', 'C']);
    assert("AE"@ =~= seq!['A', 'E']);
    assert("AG"@ =~= seq!['A', 'G']);
    assert("AK"@ =~= seq!['A', 'K']);
    assert("AM"@ =~= seq!['A', 'M']);
    assert("AS"@ =~= seq!['A', 'S']);
    assert("AU"@ =~= seq!['A', 'U']);
    assert("AW"@ =~= seq!['A', 'W']);
    assert("BI"@ =~= seq!['B', 'I']);
    assert("B0"@ =~= seq!['B', '0']);
    assert("B8"@ =~= seq!['B', '8']);
    assert("BG"@ =~= seq!['B', 'G']);
    assert("BU"@ =~= seq!['B', 'U']);
    assert("BW"@ =~= seq!['B', 'W']);
    assert("BS"@ =~= seq!['B', 'S']);
    assert("BY"@ =~= seq!['B', 'Y']);
    assert("CS"@ =~= seq!['C', 'S']);
    assert("DW"@ =~= seq!['D', 'W']);
    assert("DY"@ =~= seq!['D', 'Y']);
    assert("FA"@ =~= seq!['F', 'A']);
    assert("FC"@ =~= seq!['F', 'C']);
    assert("FE"@ =~= seq!['F', 'E']);
    assert("FG"@ =~= seq!['F', 'G']);
    assert("FK"@ =~= seq!['F', 'K']);
    assert("GC"@ =~= seq!['G', 'C']);
    assert("GE"@ =~= seq!['G', 'E']);
    assert("GG"@ =~= seq!['G', 'G']);
    assert("GK"@ =~= seq!['G', 'K']);
    assert("GY"@ =~= seq!['G', 'Y']);
    assert("HA"@ =~= seq!['H', 'A']);
    assert("HC"@ =~= seq!['H', 'C']);
    assert("HY"@ =~= seq!['H', 'Y']);
    assert("IA"@ =~= seq!['I', 'A']);
    assert("J6"@ =~= seq!['J', '6']);
    assert("J8"@ =~= seq!['J', '8']);
    assert("JK"@ =~= seq!['J', 'K']);
    assert("K8"@ =~= seq!['K', '8']);
    assert("KA"@ =~= seq!['K', 'A']);
    assert("KC"@ =~= seq!['K', 'C']);
    assert("KG"@ =~= seq!['K', 'G']);
    assert("KI"@ =~= seq!['K', 'I']);
    assert("L0"@ =~= seq!['L', '0']);
    assert("LU"@ =~= seq!['L', 'U']);
    assert("LW"@ =~= seq!['L', 'W']);
    assert("MG"@ =~= seq!['M', 'G']);
    assert("MI"@ =~= seq!['M', 'I']);
    assert("N0"@ =~= seq!['N', '0']);
    assert("NC"@ =~= seq!['N', 'C']);
    assert("NI"@ =~= seq!['N', 'I']);
    assert("NO"@ =~= seq!['N', 'O']);
    assert("Q0"@ =~= seq!['Q', '0']);
    assert("Q6"@ =~= seq!['Q', '6']);
    assert("Q8"@ =~= seq!['Q', '8']);
    assert("QH"@ =~= seq!['Q', 'H']);
    assert("RA"@ =~= seq!['R', 'A']);
    assert("SE"@ =~= seq!['S', 'E']);
    assert("TG"@ =~= seq!['T', 'G']);
    assert("TY"@ =~= seq!['T', 'Y']);
    assert("UI"@ =~= seq!['U', 'I']);
    assert("VW"@ =~= seq!['V', 'W']);
    assert("VY"@ =~= seq!['V', 'Y']);
    assert("WC"@ =~= seq!['W', 'C']);
    assert("WQ"@ =~= seq!['W', 'Q']);
    assert("WW"@ =~= seq!['W', 'W']);
    assert("WY"@ =~= seq!['W', 'Y']);
    assert(codes[0] == "AQ"@);
    assert(codes[1] == "BA"@);
    assert(codes[2] == "BC"@);
    assert(codes[3] == "BE"@);
    assert(codes[4] == "BK"@);
    assert(codes[5] == "CG"@);
    assert(codes[6] == "DE"@);
    assert(codes[7] == "DG"@);
    assert(codes[8] == "EE"@);
    assert(codes[9] == "EG"@);
    assert(codes[10] == "FW"@);
    assert(codes[11] == "JC"@);
    assert(codes[12] == "JE"@);
    assert(codes[13] == "JG"@);
    assert(codes[14] == "LE"@);
    assert(codes[15] == "LG"@);
    assert(codes[16] == "LO"@);
    assert(codes[17] == "NG"@);
    assert(codes[18] == "EM"@);
    assert(codes[19] == "EU"@);
    assert(codes[20] == "EW"@);
    assert(codes[21] == "EY"@);
    assert(codes[22] == "GM"@);
    assert(codes[23] == "A0"@);
    assert(codes[24] == "A4"@);
    assert(codes[25] == "A6"@);
    assert(codes[26] == "A8"@);
    assert(codes[27] == "AA"@);
    assert(codes[28] == "AC"@);
    assert(codes[29] == "AE"@);
    assert(codes[30] == "AG"@);
    assert(codes[31] == "AK"@);
    assert(codes[32] == "AM"@);
    assert(codes[33] == "AS"@);
    assert(codes[34] == "AU"@);
    assert(codes[35] == "AW"@);
    assert(codes[36] == "BI"@);
    assert(codes[37] == "B0"@);
    assert(codes[38] == "B8"@);
    assert(codes[39] == "BG"@);
    assert(codes[40] == "BU"@);
    assert(codes[41] == "BW"@);
    assert(codes[42] == "BS"@);
    assert(codes[43] == "BY"@);
    assert(codes[44] == "CS"@);
    assert(codes[45] == "DW"@);
    assert(codes[46] == "DY"@);
    assert(codes[47] == "FA"@);
    assert(codes[48] == "FC"@);
    assert(codes[49] == "FE"@);
    assert(codes[50] == "FG"@);
    assert(codes[51] == "FK"@);
    assert(codes[52] == "GC"@);
    assert(codes[53] == "GE"@);
    assert(codes[54] == "GG"@);
    assert(codes[55] == "GK"@);
    assert(codes[56] == "GY"@);
    assert(codes[57] == "HA"@);
    assert(codes[58] == "HC"@);
    assert(codes[59] == "HY"@);
    assert(codes[60] == "IA"@);
    assert(codes[61] == "J6"@);
    assert(codes[62] == "J8"@);
    assert(codes[63] == "JK"@);
    assert(codes[64] == "K8"@);
    assert(codes[65] == "KA"@);
    assert(codes[66] == "KC"@);
    assert(codes[67] == "KG"@);
    assert(codes[68] == "KI"@);
    assert(codes[69] == "L0"@);
    assert(codes[70] == "LU"@);
    assert(codes[71] == "LW"@);
    assert(codes[72] == "MG"@);
    assert(codes[73] == "MI"@);
    assert(codes[74] == "N0"@);
    assert(codes[75] == "NC"@);
    assert(codes[76] == "NI"@);
    assert(codes[77] == "NO"@);
    assert(codes[78] == "Q0"@);
    assert(codes[79] == "Q6"@);
    assert(codes[80] == "Q8"@);
    assert(codes[81] == "QH"@);
    assert(codes[82] == "RA"@);
    assert(codes[83] == "SE"@);
    assert(codes[84] == "TG"@);
    assert(codes[85] == "TY"@);
    assert(codes[86] == "UI"@);
    assert(codes[87] == "VW"@);
    assert(codes[88] == "VY"@);
    assert(codes[89] == "WC"@);
    assert(codes[90] == "WQ"@);
    assert(codes[91] == "WW"@);
    assert(codes[92] == "WY"@);
    assert(codes.len() == 93);
    assert(name[0] == first && name[1] == second);
    if codes.contains(name) {
        let k = codes.index_of(name);
        assert(codes[k] == name);
        assert(codes[k][0] == first && codes[k][1] == second);
    }
}

} // verus!
