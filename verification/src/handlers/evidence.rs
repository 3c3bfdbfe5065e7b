//! The texts of the evidence that the handlers give: for each decision what was
//! decided, why, and where the proof of it lives.

use vstd::prelude::*;

verus! {

// ── echo ──────────────────────────────────────────────────────────────────────

pub const ECHO_1_DECISION: &'static str = "Futurex Excrypt ECHO is a connectivity heartbeat: returns an empty success response, makes no APC call.";

pub const ECHO_1_BECAUSE: &'static str = "Futurex HSM Reference Manual — ECHO confirms the HSM connection is alive. No cryptography or key material is involved, so the proxy answers locally. Nothing to differentially verify against APC.";

pub const ECHO_1_PROOF: &'static str = "Futurex HSM Reference Manual — ECHO returns empty success";

// ── noop ──────────────────────────────────────────────────────────────────────

pub const NOOP_1_DECISION: &'static str = "PIN operations return 68 (AQ, BA, BC, BE, BK, CG, DE, DG, EE, EG, FW, JC, JE, JG, LE, LG, LO, NG).";

pub const NOOP_1_BECAUSE: &'static str = "Each needs an APC path that does not exist: RSA-encrypted PIN decrypt, LMK-encrypted PIN I/O, decrypt-and-compare verification, or clear-PIN input/output (rejected under PCI PIN). APC PinVerificationAttributes is IBM3624/VisaPVV only and has no LMK concept.";

pub const NOOP_1_PROOF: &'static str = "no APC equivalent — RSA/LMK/clear-PIN paths";

pub const NOOP_2_DECISION: &'static str = "Encrypt/hash operations return 68 (EM, EU, EW, EY, GM).";

pub const NOOP_2_BECAUSE: &'static str = "Key-block format conversion, RSA signature generate/verify, and generic data hashing have no corresponding APC data-plane operation.";

pub const NOOP_2_PROOF: &'static str = "no APC op — key-block conv / RSA sig / hash";

pub const NOOP_3_DECISION: &'static str = "Key-management operations return 68 (A0/A4/A6/A8/AA/AC/AE/AG/AK/AM/AS/AU/AW/BI/B0/B8/BG/BU/BW/BS/BY/CS/DW/DY/FA/FC/FE/FG/FK/GC/GE/GG/GK/GY/HA/HC/HY/IA/J6/J8/JK/K8/KA/KC/KG/KI/L0/LU/LW/MG/MI).";

pub const NOOP_3_BECAUSE: &'static str = "These generate, import, export, translate, or manage keys under an LMK, or compute key check values / derive card-unique keys. APC keys are provisioned externally through the control plane, not minted or wrapped via this transaction proxy, so none map to a data-plane call.";

pub const NOOP_3_PROOF: &'static str = "key management is control-plane / LMK — out of proxy scope";

pub const NOOP_4_DECISION: &'static str = "Administrative/diagnostic operations return 68 (N0, NC, NI, NO, Q0, Q6, Q8, QH, RA, SE, TG, TY, UI, VW, VY, WC, WQ, WW, WY).";

pub const NOOP_4_BECAUSE: &'static str = "Random-value generation, host/connectivity queries, and vendor-specific admin/diagnostic commands have no APC data-plane equivalent.";

pub const NOOP_4_PROOF: &'static str = "admin/diagnostic — no APC data-plane equivalent";

// ── cvv ───────────────────────────────────────────────────────────────────────

pub const CVV_1_DECISION: &'static str = "CW/CY wire: CVK(32H) then a VARIABLE-LENGTH ';'-terminated PAN, then expiry(4N) + service code(3N) — not a fixed-16 PAN.";

pub const CVV_1_BECAUSE: &'static str = "PUGD0537-004 Rev A p.250 (CW) / p.303 (CY). A fixed-16 parse mis-reads Amex(15)/19-digit PANs. Verified live: proxy CVV == APC generate_card_validation_data across randomized PAN lengths (incl. 15) and service codes, plus a CY round-trip.";

pub const CVV_1_PROOF: &'static str = "cvv_cw_cy_differential";

pub const CVV_2_DECISION: &'static str = "The CVV primitive is additionally cross-validated against a second implementation (2impl) — beyond agreement with APC alone.";

pub const CVV_2_BECAUSE: &'static str = "APC's generate_card_validation_data agrees with CyberChef Payments — a purpose-built, inspectable payment-cryptography implementation, a separate codebase in a different language — over randomized PAN / expiry / service code with a shared clear CVK. Combined with the proxy==APC differential above, the proxy's CVV agrees with a second implementation. Honest strength: CyberChef Payments shares an author with this proxy, so it cross-checks the implementation (catching coding-level divergence) rather than being a neutral third-party oracle, and it is less battle-tested than APC — so this is corroboration; APC (AWS) is the independent reference. Run separately from this repository's automated tests.";

pub const CVV_2_PROOF: &'static str = "cross-validated against CyberChef Payments (a second implementation by the same author); run separately";

pub const CVV_3_DECISION: &'static str = "NY (Mastercard CVC3) and RY (Amex CSC) return Unsupported (68).";

pub const CVV_3_BECAUSE: &'static str = "NY's NZ response returns two values (IVCVC3 + CVC3) and RY validates 3 CSC lengths at once / includes AEVV — neither reproducible as APC's single generate/verify_card_validation_data call (PUGD0537-004 Rev A p.493 (NY) / p.315 (RY)).";

pub const CVV_3_PROOF: &'static str = "no single-call APC equivalent; see handler doc";

// ── diebold_pin ───────────────────────────────────────────────────────────────

pub const DIEBOLD_PIN_1_DECISION: &'static str = "GA (derive PIN, Diebold method) and CE (generate Diebold PIN offset) return Unsupported (68).";

pub const DIEBOLD_PIN_1_BECAUSE: &'static str = "The Diebold method is not an IBM 3624 variant: instead of a DES encrypt-and-decimalize of the transformed account number, the HSM indexes a randomizing conversion table loaded into its user storage, and the derived PIN depends entirely on that table's contents. APC exposes no user-storage table and no generation attribute that reproduces a Diebold lookup, so it cannot be modeled. Mapping onto Ibm3624NaturalPin/Ibm3624PinOffset would silently produce a DIFFERENT PIN — a correctness failure, not a missing feature — so we reject rather than emit an incorrect APC call. Migration: re-issue affected PINs under IBM 3624 (EE/DE) or Visa PVV (DG/FW).";

pub const DIEBOLD_PIN_1_PROOF: &'static str = "no APC equivalent — Diebold user-storage conversion table";

// ── dukpt_pin_verify ──────────────────────────────────────────────────────────

pub const DUKPT_PIN_VERIFY_1_DECISION: &'static str = "CK verifies a DUKPT-encrypted PIN against an IBM 3624 offset (original single-length DUKPT, Tdes2Key). The 12H wire offset is F-padded; the padding is stripped before the APC call.";

pub const DUKPT_PIN_VERIFY_1_BECAUSE: &'static str = "PUGD0538-003 p.112 (CK). Verified live: proxy CK verdict == APC verify_pin_data verdict (IBM3624 + DUKPT) for valid PINs across randomized PAN/KSN. CK had the same offset F-padding bug as GO (APC pin_offset is ^[0-9]+$) — fixed the same way.";

pub const DUKPT_PIN_VERIFY_1_PROOF: &'static str = "dukpt_pin_verify_ck_differential";

pub const DUKPT_PIN_VERIFY_2_DECISION: &'static str = "CM (Visa PVV DUKPT verify) returns Unsupported (68).";

pub const DUKPT_PIN_VERIFY_2_BECAUSE: &'static str = "CM makes the byte-identical verify_pin_data + DukptAttributes + VisaPin call as GQ, which APC answers with InternalServerException (verified live for GQ, us-east-1 + us-west-2). Gated on that basis; the CM wire parser was removed. Workaround: translate the DUKPT PIN block to a ZPK, then verify the PVV non-DUKPT.";

pub const DUKPT_PIN_VERIFY_2_PROOF: &'static str = "same APC single-call DUKPT+VisaPin 500 as GQ";

pub const DUKPT_PIN_VERIFY_3_DECISION: &'static str = "CO (Diebold) and CQ (Encrypted PIN) DUKPT verify return Unsupported (68).";

pub const DUKPT_PIN_VERIFY_3_BECAUSE: &'static str = "Diebold indexes a conversion table in HSM user storage and CQ compares against an LMK-encrypted reference PIN — neither has an APC equivalent (APC verify_pin_data does IBM3624 offset / Visa PVV only).";

pub const DUKPT_PIN_VERIFY_3_PROOF: &'static str = "no APC equivalent (Diebold table / LMK-compare)";

// ── dukpt_pin_verify_aes ──────────────────────────────────────────────────────

pub const DUKPT_PIN_VERIFY_AES_1_DECISION: &'static str = "GO (IBM3624 DUKPT PIN verify) wire: Mode + BDK + PVK + KSN-descriptor(3H)+KSN + PIN block + fmt code + check len + PAN + decim table + PIN validation data + offset(12H, F-padded). The 12H offset's F-padding is STRIPPED before APC.";

pub const DUKPT_PIN_VERIFY_AES_1_BECAUSE: &'static str = "PUGD0537-004 Rev A p.349. Verified live: proxy GO verdict == APC verify_pin_data verdict (IBM3624 + 3DES DUKPT) for valid PINs across randomized PAN/KSN. The live differential CAUGHT a real bug: APC's pin_offset is ^[0-9]+$, so the wire's F-padded offset was rejected (GO returned 41 for every valid PIN) until the strip was added.";

pub const DUKPT_PIN_VERIFY_AES_1_PROOF: &'static str = "dukpt_pin_verify_go_differential";

pub const DUKPT_PIN_VERIFY_AES_2_DECISION: &'static str = "GQ (Visa PVV DUKPT verify) returns Unsupported (68).";

pub const DUKPT_PIN_VERIFY_AES_2_BECAUSE: &'static str = "APC single-call verify_pin_data + DukptAttributes + VisaPin returns InternalServerException (500), verified live us-east-1 + us-west-2 on schema-valid inputs. Isolated: the IBM3624 sibling (GO) works single-call, non-DUKPT Visa PVV works, and a two-call translate-then-verify works. Gated honestly rather than inject an intermediate interchange key into the PIN path. Repro filed for AWS.";

pub const DUKPT_PIN_VERIFY_AES_2_PROOF: &'static str = "APC single-call DUKPT+VisaPin verify returns 500; see handler doc";

pub const DUKPT_PIN_VERIFY_AES_3_DECISION: &'static str = "GS (Diebold) and GU (Encrypted PIN) DUKPT verify return Unsupported (68).";

pub const DUKPT_PIN_VERIFY_AES_3_BECAUSE: &'static str = "Diebold indexes a conversion table in HSM user storage and GU compares against an LMK-encrypted reference PIN — neither has an APC equivalent (APC verify_pin_data does IBM3624 offset / Visa PVV only). PUGD0537-004 Rev A p.355/358.";

pub const DUKPT_PIN_VERIFY_AES_3_PROOF: &'static str = "no APC equivalent (Diebold table / LMK-compare)";

// ── emv_decrypt ───────────────────────────────────────────────────────────────

pub const EMV_DECRYPT_1_DECISION: &'static str = "K0 decrypts EMV-encrypted counters / application data under an IMK-ENC (E1) master key. APC derives an EMV session key (Option A) from the master key + PAN/PSN + ATC, then CBC-decrypts. Wire PAN+Seq is 8B BCD (Option-A pre-format); ATC and DataLen are 2B binary; ciphertext is binary and hex-encoded before the APC call. SessionDerivationData = ATC(4H) + 12 zero hex chars.";

pub const EMV_DECRYPT_1_BECAUSE: &'static str = "PUGD0537-004 Rev A p.490. Verified live via round-trip: APC encrypt_data (EMV-CBC, built from the same field values) mints the ciphertext, and the proxy's K0 recovers the original plaintext across randomized PAN/PSN/ATC and 1..4 cipher blocks. A wrong PAN/PSN/ATC offset derives a different session key, so the round-trip would not close.";

pub const EMV_DECRYPT_1_PROOF: &'static str = "emv_decrypt_k0_differential";

// ── encrypt_decrypt ───────────────────────────────────────────────────────────

pub const ENCRYPT_DECRYPT_1_DECISION: &'static str = "HE encrypts / HG decrypts a single 64-bit block (16H) under a data key (TR31_D0), TDES-ECB. Wire: key then 16H data.";

pub const ENCRYPT_DECRYPT_1_BECAUSE: &'static str = "PUGD0538-003 p.107 (HE) / p.108 (HG). Verified live: proxy HE ciphertext == APC encrypt_data (TDES-ECB, deterministic), and the HE→HG round-trip recovers the plaintext, over random plus all-zero / all-F blocks. Operational note (verified live): APC rejects encrypt+decrypt alone for a D0 key — the mapped key must use NoRestrictions (or encrypt+decrypt+wrap+unwrap) for both HE and HG to work.";

pub const ENCRYPT_DECRYPT_1_PROOF: &'static str = "encrypt_decrypt_he_hg_differential";

// ── heartbeat ─────────────────────────────────────────────────────────────────

pub const HEARTBEAT_1_DECISION: &'static str = "B2 is a heartbeat/echo: returns success with an empty payload and makes no APC call.";

pub const HEARTBEAT_1_BECAUSE: &'static str = "PUGD0537-004 B2 (echo). No cryptography and no key material are involved, so the proxy answers locally — host health checks succeed without a data-plane round-trip. Nothing to differentially verify against APC.";

pub const HEARTBEAT_1_PROOF: &'static str = "PUGD0537-004 B2 — echo/heartbeat, empty success response";

// ── hmac ──────────────────────────────────────────────────────────────────────

pub const HMAC_1_DECISION: &'static str = "LQ (generate HMAC) and LS (verify HMAC) return Unsupported (68) — gated pending wire-format validation, NOT because APC lacks the capability.";

pub const HMAC_1_BECAUSE: &'static str = "APC supports HMAC via generate_mac/verify_mac, so LQ/LS are a realistic future mapping. They are gated because the previous handler parsed a fabricated layout that does not match the authoritative wire format (PUGD0537-004 Rev A p.405/407): a 2N hash id, a byte-length HMAC-truncation field, a length-prefixed inline key, and a raw-byte (not hex) message. A faithful mapping must resolve the HMAC-length truncation and the raw-byte key/message representation against APC's hex-message generate_mac/verify_mac and confirm SHA-224 support — validated end-to-end before enabling. Until then, returning 68 is correct rather than proxying a guessed layout.";

pub const HMAC_1_PROOF: &'static str = "wire format not yet validated against APC (deferred implementation)";

// ── international_encrypt ─────────────────────────────────────────────────────

pub const INTERNATIONAL_ENCRYPT_1_DECISION: &'static str = "M0 encrypts and M2 decrypts a data block, TDES-ECB, under a D0 symmetric data key. Only ECB ('00') and hex I/O ('1') are accepted; other modes/formats are rejected. Response is a 4H byte-length prefix + data hex.";

pub const INTERNATIONAL_ENCRYPT_1_BECAUSE: &'static str = "Field layout per PUGD0539-003 Applications Manual §2.2.1 (M0) / §2.3.1 (M2) — command-structure tables match this parse, including Mode '00'=ECB with 8-byte-multiple input and Key Type '00A'/'00B'. Verified live: M0's ciphertext equals a direct APC encrypt_data ECB oracle across length-randomised plaintext (1..4 blocks), and M2 round-trips the proxy's own ciphertext back to plaintext. diff-xprov (manual-cited layout + APC differential), not vec (no published TDES-ECB vectors checked yet).";

pub const INTERNATIONAL_ENCRYPT_1_PROOF: &'static str = "intl_encrypt_m0_m2_m4_differential";

pub const INTERNATIONAL_ENCRYPT_2_DECISION: &'static str = "M4 translates a data block from a source key to a destination key (TDES-ECB) using two APC calls: decrypt_data under the source key, then encrypt_data under the destination key.";

pub const INTERNATIONAL_ENCRYPT_2_BECAUSE: &'static str = "APC's single-call re_encrypt_data requires KeyModesOfUse=Encrypt (AWS Payment Cryptography Data API, ReEncryptData: \"The KeyArn ... must be in a compatible key state with KeyModesOfUse set to Encrypt\"), but a D0 symmetric data key can only be created as NoRestrictions (encrypt flag false); re_encrypt_data then rejects it with \"KeyUsages not allowed\" (confirmed live). Decrypt-then-encrypt is semantically identical for ECB and works with D0 NoRestrictions keys. Verified live: M4 translates the M0 ciphertext src→dst and a direct APC decrypt under the dst key recovers the original plaintext. TRADE-OFF: the plaintext transits the proxy between the two calls (zeroized on drop) — the same trust boundary M0/M2 already cross for this key class, not a new exposure.";

pub const INTERNATIONAL_ENCRYPT_2_PROOF: &'static str = "intl_encrypt_m0_m2_m4_differential";

// ── issuer_script_mac ─────────────────────────────────────────────────────────

pub const ISSUER_SCRIPT_MAC_1_DECISION: &'static str = "JU (UnionPay CUP) and KU Mode-0 (integrity only) generate an issuer-script MAC → APC generate_mac with EmvMac attributes; APC performs the whole IMK-SMI → SK-SMI derivation. Scheme → session method: JU '1' → EMV2000+ATC; KU '0' → VISA+ATC, '1' → Mastercard+AC(RANDi), '2' → AMEX+ATC, '5' → EMV_COMMON+AC.";

pub const ISSUER_SCRIPT_MAC_1_BECAUSE: &'static str = "PUGD0537-004 Rev A p.475 (KU); PUGD0538-003 §7 p.124 (JU). Verified live: a created E2 IMK-SMI (DeriveKey mode) + EmvMac returns a MAC for each session method, and the SessionKeyDerivationValue union requires ATC for EMV2000/AMEX/VISA and ApplicationCryptogram for EMV_COMMON/MASTERCARD. The differential confirms the proxy's wire parse + EmvMac mapping equals a direct APC generate_mac. Crypto grade is `apc` (agrees with APC): unlike the ARQC family there is not yet an independent from-spec SMI-derivation anchor.";

pub const ISSUER_SCRIPT_MAC_1_PROOF: &'static str = "issuer_script_mac_differential";

pub const ISSUER_SCRIPT_MAC_2_DECISION: &'static str = "KY, all confidentiality / PIN-change modes (1–4), KU schemes '3'/'4'/'6' return Unsupported (68).";

pub const ISSUER_SCRIPT_MAC_2_BECAUSE: &'static str = "KY Mode-0 EMV2000 secure-messaging derivation takes an IV-SMI and a branch/height key-tree that APC's EmvMac does not model (PUGD0537-004 Rev A p.480), so it cannot be faithfully mapped without a payShield reference. Modes 1–4 add confidentiality / PIN change and need APC's separate GenerateMacEmvPinChange operation plus an E1 key. KU '3'/'4' (JCB CVN01/02) and '6' (UnionPay-in-KU) have no APC session-key method. Gated rather than emit a MAC under the wrong key.";

pub const ISSUER_SCRIPT_MAC_2_PROOF: &'static str = "KY IV-SMI/key-tree not modelled by APC EmvMac; confidentiality/PIN-change need GenerateMacEmvPinChange; JCB/UnionPay-in-KU have no APC session method";

// ── kq_arqc ───────────────────────────────────────────────────────────────────

pub const KQ_ARQC_1_DECISION: &'static str = "KQ verifies an ARQC and optionally generates an ARPC → APC verify_auth_request_cryptogram. Scheme ID selects the session-key method on EMV Option A: Visa (Scheme '0'), Mastercard M/Chip (Scheme '1'), Amex AEIPS (Scheme '2'). Skip-verify modes 3/4 are rejected as having no APC equivalent. Mode 1/2 map to ARPC Method 1 (ARC) / Method 2 (CSU + proprietary data).";

pub const KQ_ARQC_1_BECAUSE: &'static str = "PUGD0537-004 Rev A p.468 (KQ). Verified live for the Mastercard scheme ('1', Option A + Mastercard proprietary SKD): APC mints a valid ARQC via generate_auth_request_cryptogram under a created E0 IMK (DeriveKey mode), the proxy's KQ handler verifies it through APC and ACCEPTS (00), and a one-bit-corrupted ARQC is REJECTED (01), across randomized PAN / PSN / ATC / Unpredictable Number / txn length — the differential confirms the UN is forwarded to APC's Mastercard session-key derivation. The Amex scheme ('2', Option A + Amex SKD) is verified the same way in arqc_verify_kq_amex_differential. The Visa scheme ('0', Option A + Visa SKD: PAN + PAN seq, no ATC/UN in derivation) is verified the same way in arqc_verify_kq_visa_differential: APC mints a valid Visa ARQC under SessionKeyDerivation::Visa, the proxy ACCEPTS (00), and a one-bit-corrupted ARQC is REJECTED (01) across 32 randomized cases. (This corrected an earlier over-conservative gate — Visa VIS is not static-only; APC exposes SessionKeyDerivation::Visa, AWS's payShield migration maps KQ Scheme 0 Visa -> it, and this repo's KU handler already uses it.) ARPC generation is also verified live: the proxy's ARPC equals a direct APC verify with the same response attributes — Method 1 (ARC) in arqc_verify_kq_arpc_method1_differential and Method 2 (CSU + proprietary auth data, incl. empty) in arqc_verify_kq_arpc_method2_differential. The error plumbing (key-not-found → 10, unsupported-mode → 15) stays mock-tested.";

pub const KQ_ARQC_1_PROOF: &'static str = "arqc_verify_kq_differential";

// ── kw_arqc ───────────────────────────────────────────────────────────────────

pub const KW_ARQC_1_DECISION: &'static str = "KW verifies an ARQC and optionally generates an ARPC for the EMV / Cloud-Based SKD methods → APC verify_auth_request_cryptogram. Unlike KQ, the Scheme ID encodes the major derivation mode too (Option A for even codes, Option B for odd) plus the session method (EMV2000 / EMV Common). Cloud / LUK / Option-C / JCB / UnionPay SKD schemes are rejected as having no APC equivalent.";

pub const KW_ARQC_1_BECAUSE: &'static str = "PUGD0537-004 Rev A p.471 (KW). Verified live for the Option-A schemes: APC mints a valid ARQC via generate_auth_request_cryptogram under a created E0 IMK (DeriveKey mode), the proxy's KW handler verifies it through APC and ACCEPTS (00), and a one-bit-corrupted ARQC is REJECTED (01), across randomized inputs — sweeping scheme '0' (EMV2000) and '2' (EMV Common), both Option A (arqc_verify_kw_differential). The Option-B schemes ('1'/'3') need a PAN > 16 digits, which the 8-byte BCD PAN field can't carry (see the EMV PAN-length gap), and the ARPC Method 1/2 generation path stays mock-tested; those are the next step.";

pub const KW_ARQC_1_PROOF: &'static str = "arqc_verify_kw_differential";

// ── legacy_mac ────────────────────────────────────────────────────────────────

pub const LEGACY_MAC_1_DECISION: &'static str = "MA/MC ('~'-terminated) and MK/MM (3H-length-prefixed) generate/verify an ISO 9797-1 Alg1 MAC under a TAK. APC's Alg1 MAC is truncated to the 8H (4-byte) wire width.";

pub const LEGACY_MAC_1_BECAUSE: &'static str = "PUGD0538 pp.89-104. Verified live across both wire styles and randomized data lengths: proxy MAC == APC generate_mac (Iso9797Algorithm1), and the MC/MM verify round-trip accepts the proxy's MAC. Note: APC returns a 4-byte Alg1 MAC (verified live), so the handler's 8H truncation is a no-op — correcting an earlier comment that claimed APC returns 16H.";

pub const LEGACY_MAC_1_PROOF: &'static str = "legacy_mac_ma_mc_mk_mm_differential";

pub const LEGACY_MAC_2_DECISION: &'static str = "ME/MO (verify-then-re-MAC), MU/MW (mode-prefixed Alg1), MQ (ZAK Alg1), MS (Alg3 X9.19) share the same generate/verify paths but are not yet covered by a live differential.";

pub const LEGACY_MAC_2_BECAUSE: &'static str = "PUGD0538 pp.89-104 — manual-cited layout and the same ISO9797 Alg1/Alg3 APC mapping as the live-verified commands; a live differential for these is the tracked next step.";

pub const LEGACY_MAC_2_PROOF: &'static str = "PUGD0538 pp.89-104; not yet live-differentialed";

// ── mac_translate ─────────────────────────────────────────────────────────────

pub const MAC_TRANSLATE_1_DECISION: &'static str = "MY verifies an inbound MAC under one key, then generates an outbound MAC under a second key for the same message (per-direction MAC size/algorithm). A half inbound MAC (size '1' = 2 bytes) is verified by regenerating the full MAC and comparing the leading bytes.";

pub const MAC_TRANSLATE_1_BECAUSE: &'static str = "PUGD0537-004 Rev A p.371. Verified live (ISO9797 Alg1) across all inbound×outbound MAC-size combos: proxy outbound MAC == APC generate_mac under the outbound key. The live differential caught the same half-MAC verify bug as GW — the inbound half MAC was handed to APC verify_mac, which rejects it — fixed with the regenerate-and-compare-prefix path.";

pub const MAC_TRANSLATE_1_PROOF: &'static str = "mac_translate_my_differential";

pub const MAC_TRANSLATE_2_DECISION: &'static str = "ALG3 and CMAC directions, and differing inbound/outbound algorithms, are parsed but not yet covered by a live differential (only ALG1 is).";

pub const MAC_TRANSLATE_2_BECAUSE: &'static str = "PUGD0537-004 Rev A p.371 — same per-direction generate/verify mapping as the live-verified ALG1 path; broadening the differential is the tracked next step.";

pub const MAC_TRANSLATE_2_PROOF: &'static str = "PUGD0537-004 Rev A p.371; ALG3/CMAC not yet live-differentialed";

// ── pin_change ────────────────────────────────────────────────────────────────

pub const PIN_CHANGE_1_DECISION: &'static str = "DU verifies the current PIN by IBM 3624 offset and generates a new offset; CU does the same by Visa PVV. Each is atomic: the current PIN is verified first (APC verify_pin_data), and only on a match is the new datum generated (APC generate_pin_data with Ibm3624PinOffset / VisaPinVerificationValue for the new PIN block). On mismatch the response is error 01 and no datum is returned. The IBM 12H current offset is F-padded and trimmed to APC's ^[0-9]+$ before the verify call.";

pub const PIN_CHANGE_1_BECAUSE: &'static str = "PUGD0537-004 Rev A p.255 (DU) / p.259 (CU). Verified live end-to-end: for both methods the proxy verifies a valid current PIN and returns a new offset/PVV that a direct APC verify_pin_data then confirms against the new PIN block, across randomized PAN. The live differential caught two DU offset bugs: the F-padded current offset was passed to APC's pin_offset (which requires ^[0-9]+$) so every valid current PIN was rejected — fixed by stripping the padding (as GO/CK/DA do); and the generated New Offset was returned unpadded, but the DV response field is 12H left-justified F-padded (p.255) — fixed by re-padding.";

pub const PIN_CHANGE_1_PROOF: &'static str = "pin_change_du_cu_differential";

pub const PIN_CHANGE_2_DECISION: &'static str = "The Visa PVV primitive — APC's generate_pin_data VisaPinVerificationValue, the exact call CU makes to mint a new PVV, and the same algorithm APC uses to verify a PVV (DC/EC) — is additionally cross-validated against a second implementation (2impl), beyond agreement with APC alone.";

pub const PIN_CHANGE_2_BECAUSE: &'static str = "APC's generate_pin_data VisaPinVerificationValue agrees with CyberChef Payments — a purpose-built, inspectable payment-cryptography implementation, a separate codebase in a different language — over randomized PAN / PVKI / PIN with a shared clear PVK: both derive the same 4-digit PVV (verified live, 8/8). The PIN is carried to APC as an ISO-0 block encrypted under a shared PEK, so a match also confirms the PIN-block encoding round-trips through APC. Combined with the proxy==APC differential above, the proxy's Visa PVV agrees with a second implementation. Honest strength: CyberChef Payments shares an author with this proxy, so it cross-checks the implementation (catching coding-level divergence) rather than being a neutral third-party oracle, and it is less battle-tested than APC — so this is corroboration; APC (AWS) is the independent reference. Run separately from this repository's automated tests.";

pub const PIN_CHANGE_2_PROOF: &'static str = "cross-validated against CyberChef Payments (a second implementation by the same author); run separately";

// ── pin_verify_non_dukpt ──────────────────────────────────────────────────────

pub const PIN_VERIFY_NON_DUKPT_1_DECISION: &'static str = "DA/EA verify an IBM 3624 PIN and DC/EC a Visa PVV, all via APC verify_pin_data with no DUKPT. DA/DC carry a TPK and EA/EC a ZPK; both are P0 encryption keys in APC, so each pair shares one code path. The IBM 12H offset is F-padded on the wire and trimmed to APC's ^[0-9]+$ before the call (same handling as GO/CK).";

pub const PIN_VERIFY_NON_DUKPT_1_BECAUSE: &'static str = "PUGD0537-004 p.269/277/279/281. Verified live: the proxy's verify verdict matches a direct APC verify_pin_data verdict across randomized PAN, both methods, and all four command codes. A valid PIN is minted via generate_pin_data (IBM3624 natural PIN offset 0, or Visa PVV read back from PinData::VerificationValue); a wrong field offset would feed APC a different block, which it rejects, so proxy and oracle verdicts diverge.";

pub const PIN_VERIFY_NON_DUKPT_1_PROOF: &'static str = "pin_verify_non_dukpt_differential";

// ── unionpay_arqc ─────────────────────────────────────────────────────────────

pub const UNIONPAY_ARQC_1_DECISION: &'static str = "JS verifies a UnionPay (CUP) Authorisation Request Cryptogram → APC verify_auth_request_cryptogram. Response code JT.";

pub const UNIONPAY_ARQC_1_BECAUSE: &'static str = "PUGD0538-003 §7 p.122. Verified live end-to-end: APC mints a valid ARQC via generate_auth_request_cryptogram (Emv2000, Option A) under a created IMK-AC (E0, DeriveKey mode), the proxy's JS handler verifies it through APC and ACCEPTS (00), and a one-bit-corrupted ARQC is REJECTED (01), across randomized PAN / PSN / ATC / txn length.";

pub const UNIONPAY_ARQC_1_PROOF: &'static str = "arqc_verify_js_differential";

} // verus!
