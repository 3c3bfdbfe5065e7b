//! Text and bytes that are wiped from memory when they are dropped.
//!
//! PIN blocks, plain text and response payloads are held in these types, so
//! that no copy of them lingers on the heap after its last use.

use vstd::prelude::*;

verus! {

/// `zeroize::Zeroize::zeroize` on a `String`: every byte of the buffer is
/// overwritten with zero, and the string is left empty.
#[verifier::external_body]
fn wipe_text(s: &mut String)
    ensures
        final(s)@ == Seq::<char>::empty(),
    opens_invariants none
    no_unwind
{
    zeroize::Zeroize::zeroize(s)
}

/// `zeroize::Zeroize::zeroize` on a `Vec<u8>`: every byte of the buffer is
/// overwritten with zero, and the vector is left empty.
#[verifier::external_body]
fn wipe_bytes(v: &mut Vec<u8>)
    ensures
        final(v)@ == Seq::<u8>::empty(),
    opens_invariants none
    no_unwind
{
    zeroize::Zeroize::zeroize(v)
}

/// Text that is wiped when it is dropped.
pub struct Secret {
    text: String,
}

impl View for Secret {
    type V = Seq<char>;

    closed spec fn view(&self) -> Seq<char> {
        self.text@
    }
}

impl Secret {
    /// Take `text` into keeping.
    pub fn new(text: String) -> (r: Secret)
        ensures
            r@ == text@,
    {
        Secret { text }
    }

    /// The text.
    pub fn as_str(&self) -> (r: &str)
        ensures
            r@ == self@,
    {
        self.text.as_str()
    }

    /// Another keeping of the same text.
    pub fn duplicate(&self) -> (r: Secret)
        ensures
            r@ == self@,
    {
        Secret { text: self.text.clone() }
    }
}

impl Drop for Secret {
    /// Nothing of the text is left.
    fn drop(&mut self)
        ensures
            final(self)@ == Seq::<char>::empty(),
        opens_invariants none
        no_unwind
    {
        wipe_text(&mut self.text)
    }
}

/// Bytes that are wiped when they are dropped.
pub struct SecretBytes {
    bytes: Vec<u8>,
}

impl View for SecretBytes {
    type V = Seq<u8>;

    closed spec fn view(&self) -> Seq<u8> {
        self.bytes@
    }
}

impl SecretBytes {
    /// Take `bytes` into keeping.
    pub fn new(bytes: Vec<u8>) -> (r: SecretBytes)
        ensures
            r@ == bytes@,
    {
        SecretBytes { bytes }
    }

    /// The bytes.
    pub fn as_slice(&self) -> (r: &[u8])
        ensures
            r@ == self@,
    {
        self.bytes.as_slice()
    }
}

impl Drop for SecretBytes {
    /// Nothing of the bytes is left.
    fn drop(&mut self)
        ensures
            final(self)@ == Seq::<u8>::empty(),
        opens_invariants none
        no_unwind
    {
        wipe_bytes(&mut self.bytes)
    }
}

} // verus!
