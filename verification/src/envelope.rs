//! Sealed values. A plaintext is wrapped together with the key context it was
//! encrypted under; it can be opened only with a matching context, and moving a
//! value to another context takes an explicit reseal step, never a bare cast.

use vstd::prelude::*;

verus! {

/// Who can decrypt a sealed value: the computation owner alone, or a shared
/// key known to one specific submitter and the computation owner.
#[derive(Clone, Copy, PartialEq, Eq, Structural, Debug)]
pub enum KeyContext {
    ComputationOwner,
    Shared(u64),
}

/// Opening a sealed value under the wrong key context fails; the ciphertext is
/// foreign to the key presented.
#[derive(Clone, Copy, PartialEq, Eq, Structural, Debug)]
pub enum EnvelopeError {
    ForeignCiphertext,
}

/// A value of type `T` sealed under a key context. The plaintext is reachable
/// only through `open`, which demands the matching context.
#[derive(Clone)]
pub struct Envelope<T> {
    ctx: KeyContext,
    value: T,
}

impl<T> Envelope<T> {
    /// The context this value is sealed under.
    pub closed spec fn spec_ctx(&self) -> KeyContext {
        self.ctx
    }

    /// The plaintext inside, as specification-level knowledge only.
    pub closed spec fn spec_value(&self) -> T {
        self.value
    }

    /// Seal a plaintext under a key context.
    pub fn seal(value: T, ctx: KeyContext) -> (r: Envelope<T>)
        ensures
            r.spec_ctx() == ctx,
            r.spec_value() == value,
    {
        Envelope { ctx, value }
    }

    /// The context tag is public; only the plaintext is protected.
    pub fn ctx(&self) -> (r: KeyContext)
        ensures
            r == self.spec_ctx(),
    {
        self.ctx
    }

    /// Open with a key. Succeeds and returns the plaintext exactly when the
    /// key matches the context the value was sealed under.
    pub fn open(self, key: KeyContext) -> (r: Result<T, EnvelopeError>)
        ensures
            key == self.spec_ctx() ==> r == Result::<T, EnvelopeError>::Ok(self.spec_value()),
            key != self.spec_ctx() ==> r == Result::<T, EnvelopeError>::Err(
                EnvelopeError::ForeignCiphertext,
            ),
    {
        if self.ctx == key {
            Ok(self.value)
        } else {
            Err(EnvelopeError::ForeignCiphertext)
        }
    }

    /// Re-encrypt under another context: open with the matching key, then seal
    /// again. Fails, leaving nothing resealed, when the key does not match.
    pub fn reseal(self, key: KeyContext, new_ctx: KeyContext) -> (r: Result<
        Envelope<T>,
        EnvelopeError,
    >)
        ensures
            key == self.spec_ctx() ==> (r is Ok && r->Ok_0.spec_ctx() == new_ctx
                && r->Ok_0.spec_value() == self.spec_value()),
            key != self.spec_ctx() ==> r == Result::<Envelope<T>, EnvelopeError>::Err(
                EnvelopeError::ForeignCiphertext,
            ),
    {
        match self.open(key) {
            Ok(value) => Ok(Envelope::seal(value, new_ctx)),
            Err(e) => Err(e),
        }
    }
}

} // verus!
