//! The login protocol: a challenge is issued, a proof for it is checked, and
//! a proof that holds binds the challenge to the key that signed it.
//!
//! A proof is checked in the wire profile of [`crate::service`]: the nonce is
//! read as hex, its bytes are hashed with SHA-256, and the signature is in
//! the compact encoding.

use crate::service::{verify_spec, AuthVerifier, VerifierError};
use crate::encoding::hex_encoded;
use crate::{Event, Response, ResponseView};
use crate::store::{
    bind_entries, bind_outcome, bound_identities, distinct, is_nonce, lemma_bind_entries,
    lemma_bind_lists_identity, table, Binding, ChallengeState, ChallengeStore, Entry, StoreError,
};
use vstd::prelude::*;
use vstd::string::StringExecFns;

verus! {

/// Why a proof was refused.
#[derive(Debug, PartialEq, Eq, Structural, Clone, Copy)]
pub enum AuthError {
    /// The nonce was never issued.
    UnknownChallenge,
    /// The nonce is bound to an identity already.
    AlreadyAuthenticated,
    /// The nonce, the signature or the key could not be read.
    InvalidEncoding(VerifierError),
    /// The signature is not one of the nonce under the key.
    SignatureMismatch,
}

/// What the first look at `nonce` answers: only a pending nonce goes on to
/// the check of its proof.
pub open spec fn pending_outcome(table: Map<Seq<char>, Binding>, nonce: Seq<char>) -> Result<
    (),
    AuthError,
> {
    if !table.dom().contains(nonce) {
        Err(AuthError::UnknownChallenge)
    } else if table[nonce] is Bound {
        Err(AuthError::AlreadyAuthenticated)
    } else {
        Ok(())
    }
}

/// What the check of a proof answers, given what the verifier found.
pub open spec fn proof_outcome(found: Result<bool, VerifierError>) -> Result<(), AuthError> {
    match found {
        Err(e) => Err(AuthError::InvalidEncoding(e)),
        Ok(false) => Err(AuthError::SignatureMismatch),
        Ok(true) => Ok(()),
    }
}

/// What the binding of `nonce` to `identity` answers: a pending nonce is
/// bound; one that is bound to `identity` already counts as bound by this
/// call too; one bound to another identity is refused.
pub open spec fn commit_outcome(
    table: Map<Seq<char>, Binding>,
    nonce: Seq<char>,
    identity: Seq<char>,
) -> Result<(), AuthError> {
    if !table.dom().contains(nonce) {
        Err(AuthError::UnknownChallenge)
    } else {
        match table[nonce] {
            Binding::Pending => Ok(()),
            Binding::Bound(bound) => if bound == identity {
                Ok(())
            } else {
                Err(AuthError::AlreadyAuthenticated)
            },
        }
    }
}

/// What a submitted proof answers on `table`.
pub open spec fn submit_outcome(
    table: Map<Seq<char>, Binding>,
    nonce: Seq<char>,
    signature: Seq<char>,
    public_key: Seq<char>,
) -> Result<(), AuthError> {
    match pending_outcome(table, nonce) {
        Err(e) => Err(e),
        Ok(_) => proof_outcome(verify_spec(nonce, signature, public_key)),
    }
}

/// The lines of the table after a submitted proof: a proof that is accepted
/// binds its nonce to the key, and any other leaves the lines as they were.
pub open spec fn submit_entries(
    entries: Seq<Entry>,
    nonce: Seq<char>,
    signature: Seq<char>,
    public_key: Seq<char>,
) -> Seq<Entry> {
    if submit_outcome(table(entries), nonce, signature, public_key) is Ok {
        bind_entries(entries, nonce, public_key)
    } else {
        entries
    }
}

/// A proof for a nonce that was never issued is refused as unknown, whatever
/// the signature and the key, and the table stays as it was.
pub proof fn lemma_unknown_challenge_refused(
    entries: Seq<Entry>,
    nonce: Seq<char>,
    signature: Seq<char>,
    public_key: Seq<char>,
)
    requires
        !table(entries).dom().contains(nonce),
    ensures
        submit_outcome(table(entries), nonce, signature, public_key) == Err::<(), AuthError>(
            AuthError::UnknownChallenge,
        ),
        submit_entries(entries, nonce, signature, public_key) == entries,
{
}

/// A proof that is refused, for whatever reason, leaves the table as it was:
/// a pending challenge stays pending and can be tried again.
pub proof fn lemma_refused_proof_keeps_table(
    entries: Seq<Entry>,
    nonce: Seq<char>,
    signature: Seq<char>,
    public_key: Seq<char>,
)
    requires
        submit_outcome(table(entries), nonce, signature, public_key) is Err,
    ensures
        submit_entries(entries, nonce, signature, public_key) == entries,
        pending_outcome(table(submit_entries(entries, nonce, signature, public_key)), nonce)
            == pending_outcome(table(entries), nonce),
{
}

/// A proof that is accepted binds its nonce to its key and changes no other
/// nonce: the table differs at that nonce alone, and the list of identities
/// grows by one. A second proof for the same nonce, whatever its signature
/// and key, is refused as already authenticated and changes nothing.
pub proof fn lemma_second_proof_refused(
    entries: Seq<Entry>,
    nonce: Seq<char>,
    signature: Seq<char>,
    public_key: Seq<char>,
    second_signature: Seq<char>,
    second_key: Seq<char>,
)
    requires
        distinct(entries),
        submit_outcome(table(entries), nonce, signature, public_key) is Ok,
    ensures
        ({
            let after = submit_entries(entries, nonce, signature, public_key);
            &&& distinct(after)
            &&& table(after) == table(entries).insert(nonce, Binding::Bound(public_key))
            &&& bound_identities(after).len() == bound_identities(entries).len() + 1
            &&& submit_outcome(table(after), nonce, second_signature, second_key) == Err::<
                (),
                AuthError,
            >(AuthError::AlreadyAuthenticated)
            &&& submit_entries(after, nonce, second_signature, second_key) == after
            &&& table(after)[nonce] == Binding::Bound(public_key)
        }),
{
    lemma_bind_entries(entries, nonce, public_key);
    lemma_bind_lists_identity(entries, nonce, public_key);
}

/// Two submissions that both hold a valid proof for the same pending nonce
/// and the same key, and reach the table one after the other: the table
/// accepts the binding of the first and refuses that of the second as bound
/// already, both submissions succeed, and the nonce is bound to that key
/// after each. With another key, the second is refused.
pub proof fn lemma_race_has_one_binder(
    entries: Seq<Entry>,
    nonce: Seq<char>,
    identity: Seq<char>,
    other: Seq<char>,
)
    requires
        distinct(entries),
        table(entries).dom().contains(nonce),
        table(entries)[nonce] is Pending,
        other != identity,
    ensures
        ({
            let after = bind_entries(entries, nonce, identity);
            &&& bind_outcome(table(entries), nonce) is Ok
            &&& commit_outcome(table(entries), nonce, identity) is Ok
            &&& table(after)[nonce] == Binding::Bound(identity)
            &&& bind_outcome(table(after), nonce) == Err::<(), StoreError>(
                StoreError::AlreadyBound,
            )
            &&& commit_outcome(table(after), nonce, identity) is Ok
            &&& commit_outcome(table(after), nonce, other) == Err::<(), AuthError>(
                AuthError::AlreadyAuthenticated,
            )
            &&& bind_entries(after, nonce, identity) == after
            &&& bind_entries(after, nonce, other) == after
        }),
{
    lemma_bind_entries(entries, nonce, identity);
}

impl AuthError {
    /// The words for the kind of the error: all that a response shows of it.
    pub open spec fn kind_text(&self) -> Seq<char> {
        match self {
            AuthError::UnknownChallenge => "unknown challenge"@,
            AuthError::AlreadyAuthenticated => "already authenticated"@,
            AuthError::InvalidEncoding(VerifierError::MalformedMessage) => "malformed message"@,
            AuthError::InvalidEncoding(VerifierError::MalformedSignature) => "malformed signature"@,
            AuthError::InvalidEncoding(VerifierError::MalformedPublicKey) => "malformed public key"@,
            AuthError::SignatureMismatch => "signature mismatch"@,
        }
    }

    /// The words for the kind of the error.
    pub fn kind(&self) -> (text: &'static str)
        ensures
            text@ == self.kind_text(),
    {
        match self {
            AuthError::UnknownChallenge => "unknown challenge",
            AuthError::AlreadyAuthenticated => "already authenticated",
            AuthError::InvalidEncoding(VerifierError::MalformedMessage) => "malformed message",
            AuthError::InvalidEncoding(VerifierError::MalformedSignature) => "malformed signature",
            AuthError::InvalidEncoding(VerifierError::MalformedPublicKey) => "malformed public key",
            AuthError::SignatureMismatch => "signature mismatch",
        }
    }
}

/// The response to a submission for `nonce`: a login on success; on failure
/// the kind of the error and the nonce, and nothing of the signature or the
/// key.
pub open spec fn response_of(nonce: Seq<char>, outcome: Result<(), AuthError>) -> ResponseView {
    match outcome {
        Ok(_) => ResponseView::Okay { event: Some(Event::LoggedIn) },
        Err(e) => ResponseView::Error { reason: e.kind_text() + ": "@ + nonce },
    }
}

/// Builds the response to a submission for `nonce` from its outcome.
pub fn respond(nonce: &str, outcome: Result<(), AuthError>) -> (response: Response)
    ensures
        response@ == response_of(nonce@, outcome),
{
    match outcome {
        Ok(_) => Response::Okay { event: Some(Event::LoggedIn) },
        Err(e) => {
            let mut reason = String::from_str(e.kind());
            reason.append(": ");
            reason.append(nonce);
            Response::Error { reason }
        },
    }
}

/// The address at which a client answers the challenge `nonce`, below the
/// service's address `base`.
pub open spec fn callback_url_of(base: Seq<char>, nonce: Seq<char>) -> Seq<char> {
    base + "/auth?tag=login&k1="@ + nonce
}

/// Builds the address at which a client answers the challenge `nonce`.
pub fn callback_url(base: &str, nonce: &str) -> (url: String)
    ensures
        url@ == callback_url_of(base@, nonce@),
{
    let mut url = String::from_str(base);
    url.append("/auth?tag=login&k1=");
    url.append(nonce);
    url
}

/// Maps what the verifier found to the protocol's answer.
pub fn judge(found: Result<bool, VerifierError>) -> (r: Result<(), AuthError>)
    ensures
        r == proof_outcome(found),
{
    match found {
        Err(e) => Err(AuthError::InvalidEncoding(e)),
        Ok(false) => Err(AuthError::SignatureMismatch),
        Ok(true) => Ok(()),
    }
}

/// The server side of the login: the table of challenges and the verifier
/// that checks proofs.
pub struct AuthProtocol {
    store: ChallengeStore,
    verifier: AuthVerifier,
}

impl View for AuthProtocol {
    type V = Map<Seq<char>, Binding>;

    open spec fn view(&self) -> Map<Seq<char>, Binding> {
        table(self.entries())
    }
}

impl AuthProtocol {
    /// The lines of the table, in the order in which the nonces were issued.
    pub closed spec fn entries(&self) -> Seq<Entry> {
        self.store.entries()
    }

    /// No nonce has two lines.
    pub open spec fn wf(&self) -> bool {
        distinct(self.entries())
    }

    /// A protocol with no challenge issued.
    pub fn new() -> (protocol: Self)
        ensures
            protocol.wf(),
            protocol.entries() == Seq::<Entry>::empty(),
            protocol@ == Map::<Seq<char>, Binding>::empty(),
    {
        AuthProtocol { store: ChallengeStore::new(), verifier: AuthVerifier::new() }
    }

    /// Issues the challenge whose nonce is the hex of `bytes`, pending.
    /// Where that nonce was issued before, nothing changes and nothing is
    /// returned.
    pub fn issue_challenge_from(&mut self, bytes: &[u8; 32]) -> (r: Option<String>)
        requires
            old(self).wf(),
        ensures
            final(self).wf(),
            match r {
                Some(nonce) => nonce@ == hex_encoded(bytes@) && !old(self)@.dom().contains(nonce@)
                    && final(self).entries() == old(self).entries().push(
                    Entry { nonce: nonce@, state: Binding::Pending },
                ) && final(self)@ == old(self)@.insert(nonce@, Binding::Pending),
                None => old(self)@.dom().contains(hex_encoded(bytes@)) && final(self).entries()
                    == old(self).entries(),
            },
    {
        self.store.create_from(bytes)
    }

    /// Issues a challenge with a random nonce, pending. The nonce returned
    /// was not in the table before. Where the bytes drawn give a nonce that
    /// was issued before, nothing changes and nothing is returned.
    pub fn issue_challenge(&mut self) -> (r: Option<String>)
        requires
            old(self).wf(),
        ensures
            final(self).wf(),
            match r {
                Some(nonce) => is_nonce(nonce@) && !old(self)@.dom().contains(nonce@)
                    && final(self).entries() == old(self).entries().push(
                    Entry { nonce: nonce@, state: Binding::Pending },
                ) && final(self)@ == old(self)@.insert(nonce@, Binding::Pending),
                None => final(self).entries() == old(self).entries() && old(self).entries().len()
                    > 0,
            },
    {
        self.store.create()
    }

    /// The first step of a submission: whether `nonce` is issued and still
    /// pending.
    pub fn check_pending(&self, nonce: &str) -> (r: Result<(), AuthError>)
        requires
            self.wf(),
        ensures
            r == pending_outcome(self@, nonce@),
    {
        match self.store.get(nonce) {
            Err(_) => Err(AuthError::UnknownChallenge),
            Ok(record) => match &record.state {
                ChallengeState::Bound(_) => Err(AuthError::AlreadyAuthenticated),
                ChallengeState::Pending => Ok(()),
            },
        }
    }

    /// The second step: whether `signature` is one of `nonce` under
    /// `public_key`. The table is not read.
    pub fn check_proof(&self, nonce: &str, signature: &str, public_key: &str) -> (r: Result<
        (),
        AuthError,
    >)
        ensures
            r == proof_outcome(verify_spec(nonce@, signature@, public_key@)),
    {
        judge(self.verifier.check(nonce, signature, public_key))
    }

    /// The last step: binds `nonce` to `public_key`. Where another
    /// submission bound it in the meantime, the table decides: bound to the
    /// same key it counts as success, bound to another it is refused.
    pub fn commit(&mut self, nonce: &str, public_key: &str) -> (r: Result<(), AuthError>)
        requires
            old(self).wf(),
        ensures
            final(self).wf(),
            r == commit_outcome(old(self)@, nonce@, public_key@),
            final(self).entries() == bind_entries(old(self).entries(), nonce@, public_key@),
            old(self)@.dom().contains(nonce@) && old(self)@[nonce@] is Pending ==> final(self)@
                == old(self)@.insert(nonce@, Binding::Bound(public_key@)),
            !(old(self)@.dom().contains(nonce@) && old(self)@[nonce@] is Pending) ==> final(self)@
                == old(self)@,
    {
        match self.store.bind(nonce, public_key) {
            Ok(_) => Ok(()),
            Err(StoreError::NotFound) => Err(AuthError::UnknownChallenge),
            Err(StoreError::AlreadyBound) => {
                let key = public_key.to_owned();
                match self.store.get(nonce) {
                    Ok(record) => match &record.state {
                        ChallengeState::Bound(bound) => if *bound == key {
                            Ok(())
                        } else {
                            Err(AuthError::AlreadyAuthenticated)
                        },
                        ChallengeState::Pending => Err(AuthError::AlreadyAuthenticated),
                    },
                    Err(_) => Err(AuthError::UnknownChallenge),
                }
            },
        }
    }

    /// Takes a proof for `nonce`: looks the nonce up, checks the signature,
    /// and binds the nonce to `public_key` where the signature holds. A proof
    /// that is refused changes nothing.
    pub fn submit_proof(&mut self, nonce: &str, signature: &str, public_key: &str) -> (r: Result<
        (),
        AuthError,
    >)
        requires
            old(self).wf(),
        ensures
            final(self).wf(),
            r == submit_outcome(old(self)@, nonce@, signature@, public_key@),
            final(self).entries() == submit_entries(
                old(self).entries(),
                nonce@,
                signature@,
                public_key@,
            ),
            r is Ok ==> final(self)@ == old(self)@.insert(nonce@, Binding::Bound(public_key@)),
            r is Err ==> final(self)@ == old(self)@,
    {
        match self.check_pending(nonce) {
            Err(e) => {
                return Err(e);
            },
            Ok(_) => {},
        }
        match self.check_proof(nonce, signature, public_key) {
            Err(e) => {
                return Err(e);
            },
            Ok(_) => {},
        }
        self.commit(nonce, public_key)
    }

    /// The identities that were authenticated, in the order in which their
    /// challenges were issued.
    pub fn list_authenticated(&self) -> (r: Vec<String>)
        ensures
            r@.map_values(|s: String| s@) == bound_identities(self.entries()),
    {
        self.store.list_bound()
    }
}

} // verus!
