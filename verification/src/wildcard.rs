//! Recipients and identities of any kind behind one interface, and the rule
//! that picks the recipients of one encryption.

use vstd::prelude::*;
use crate::classic::{
    classic_identity, classic_recipient, classic_unwrapped, spec_classic_identity_text,
    spec_classic_recipient_text, ScryptIdentity, ScryptRecipient, X25519Identity, X25519Recipient,
};
use crate::error::Error;
use crate::hybrid::{
    recipient_hrp, spec_expand, spec_parse_identity, spec_parse_recipient, spec_recipient_key,
    spec_recipient_text, HybridIdentity, HybridRecipient, identity_hrp, KEM_PUBLIC_BYTES,
    RECIPIENT_BYTES,
};
use crate::secret::SecretText;
use crate::stanza::{spec_unwrap, unwrap_agrees, FileKey, Stanza, WrappedKey};
use crate::text::{is_prefix, starts_with};

verus! {

/// A recipient of any kind.
pub enum WildcardRecipient {
    X25519(X25519Recipient),
    Hybrid(HybridRecipient),
    Scrypt(ScryptRecipient),
}

/// An identity of any kind.
pub enum WildcardIdentity {
    X25519(X25519Identity),
    Hybrid(HybridIdentity),
    Scrypt(ScryptIdentity),
}

/// A recipient as plain values: the text of a classical recipient, the
/// encapsulation key of a hybrid one, or a passphrase.
pub enum RecipientModel {
    X25519(Seq<char>),
    Hybrid(Seq<u8>),
    Scrypt(Seq<char>),
}

/// An identity as plain values: the text of a classical identity, the seed
/// of a hybrid one, or a passphrase.
pub enum IdentityModel {
    X25519(Seq<char>),
    Hybrid(Seq<u8>),
    Scrypt(Seq<char>),
}

impl View for WildcardRecipient {
    type V = RecipientModel;

    open spec fn view(&self) -> RecipientModel {
        match self {
            WildcardRecipient::X25519(r) => RecipientModel::X25519(r.text@),
            WildcardRecipient::Hybrid(r) => RecipientModel::Hybrid(r.encapsulation_key@),
            WildcardRecipient::Scrypt(r) => RecipientModel::Scrypt(r.passphrase@),
        }
    }
}

impl View for WildcardIdentity {
    type V = IdentityModel;

    open spec fn view(&self) -> IdentityModel {
        match self {
            WildcardIdentity::X25519(i) => IdentityModel::X25519(i.text@),
            WildcardIdentity::Hybrid(i) => IdentityModel::Hybrid(i.seed()),
            WildcardIdentity::Scrypt(i) => IdentityModel::Scrypt(i.passphrase@),
        }
    }
}

/// The text of a recipient; a passphrase recipient has none.
pub open spec fn spec_recipient_string(recipient: RecipientModel) -> Result<Seq<char>, Error> {
    match recipient {
        RecipientModel::X25519(text) => Ok(text),
        RecipientModel::Hybrid(key) => Ok(spec_recipient_text(key)),
        RecipientModel::Scrypt(_) => Err(Error::NoPublicForm),
    }
}

/// The recipient that belongs to an identity; a passphrase identity has
/// none, and neither has a classical identity whose text denotes no key.
pub open spec fn spec_public(identity: IdentityModel) -> Result<RecipientModel, Error> {
    match identity {
        IdentityModel::X25519(text) => match classic_identity(text) {
            Some(pair) => Ok(RecipientModel::X25519(pair.1)),
            None => Err(Error::InvalidClassicalKey),
        },
        IdentityModel::Hybrid(seed) => Ok(RecipientModel::Hybrid(spec_recipient_key(seed))),
        IdentityModel::Scrypt(_) => Err(Error::NoPublicForm),
    }
}

/// Whether a recipient result is the one the model gives.
pub open spec fn recipient_agrees(
    got: Result<WildcardRecipient, Error>,
    want: Result<RecipientModel, Error>,
) -> bool {
    match got {
        Ok(r) => want == Ok::<RecipientModel, Error>(r@),
        Err(e) => want == Err::<RecipientModel, Error>(e),
    }
}

/// `text` is the text of the recipient: the very text of a classical
/// recipient; for a hybrid recipient the lower-case Bech32 text of its key,
/// which carries the prefix `age1pq` and parses back to the key.
pub open spec fn is_recipient_text(recipient: RecipientModel, text: Seq<char>) -> bool {
    match recipient {
        RecipientModel::X25519(t) => text == t,
        RecipientModel::Hybrid(key) => {
            &&& text == spec_recipient_text(key)
            &&& text == crate::text::lower_text(text)
            &&& is_prefix(recipient_hrp(), text)
            &&& spec_parse_recipient(text) == Ok::<Seq<u8>, Error>(key)
        },
        RecipientModel::Scrypt(_) => false,
    }
}

/// `text` is the text of the identity: the very text of a classical
/// identity; for a hybrid identity the upper-case Bech32 text of its seed,
/// which carries the prefix `AGE-SECRET-KEY-PQ-` and parses back to the
/// seed.
pub open spec fn is_text_of(identity: IdentityModel, text: Seq<char>) -> bool {
    match identity {
        IdentityModel::X25519(t) => text == t,
        IdentityModel::Hybrid(seed) => {
            &&& text == crate::hybrid::spec_identity_text(seed)
            &&& text == crate::text::upper_text(text)
            &&& is_prefix(identity_hrp(), text)
            &&& spec_parse_identity(text) == Ok::<Seq<u8>, Error>(seed)
        },
        IdentityModel::Scrypt(_) => false,
    }
}

impl WildcardRecipient {
    /// The text of the recipient. A passphrase recipient has none.
    pub fn to_string(&self) -> (text: Result<String, Error>)
        ensures
            match text {
                Ok(t) => spec_recipient_string(self@) == Ok::<Seq<char>, Error>(t@)
                    && is_recipient_text(self@, t@),
                Err(e) => spec_recipient_string(self@) == Err::<Seq<char>, Error>(e),
            },
    {
        match self {
            WildcardRecipient::X25519(r) => Ok(r.to_string()),
            WildcardRecipient::Hybrid(r) => Ok(r.to_string()),
            WildcardRecipient::Scrypt(_) => Err(Error::NoPublicForm),
        }
    }

    /// Wraps a file key for the recipient, as its kind does: a classical
    /// recipient gives one stanza tagged `X25519`, a hybrid recipient one
    /// tagged `mlkem768x25519` that its identities unwrap to the file key,
    /// a passphrase recipient one tagged `scrypt`.
    pub fn wrap_file_key(&self, file_key: &FileKey) -> (wrapped: Result<WrappedKey, Error>)
        ensures
            wrapped matches Err(e) ==> e == Error::WrapFailed,
            match self {
                WildcardRecipient::X25519(r) => match wrapped {
                    Ok(w) => crate::classic::wrappable(r.text@) && classic_recipient(r.text@)
                        is Some && crate::classic::x25519_wrapped(w),
                    Err(_) => !crate::classic::wrappable(r.text@) || classic_recipient(r.text@)
                        is None,
                },
                WildcardRecipient::Hybrid(r) => match wrapped {
                    Ok(w) => crate::stanza::hybrid_wrapped(
                        r.encapsulation_key@,
                        file_key.bytes@,
                        w,
                    ),
                    Err(_) => true,
                },
                WildcardRecipient::Scrypt(_) => match wrapped {
                    Ok(w) => crate::classic::scrypt_wrapped(w),
                    Err(_) => false,
                },
            },
    {
        match self {
            WildcardRecipient::X25519(r) => r.wrap_file_key(file_key),
            WildcardRecipient::Hybrid(r) => r.wrap_file_key(file_key),
            WildcardRecipient::Scrypt(r) => r.wrap_file_key(file_key),
        }
    }
}

impl WildcardIdentity {
    /// The recipient that belongs to the identity. A passphrase identity
    /// has none.
    pub fn to_public(&self) -> (recipient: Result<WildcardRecipient, Error>)
        ensures
            recipient_agrees(recipient, spec_public(self@)),
    {
        match self {
            WildcardIdentity::X25519(i) => match i.to_public() {
                Ok(r) => Ok(WildcardRecipient::X25519(r)),
                Err(e) => Err(e),
            },
            WildcardIdentity::Hybrid(i) => Ok(WildcardRecipient::Hybrid(i.to_public())),
            WildcardIdentity::Scrypt(_) => Err(Error::NoPublicForm),
        }
    }

    /// The text of the identity. A passphrase identity has none.
    pub fn to_string(&self) -> (text: Result<SecretText, Error>)
        ensures
            match text {
                Ok(s) => is_text_of(self@, s@),
                Err(e) => self@ is Scrypt && e == Error::NoPublicForm,
            },
    {
        match self {
            WildcardIdentity::X25519(i) => Ok(i.to_string()),
            WildcardIdentity::Hybrid(i) => Ok(i.to_string()),
            WildcardIdentity::Scrypt(_) => Err(Error::NoPublicForm),
        }
    }

    /// Unwraps a stanza with the identity, as its kind does. A classical
    /// identity whose text denotes no key rejects every stanza.
    pub fn unwrap_stanza(&self, stanza: &Stanza) -> (unwrapped: Option<Result<FileKey, Error>>)
        ensures
            match self {
                WildcardIdentity::Hybrid(i) => unwrap_agrees(
                    unwrapped,
                    spec_unwrap(i.seed(), stanza@),
                ),
                WildcardIdentity::X25519(i) => match classic_identity(i.text@) {
                    Some(_) => unwrap_agrees(
                        unwrapped,
                        classic_unwrapped(i.text@, stanza@.tag, stanza@.args, stanza@.body),
                    ),
                    None => unwrapped matches Some(Err(e)) && e == Error::InvalidClassicalKey,
                },
                WildcardIdentity::Scrypt(_) => crate::classic::scrypt_unwrap_holds(
                    stanza@,
                    unwrapped,
                ),
            },
    {
        match self {
            WildcardIdentity::X25519(i) => i.unwrap_stanza(stanza),
            WildcardIdentity::Hybrid(i) => i.unwrap_stanza(stanza),
            WildcardIdentity::Scrypt(i) => i.unwrap_stanza(stanza),
        }
    }

    /// The identities to try when decrypting with this one: a hybrid
    /// identity is followed by its classical twin, so that a file encrypted
    /// to either form decrypts; any other identity stands alone. The twin
    /// is an identity of the classical twin of the hybrid recipient.
    pub fn decryption_identities(self) -> (identities: Vec<WildcardIdentity>)
        ensures
            match self@ {
                IdentityModel::Hybrid(seed) => {
                    &&& identities@.len() == 2
                    &&& identities@[0]@ == self@
                    &&& identities@[1]@ == IdentityModel::X25519(
                        spec_classic_identity_text(spec_expand(seed).dk_t),
                    )
                    &&& crate::classic::identity_of(
                        spec_classic_identity_text(spec_expand(seed).dk_t),
                        spec_classic_recipient_text(spec_expand(seed).ek_t),
                    )
                },
                _ => identities@.len() == 1 && identities@[0]@ == self@,
            },
    {
        let mut identities: Vec<WildcardIdentity> = Vec::new();
        match self {
            WildcardIdentity::Hybrid(i) => {
                let twin = i.to_x25519();
                identities.push(WildcardIdentity::Hybrid(i));
                identities.push(WildcardIdentity::X25519(twin));
            },
            WildcardIdentity::X25519(i) => {
                identities.push(WildcardIdentity::X25519(i));
            },
            WildcardIdentity::Scrypt(i) => {
                identities.push(WildcardIdentity::Scrypt(i));
            },
        }
        identities
    }
}

/// The identity that a private key text denotes: hybrid when the text
/// carries the hybrid prefix, classical otherwise.
pub open spec fn spec_identity_from_text(text: Seq<char>) -> Result<IdentityModel, Error> {
    if is_prefix(identity_hrp(), text) {
        match spec_parse_identity(text) {
            Ok(seed) => Ok(IdentityModel::Hybrid(seed)),
            Err(e) => Err(e),
        }
    } else {
        match classic_identity(text) {
            Some(pair) => Ok(IdentityModel::X25519(pair.0)),
            None => Err(Error::InvalidClassicalKey),
        }
    }
}

/// Whether an identity result is the one the model gives.
pub open spec fn identity_agrees(
    got: Result<WildcardIdentity, Error>,
    want: Result<IdentityModel, Error>,
) -> bool {
    match got {
        Ok(i) => want == Ok::<IdentityModel, Error>(i@),
        Err(e) => want == Err::<IdentityModel, Error>(e),
    }
}

/// Reads a private key text as an identity of the kind its prefix names.
pub fn identity_from_text(text: SecretText) -> (identity: Result<WildcardIdentity, Error>)
    ensures
        identity_agrees(identity, spec_identity_from_text(text@)),
{
    if starts_with(text.expose(), "AGE-SECRET-KEY-PQ-") {
        match HybridIdentity::from_string(text) {
            Ok(i) => Ok(WildcardIdentity::Hybrid(i)),
            Err(e) => Err(e),
        }
    } else {
        match X25519Identity::from_string(&text) {
            Ok(i) => Ok(WildcardIdentity::X25519(i)),
            Err(e) => Err(e),
        }
    }
}

/// Every key of the list is a hybrid recipient by its prefix.
pub open spec fn all_hybrid(keys: Seq<Seq<char>>) -> bool {
    forall|i: int| 0 <= i < keys.len() ==> is_prefix(recipient_hrp(), #[trigger] keys[i])
}

/// The recipient used for one public key text. A hybrid key is used as it
/// is when `keep_hybrid` holds and as its classical twin otherwise; any
/// other key is a classical recipient.
pub open spec fn spec_select(key: Seq<char>, keep_hybrid: bool) -> Result<RecipientModel, Error> {
    if is_prefix(recipient_hrp(), key) {
        match spec_parse_recipient(key) {
            Err(e) => Err(e),
            Ok(k) => if keep_hybrid {
                Ok(RecipientModel::Hybrid(k))
            } else {
                Ok(
                    RecipientModel::X25519(
                        spec_classic_recipient_text(
                            k.subrange(KEM_PUBLIC_BYTES as int, RECIPIENT_BYTES as int),
                        ),
                    ),
                )
            },
        }
    } else {
        match classic_recipient(key) {
            Some(canonical) => Ok(RecipientModel::X25519(canonical)),
            None => Err(Error::InvalidClassicalKey),
        }
    }
}

/// The recipient used for one public key text.
pub fn select_recipient(key: &String, keep_hybrid: bool) -> (recipient: Result<
    WildcardRecipient,
    Error,
>)
    ensures
        recipient_agrees(recipient, spec_select(key@, keep_hybrid)),
{
    if starts_with(key.as_str(), "age1pq") {
        match HybridRecipient::from_string(key) {
            Err(e) => Err(e),
            Ok(hybrid) => {
                if keep_hybrid {
                    Ok(WildcardRecipient::Hybrid(hybrid))
                } else {
                    Ok(WildcardRecipient::X25519(hybrid.to_x25519()))
                }
            },
        }
    } else {
        match X25519Recipient::from_string(key.as_str()) {
            Ok(r) => Ok(WildcardRecipient::X25519(r)),
            Err(e) => Err(e),
        }
    }
}

/// Whether every key of the list is a hybrid recipient by its prefix.
pub fn keys_all_hybrid(keys: &Vec<String>) -> (all: bool)
    ensures
        all == all_hybrid(crate::stanza::texts_of(keys@)),
{
    let mut i: usize = 0;
    while i < keys.len()
        invariant
            i <= keys.len(),
            forall|j: int| 0 <= j < i ==> is_prefix(recipient_hrp(), #[trigger] keys@[j]@),
        decreases keys.len() - i,
    {
        if !starts_with(keys[i].as_str(), "age1pq") {
            assert(!is_prefix(recipient_hrp(), crate::stanza::texts_of(keys@)[i as int]));
            return false;
        }
        i = i + 1;
    }
    assert forall|j: int| 0 <= j < keys@.len() implies is_prefix(
        recipient_hrp(),
        #[trigger] crate::stanza::texts_of(keys@)[j],
    ) by {
        assert(is_prefix(recipient_hrp(), keys@[j]@));
    }
    true
}

/// Picks the recipients for one encryption. When every requested key is
/// hybrid, the recipients are the hybrid recipients; otherwise every hybrid
/// key is replaced by its classical twin, so that all recipients are
/// classical. Fails with the error of the first key that does not parse.
pub fn select_recipients(keys: &Vec<String>) -> (recipients: Result<Vec<WildcardRecipient>, Error>)
    ensures
        match recipients {
            Ok(list) => {
                &&& list@.len() == keys@.len()
                &&& forall|i: int|
                    0 <= i < keys@.len() ==> spec_select(
                        #[trigger] keys@[i]@,
                        all_hybrid(crate::stanza::texts_of(keys@)),
                    ) == Ok::<RecipientModel, Error>(list@[i]@)
                &&& all_hybrid(crate::stanza::texts_of(keys@)) ==> forall|i: int|
                    0 <= i < list@.len() ==> #[trigger] list@[i] is Hybrid
                &&& !all_hybrid(crate::stanza::texts_of(keys@)) ==> forall|i: int|
                    0 <= i < list@.len() ==> #[trigger] list@[i] is X25519
            },
            Err(e) => exists|i: int|
                {
                    &&& 0 <= i < keys@.len()
                    &&& spec_select(
                        #[trigger] keys@[i]@,
                        all_hybrid(crate::stanza::texts_of(keys@)),
                    ) == Err::<RecipientModel, Error>(e)
                    &&& forall|j: int|
                        0 <= j < i ==> spec_select(
                            #[trigger] keys@[j]@,
                            all_hybrid(crate::stanza::texts_of(keys@)),
                        ) is Ok
                },
        },
{
    let keep_hybrid = keys_all_hybrid(keys);
    let mut list: Vec<WildcardRecipient> = Vec::new();
    let mut i: usize = 0;
    while i < keys.len()
        invariant
            i <= keys.len(),
            list@.len() == i,
            keep_hybrid == all_hybrid(crate::stanza::texts_of(keys@)),
            forall|j: int|
                0 <= j < i ==> spec_select(#[trigger] keys@[j]@, keep_hybrid) == Ok::<
                    RecipientModel,
                    Error,
                >(list@[j]@),
            keep_hybrid ==> forall|j: int| 0 <= j < i ==> #[trigger] list@[j] is Hybrid,
            !keep_hybrid ==> forall|j: int| 0 <= j < i ==> #[trigger] list@[j] is X25519,
        decreases keys.len() - i,
    {
        match select_recipient(&keys[i], keep_hybrid) {
            Err(e) => {
                return Err(e);
            },
            Ok(recipient) => {
                proof {
                    if keep_hybrid {
                        assert(is_prefix(
                            recipient_hrp(),
                            crate::stanza::texts_of(keys@)[i as int],
                        ));
                    }
                }
                list.push(recipient);
            },
        }
        i = i + 1;
    }
    Ok(list)
}

} // verus!
