//! The record envelope that crosses the wire, in the clear and encrypted.

use crate::codec::{base64_bytes, base64_decode, base64_encode, base64_text, MAX_ENCODE_LEN};
use crate::error::{ErrorKind, ErrorView, InvalidRecord};
use crate::key_bundle::{
    aes256_cbc_encrypted, decrypted_text, hmac_matches, hmac_text, IV_LEN, KeyBundle, KeyView,
};
use crate::json::{
    find_member, json_parsed, json_quote, json_quoted, lookup, members_view, parse_json, JsonNumber,
    JsonNumberView, JsonValue, JsonView,
};
use crate::platform::random_bytes;
use crate::text::{decimal, decimal_millis, parse_decimal_millis, push_char, push_decimal};
use vstd::prelude::*;
use vstd::string::StringExecFns;
use vstd::utf8::encode_utf8;

verus! {

/// A server's time stamp, in milliseconds since the Unix epoch. A client
/// never sends one.
#[derive(Debug, Clone, Copy, PartialEq, Eq, Structural)]
pub struct ServerTimestamp(pub i64);

/// A record as the server holds it, with a payload of type `T`.
#[derive(Debug, Clone)]
pub struct BsoRecord<T> {
    pub id: String,
    pub collection: String,
    pub modified: ServerTimestamp,
    pub sortindex: Option<i32>,
    pub ttl: Option<u32>,
    pub payload: T,
}

/// What an envelope carries beside its payload.
pub struct EnvelopeHead {
    pub id: Seq<char>,
    pub collection: Seq<char>,
    pub modified: ServerTimestamp,
    pub sortindex: Option<i32>,
    pub ttl: Option<u32>,
}

impl<T> BsoRecord<T> {
    /// The envelope without its payload.
    pub open spec fn head(&self) -> EnvelopeHead {
        EnvelopeHead {
            id: self.id@,
            collection: self.collection@,
            modified: self.modified,
            sortindex: self.sortindex,
            ttl: self.ttl,
        }
    }

    /// The same envelope around the payload that `mapper` makes of this
    /// one's.
    pub fn map_payload<P, F: FnOnce(T) -> P>(self, mapper: F) -> (r: BsoRecord<P>)
        requires
            mapper.requires((self.payload,)),
        ensures
            r.head() == self.head(),
            mapper.ensures((self.payload,), r.payload),
    {
        BsoRecord {
            id: self.id,
            collection: self.collection,
            modified: self.modified,
            sortindex: self.sortindex,
            ttl: self.ttl,
            payload: mapper(self.payload),
        }
    }

    /// The same envelope around another payload.
    pub fn with_payload<P>(self, payload: P) -> (r: BsoRecord<P>)
        ensures
            r.head() == self.head(),
            r.payload == payload,
    {
        BsoRecord {
            id: self.id,
            collection: self.collection,
            modified: self.modified,
            sortindex: self.sortindex,
            ttl: self.ttl,
            payload,
        }
    }
}

impl<T> BsoRecord<Option<T>> {
    /// The envelope around the payload, if there is one: a record that may
    /// be a tombstone becomes a record or nothing.
    pub fn transpose(self) -> (r: Option<BsoRecord<T>>)
        ensures
            self.payload is None <==> r is None,
            r matches Some(rec) ==> rec.head() == self.head() && Some(rec.payload) == self.payload,
    {
        let BsoRecord { id, collection, modified, sortindex, ttl, payload } = self;
        match payload {
            Some(p) => Some(BsoRecord { id, collection, modified, sortindex, ttl, payload: p }),
            None => None,
        }
    }
}

/// A type of record that is synced. An encrypted payload is none, so that
/// nothing is encrypted twice.
///
/// The library asks nothing of what the methods return: what it does with
/// an id, a collection or a JSON text is stated by the functions that take
/// them as arguments.
pub trait Sync15Record: Sized {
    /// The collection that records of this type belong to.
    fn collection_tag() -> &'static str;

    /// The record's id.
    fn record_id(&self) -> &str;

    /// Encodes the record as JSON.
    fn to_json(&self) -> String;

    /// Decodes a record from JSON, if the text stands for one.
    fn from_json(text: &str) -> Option<Self>;
}

impl<T> BsoRecord<T> {
    /// The envelope of a payload that was never on a server: it has no
    /// time stamp, sort index or time to live.
    pub fn new(id: String, collection: String, payload: T) -> (r: BsoRecord<T>)
        ensures
            r.payload == payload,
            r.head() == (EnvelopeHead {
                id: id@,
                collection: collection@,
                modified: ServerTimestamp(0),
                sortindex: None,
                ttl: None,
            }),
    {
        BsoRecord { id, collection, payload, modified: ServerTimestamp(0), sortindex: None, ttl: None }
    }
}

impl<T: Sync15Record> BsoRecord<T> {
    /// The envelope of a record that was never on a server, under the id
    /// and the collection that the record names.
    pub fn from_payload(payload: T) -> (r: BsoRecord<T>)
        ensures
            r.payload == payload,
            r.modified == ServerTimestamp(0),
            r.sortindex is None,
            r.ttl is None,
    {
        let id = payload.record_id().to_owned();
        let collection = T::collection_tag().to_owned();
        BsoRecord::new(id, collection, payload)
    }
}

impl<T: Sync15Record> From<T> for BsoRecord<T> {
    /// The envelope of a record that was never on a server.
    fn from(payload: T) -> (r: BsoRecord<T>) {
        BsoRecord::from_payload(payload)
    }
}

impl<T: Sync15Record> vstd::std_specs::convert::FromSpecImpl<T> for BsoRecord<T> {
    /// The id and the collection are what the record's methods return, so
    /// the conversion is held to no spec function.
    open spec fn obeys_from_spec() -> bool {
        false
    }

    open spec fn from_spec(payload: T) -> BsoRecord<T> {
        arbitrary()
    }
}

impl<T> std::ops::Deref for BsoRecord<T> {
    type Target = T;

    fn deref(&self) -> (r: &T)
        ensures
            *r == self.payload,
    {
        &self.payload
    }
}

impl<T> std::ops::DerefMut for BsoRecord<T> {
    fn deref_mut(&mut self) -> (r: &mut T)
        ensures
            *r == old(self).payload,
            final(self).payload == *final(r),
            final(self).head() == old(self).head(),
    {
        &mut self.payload
    }
}

/// An encrypted payload: the vector, the tag and the ciphertext, each in
/// base64.
#[derive(Debug, Clone)]
pub struct EncryptedPayload {
    pub iv: String,
    pub hmac: String,
    pub ciphertext: String,
}

pub struct PayloadView {
    pub iv: Seq<char>,
    pub hmac: Seq<char>,
    pub ciphertext: Seq<char>,
}

impl View for EncryptedPayload {
    type V = PayloadView;

    open spec fn view(&self) -> PayloadView {
        PayloadView { iv: self.iv@, hmac: self.hmac@, ciphertext: self.ciphertext@ }
    }
}

/// The encrypted payload for a cleartext under a vector.
///
/// The cleartext's bytes are encrypted; vector and ciphertext are put in
/// base64; the tag is taken over the bytes of the ciphertext's base64
/// text. A vector of another length than 16 bytes, or a text beyond the
/// encoder's limit, is a crypto failure.
pub open spec fn sealed(key: KeyView, cleartext: Seq<char>, iv: Seq<u8>) -> Result<PayloadView, ErrorView> {
    let plain = encode_utf8(cleartext);
    let cipher = aes256_cbc_encrypted(key.enc, iv, plain);
    if iv.len() != IV_LEN || plain.len() > MAX_ENCODE_LEN || cipher.len() > MAX_ENCODE_LEN {
        Err(ErrorView::CryptoFailure)
    } else {
        Ok(
            PayloadView {
                iv: base64_text(iv),
                hmac: hmac_text(key, encode_utf8(base64_text(cipher))),
                ciphertext: base64_text(cipher),
            },
        )
    }
}

/// The cleartext of an encrypted payload.
///
/// The tag is checked first: a payload whose tag does not match is an HMAC
/// mismatch, whatever else is wrong with it. Then vector and ciphertext
/// are read from base64 and the ciphertext is decrypted; whatever fails
/// there is a crypto failure.
pub open spec fn opened(key: KeyView, p: PayloadView) -> Result<Seq<char>, ErrorView> {
    if !hmac_matches(key, p.hmac, encode_utf8(p.ciphertext)) {
        Err(ErrorView::HmacMismatch)
    } else {
        match (base64_bytes(p.iv), base64_bytes(p.ciphertext)) {
            (Some(iv), Some(cipher)) => match decrypted_text(key, cipher, iv) {
                Some(text) => Ok(text),
                None => Err(ErrorView::CryptoFailure),
            },
            _ => Err(ErrorView::CryptoFailure),
        }
    }
}

/// Encrypts a cleartext under the vector `iv`.
pub fn seal_with_iv(key: &KeyBundle, cleartext: &str, iv: &[u8]) -> (r: Result<EncryptedPayload, ErrorKind>)
    ensures
        r matches Ok(p) ==> sealed(key@, cleartext@, iv@) == Ok::<PayloadView, ErrorView>(p@),
        r matches Err(e) ==> sealed(key@, cleartext@, iv@) == Err::<PayloadView, ErrorView>(e@),
{
    let enc_bytes = match key.encrypt_bytes_with_iv(cleartext.as_bytes(), iv) {
        Ok(v) => v,
        Err(e) => {
            return Err(e);
        },
    };
    if enc_bytes.len() > MAX_ENCODE_LEN {
        return Err(ErrorKind::CryptoFailure);
    }
    let iv_base64 = base64_encode(iv);
    let enc_base64 = base64_encode(enc_bytes.as_slice());
    let hmac = match key.hmac_string(enc_base64.as_str().as_bytes()) {
        Ok(tag) => tag,
        Err(e) => {
            return Err(e);
        },
    };
    Ok(EncryptedPayload { iv: iv_base64, hmac, ciphertext: enc_base64 })
}

/// Decrypts a payload, after checking its tag. A payload that was sealed
/// under this bundle comes back as the cleartext that went in.
pub fn open_payload(key: &KeyBundle, payload: &EncryptedPayload) -> (r: Result<String, ErrorKind>)
    ensures
        r matches Ok(text) ==> opened(key@, payload@) == Ok::<Seq<char>, ErrorView>(text@),
        r matches Err(e) ==> opened(key@, payload@) == Err::<Seq<char>, ErrorView>(e@),
        forall|cleartext: Seq<char>, iv: Seq<u8>|
            #[trigger] sealed(key@, cleartext, iv) == Ok::<PayloadView, ErrorView>(payload@) ==> (r matches Ok(text)
                && text@ == cleartext),
{
    let ok = match key.verify_hmac_string(payload.hmac.as_str(), payload.ciphertext.as_str()) {
        Ok(ok) => ok,
        Err(e) => {
            return Err(e);
        },
    };
    if !ok {
        return Err(ErrorKind::HmacMismatch);
    }
    let iv = match base64_decode(payload.iv.as_str()) {
        Some(v) => v,
        None => {
            return Err(ErrorKind::CryptoFailure);
        },
    };
    let ciphertext = match base64_decode(payload.ciphertext.as_str()) {
        Some(v) => v,
        None => {
            return Err(ErrorKind::CryptoFailure);
        },
    };
    key.decrypt(ciphertext.as_slice(), iv.as_slice())
}

impl BsoRecord<EncryptedPayload> {
    /// Decrypts the payload to its cleartext, after checking its tag. An
    /// envelope that was sealed under this bundle comes back as it went
    /// in.
    pub fn open(self, key: &KeyBundle) -> (r: Result<BsoRecord<String>, ErrorKind>)
        ensures
            match opened(key@, self.payload@) {
                Ok(text) => r matches Ok(rec) && rec.head() == self.head() && rec.payload@ == text,
                Err(e) => r matches Err(got) && got@ == e,
            },
            forall|cleartext: Seq<char>, iv: Seq<u8>|
                #[trigger] sealed(key@, cleartext, iv) == Ok::<PayloadView, ErrorView>(self.payload@) ==> (r matches Ok(
                    rec,
                ) && rec.head() == self.head() && rec.payload@ == cleartext),
    {
        match open_payload(key, &self.payload) {
            Ok(text) => Ok(self.with_payload(text)),
            Err(e) => Err(e),
        }
    }

    /// Decrypts the payload and decodes a record of type `T` from its
    /// cleartext. A tag mismatch is reported before anything is
    /// decrypted; a cleartext that `T` does not read is a schema
    /// violation.
    pub fn decrypt<T: Sync15Record>(self, key: &KeyBundle) -> (r: Result<BsoRecord<T>, ErrorKind>)
        ensures
            match opened(key@, self.payload@) {
                Ok(text) => match r {
                    Ok(rec) => rec.head() == self.head(),
                    Err(e) => e@ == ErrorView::InvalidRecord(InvalidRecord::SchemaViolation),
                },
                Err(e) => r matches Err(got) && got@ == e,
            },
    {
        let clear = match self.open(key) {
            Ok(rec) => rec,
            Err(e) => {
                return Err(e);
            },
        };
        match T::from_json(clear.payload.as_str()) {
            Some(p) => Ok(clear.with_payload(p)),
            None => Err(ErrorKind::InvalidRecord(InvalidRecord::SchemaViolation)),
        }
    }
}

impl BsoRecord<String> {
    /// Encrypts the payload, a cleartext, under the vector `iv`.
    pub fn seal(self, key: &KeyBundle, iv: &[u8]) -> (r: Result<BsoRecord<EncryptedPayload>, ErrorKind>)
        ensures
            match sealed(key@, self.payload@, iv@) {
                Ok(p) => r matches Ok(rec) && rec.head() == self.head() && rec.payload@ == p,
                Err(e) => r matches Err(got) && got@ == e,
            },
    {
        match seal_with_iv(key, self.payload.as_str(), iv) {
            Ok(p) => Ok(self.with_payload(p)),
            Err(e) => Err(e),
        }
    }
}

impl<T: Sync15Record> BsoRecord<T> {
    /// Encrypts the record's JSON text under a fresh random vector.
    /// Whatever text the record gives and whatever vector is drawn, the
    /// result is the sealed envelope for them.
    pub fn encrypt(self, key: &KeyBundle) -> (r: Result<BsoRecord<EncryptedPayload>, ErrorKind>)
        ensures
            exists|cleartext: Seq<char>, iv: Seq<u8>|
                iv.len() == IV_LEN && match #[trigger] sealed(key@, cleartext, iv) {
                    Ok(p) => r matches Ok(rec) && rec.head() == self.head() && rec.payload@ == p,
                    Err(e) => r matches Err(got) && got@ == e,
                },
    {
        let cleartext = self.payload.to_json();
        let iv = random_bytes(IV_LEN);
        let ghost head = self.head();
        let r = self.with_payload(cleartext).seal(key, iv.as_slice());
        proof {
            let out = sealed(key@, cleartext@, iv@);
            assert(match out {
                Ok(p) => r matches Ok(rec) && rec.head() == head && rec.payload@ == p,
                Err(e) => r matches Err(got) && got@ == e,
            });
        }
        r
    }
}

/// An encrypted envelope: its head and its payload.
pub struct EnvelopeView {
    pub head: EnvelopeHead,
    pub payload: PayloadView,
}

impl View for BsoRecord<EncryptedPayload> {
    type V = EnvelopeView;

    open spec fn view(&self) -> EnvelopeView {
        EnvelopeView { head: self.head(), payload: self.payload@ }
    }
}

/// The JSON text of an encrypted payload: an object of the three texts,
/// quoted, without any space.
pub open spec fn payload_text(p: PayloadView) -> Seq<char> {
    "{\"IV\":"@ + json_quoted(p.iv) + ",\"hmac\":"@ + json_quoted(p.hmac) + ",\"ciphertext\":"@ + json_quoted(
        p.ciphertext,
    ) + "}"@
}

/// The decimal numeral of an integer, with a minus sign if it is negative.
pub open spec fn signed_decimal(n: int) -> Seq<char> {
    if n < 0 {
        seq!['-'] + decimal((-n) as nat)
    } else {
        decimal(n as nat)
    }
}

/// The part of the wire text for the sort index: nothing where there is
/// none.
pub open spec fn sortindex_text(sortindex: Option<i32>) -> Seq<char> {
    match sortindex {
        Some(n) => ",\"sortindex\":"@ + signed_decimal(n as int),
        None => Seq::empty(),
    }
}

/// The part of the wire text for the time to live: nothing where there is
/// none.
pub open spec fn ttl_text(ttl: Option<u32>) -> Seq<char> {
    match ttl {
        Some(n) => ",\"ttl\":"@ + decimal(n as nat),
        None => Seq::empty(),
    }
}

/// The text that a client sends for an encrypted envelope: id and
/// collection, sort index and time to live where there are any, and the
/// payload's JSON text as one quoted string. The time stamp is not sent.
pub open spec fn wire_text(e: EnvelopeView) -> Seq<char> {
    "{\"id\":"@ + json_quoted(e.head.id) + ",\"collection\":"@ + json_quoted(e.head.collection) + sortindex_text(
        e.head.sortindex,
    ) + ttl_text(e.head.ttl) + ",\"payload\":"@ + json_quoted(payload_text(e.payload)) + "}"@
}

/// The text of the member called `name`, if there is one and it is a text.
pub open spec fn text_member(ms: Seq<(Seq<char>, JsonView)>, name: Seq<char>) -> Option<Seq<char>> {
    match lookup(ms, name) {
        Some(JsonView::Text(t)) => Some(t),
        _ => None,
    }
}

/// The encrypted payload that a tree stands for: an object with the three
/// texts. Other members are passed over.
pub open spec fn payload_of_tree(v: JsonView) -> Option<PayloadView> {
    match v {
        JsonView::Object(ms) => match (text_member(ms, "IV"@), text_member(ms, "hmac"@), text_member(ms, "ciphertext"@)) {
            (Some(iv), Some(hmac), Some(ciphertext)) => Some(PayloadView { iv, hmac, ciphertext }),
            _ => None,
        },
        _ => None,
    }
}

/// The encrypted payload that a JSON text stands for.
pub open spec fn payload_of_text(text: Seq<char>) -> Option<PayloadView> {
    match json_parsed(text) {
        Some(v) => payload_of_tree(v),
        None => None,
    }
}

/// The integer that a number is, if it is one.
pub open spec fn int_of_number(n: JsonNumberView) -> Option<int> {
    match n {
        JsonNumberView::PosInt(u) => Some(u as int),
        JsonNumberView::NegInt(i) => Some(i as int),
        JsonNumberView::Float(_) => None,
    }
}

/// An optional integer member within bounds: `Some(None)` where the member
/// is absent or null, `None` where it is anything but an integer within
/// the bounds.
pub open spec fn optional_int(ms: Seq<(Seq<char>, JsonView)>, name: Seq<char>, low: int, high: int) -> Option<
    Option<int>,
> {
    match lookup(ms, name) {
        None => Some(None),
        Some(JsonView::Null) => Some(None),
        Some(JsonView::Number(n)) => match int_of_number(n) {
            Some(i) => if low <= i <= high {
                Some(Some(i))
            } else {
                None
            },
            None => None,
        },
        Some(_) => None,
    }
}

/// Seconds as a number, in milliseconds, if they fit in 64 bits.
pub open spec fn millis_of_number(n: JsonNumberView) -> Option<i64> {
    let ms: Option<int> = match n {
        JsonNumberView::PosInt(u) => Some(u * 1000),
        JsonNumberView::NegInt(i) => Some(i * 1000),
        JsonNumberView::Float(t) => decimal_millis(t),
    };
    match ms {
        Some(m) => if i64::MIN <= m <= i64::MAX {
            Some(m as i64)
        } else {
            None
        },
        None => None,
    }
}

/// The time stamp of a received envelope: the member `modified`, which
/// must be a number.
pub open spec fn modified_member(ms: Seq<(Seq<char>, JsonView)>) -> Option<i64> {
    match lookup(ms, "modified"@) {
        Some(JsonView::Number(n)) => millis_of_number(n),
        _ => None,
    }
}

/// The collection of a received envelope: the member `collection`, which
/// must be a text; the empty text where it is absent.
pub open spec fn collection_member(ms: Seq<(Seq<char>, JsonView)>) -> Option<Seq<char>> {
    match lookup(ms, "collection"@) {
        None => Some(Seq::empty()),
        Some(JsonView::Text(t)) => Some(t),
        Some(_) => None,
    }
}

/// The encrypted envelope that a tree stands for: an object with an id, a
/// time stamp and a payload, the payload being the JSON text of an
/// encrypted payload. Members that the envelope does not know are passed
/// over.
pub open spec fn envelope_of_tree(v: JsonView) -> Option<EnvelopeView> {
    match v {
        JsonView::Object(ms) => match (
            text_member(ms, "id"@),
            collection_member(ms),
            modified_member(ms),
            optional_int(ms, "sortindex"@, i32::MIN as int, i32::MAX as int),
            optional_int(ms, "ttl"@, 0, u32::MAX as int),
            text_member(ms, "payload"@),
        ) {
            (Some(id), Some(collection), Some(modified), Some(sortindex), Some(ttl), Some(text)) => match payload_of_text(
                text,
            ) {
                Some(payload) => Some(
                    EnvelopeView {
                        head: EnvelopeHead {
                            id,
                            collection,
                            modified: ServerTimestamp(modified),
                            sortindex: match sortindex {
                                Some(i) => Some(i as i32),
                                None => None,
                            },
                            ttl: match ttl {
                                Some(i) => Some(i as u32),
                                None => None,
                            },
                        },
                        payload,
                    },
                ),
                None => None,
            },
            _ => None,
        },
        _ => None,
    }
}

/// The encrypted envelope that a JSON text stands for.
pub open spec fn envelope_of_text(text: Seq<char>) -> Option<EnvelopeView> {
    match json_parsed(text) {
        Some(v) => envelope_of_tree(v),
        None => None,
    }
}

/// The JSON text of an encrypted payload, as it is embedded in an
/// envelope.
pub fn serialize(payload: &EncryptedPayload) -> (text: String)
    ensures
        text@ == payload_text(payload@),
{
    let mut out = String::new();
    out.append("{\"IV\":");
    out.append(json_quote(payload.iv.as_str()).as_str());
    out.append(",\"hmac\":");
    out.append(json_quote(payload.hmac.as_str()).as_str());
    out.append(",\"ciphertext\":");
    out.append(json_quote(payload.ciphertext.as_str()).as_str());
    out.append("}");
    assert(out@ =~= payload_text(payload@));
    out
}

fn text_of<'a>(ms: &'a Vec<crate::json::Member>, name: &str) -> (r: Option<&'a String>)
    ensures
        r is Some <==> text_member(members_view(ms@), name@) is Some,
        r matches Some(t) ==> text_member(members_view(ms@), name@) == Some(t@),
{
    match find_member(ms, name) {
        Some(JsonValue::Text(t)) => Some(t),
        _ => None,
    }
}

/// Reads an encrypted payload from a tree.
pub fn payload_from_value(v: &JsonValue) -> (r: Option<EncryptedPayload>)
    ensures
        r is Some <==> payload_of_tree(v@) is Some,
        r matches Some(p) ==> payload_of_tree(v@) == Some(p@),
{
    proof {
        crate::json::lemma_value_view(*v);
    }
    match v {
        JsonValue::Object(ms) => match (text_of(ms, "IV"), text_of(ms, "hmac"), text_of(ms, "ciphertext")) {
            (Some(iv), Some(hmac), Some(ciphertext)) => Some(
                EncryptedPayload { iv: iv.clone(), hmac: hmac.clone(), ciphertext: ciphertext.clone() },
            ),
            _ => None,
        },
        _ => None,
    }
}

/// Reads an encrypted payload from the JSON text that an envelope embeds.
/// A text that is no such payload is a schema violation.
pub fn deserialize(text: &str) -> (r: Result<EncryptedPayload, ErrorKind>)
    ensures
        r matches Ok(p) ==> payload_of_text(text@) == Some(p@),
        r matches Err(e) ==> payload_of_text(text@) is None && e@ == ErrorView::InvalidRecord(
            InvalidRecord::SchemaViolation,
        ),
{
    match parse_json(text) {
        Some(v) => match payload_from_value(&v) {
            Some(p) => Ok(p),
            None => Err(ErrorKind::InvalidRecord(InvalidRecord::SchemaViolation)),
        },
        None => Err(ErrorKind::InvalidRecord(InvalidRecord::SchemaViolation)),
    }
}

fn number_as_int(n: &JsonNumber) -> (r: Option<i128>)
    ensures
        r is Some <==> int_of_number(n@) is Some,
        r matches Some(i) ==> int_of_number(n@) == Some(i as int),
{
    match n {
        JsonNumber::PosInt(u) => Some(*u as i128),
        JsonNumber::NegInt(i) => Some(*i as i128),
        JsonNumber::Float(_) => None,
    }
}

fn optional_int_of(ms: &Vec<crate::json::Member>, name: &str, low: i64, high: i64) -> (r: Option<Option<i64>>)
    ensures
        r is Some <==> optional_int(members_view(ms@), name@, low as int, high as int) is Some,
        r matches Some(x) ==> optional_int(members_view(ms@), name@, low as int, high as int) == Some(
            match x {
                Some(i) => Some(i as int),
                None => None,
            },
        ),
{
    match find_member(ms, name) {
        None => Some(None),
        Some(JsonValue::Null) => Some(None),
        Some(JsonValue::Number(n)) => match number_as_int(n) {
            Some(i) => if low as i128 <= i && i <= high as i128 {
                Some(Some(i as i64))
            } else {
                None
            },
            None => None,
        },
        Some(_) => None,
    }
}

fn millis_of(n: &JsonNumber) -> (r: Option<i64>)
    ensures
        r == millis_of_number(n@),
{
    match n {
        JsonNumber::PosInt(u) => if *u <= (i64::MAX as u64) / 1000 {
            Some((*u * 1000) as i64)
        } else {
            None
        },
        JsonNumber::NegInt(i) => if *i >= i64::MIN / 1000 && *i <= i64::MAX / 1000 {
            Some(*i * 1000)
        } else {
            None
        },
        JsonNumber::Float(t) => parse_decimal_millis(t.as_str()),
    }
}

fn push_signed(out: &mut String, n: i32)
    ensures
        final(out)@ == old(out)@ + signed_decimal(n as int),
{
    let wide: i64 = n as i64;
    if wide < 0 {
        push_char(out, '-');
        push_decimal(out, (-wide) as u64);
        assert(final(out)@ =~= old(out)@ + signed_decimal(n as int));
    } else {
        push_decimal(out, wide as u64);
    }
}

impl BsoRecord<EncryptedPayload> {
    /// The text that a client sends for the envelope.
    pub fn to_wire(&self) -> (text: String)
        ensures
            text@ == wire_text(self@),
    {
        let mut out = String::new();
        out.append("{\"id\":");
        out.append(json_quote(self.id.as_str()).as_str());
        out.append(",\"collection\":");
        out.append(json_quote(self.collection.as_str()).as_str());
        let ghost head = out@;
        match self.sortindex {
            Some(n) => {
                out.append(",\"sortindex\":");
                push_signed(&mut out, n);
            },
            None => {},
        }
        assert(out@ =~= head + sortindex_text(self.sortindex));
        let ghost sorted = out@;
        match self.ttl {
            Some(n) => {
                out.append(",\"ttl\":");
                push_decimal(&mut out, n as u64);
            },
            None => {},
        }
        assert(out@ =~= sorted + ttl_text(self.ttl));
        out.append(",\"payload\":");
        out.append(json_quote(serialize(&self.payload).as_str()).as_str());
        out.append("}");
        assert(out@ =~= wire_text(self@));
        out
    }

    /// Reads an encrypted envelope from a tree. A tree that is no such
    /// envelope is a schema violation.
    pub fn from_value(v: &JsonValue) -> (r: Result<BsoRecord<EncryptedPayload>, ErrorKind>)
        ensures
            r matches Ok(rec) ==> envelope_of_tree(v@) == Some(rec@),
            r matches Err(e) ==> envelope_of_tree(v@) is None && e@ == ErrorView::InvalidRecord(
                InvalidRecord::SchemaViolation,
            ),
    {
        proof {
            crate::json::lemma_value_view(*v);
        }
        let ms = match v {
            JsonValue::Object(ms) => ms,
            _ => {
                return Err(ErrorKind::InvalidRecord(InvalidRecord::SchemaViolation));
            },
        };
        let id = match text_of(ms, "id") {
            Some(t) => t.clone(),
            None => {
                return Err(ErrorKind::InvalidRecord(InvalidRecord::SchemaViolation));
            },
        };
        let collection = match find_member(ms, "collection") {
            None => String::new(),
            Some(JsonValue::Text(t)) => t.clone(),
            Some(_) => {
                return Err(ErrorKind::InvalidRecord(InvalidRecord::SchemaViolation));
            },
        };
        let modified = match find_member(ms, "modified") {
            Some(JsonValue::Number(n)) => match millis_of(n) {
                Some(ms) => ms,
                None => {
                    return Err(ErrorKind::InvalidRecord(InvalidRecord::SchemaViolation));
                },
            },
            _ => {
                return Err(ErrorKind::InvalidRecord(InvalidRecord::SchemaViolation));
            },
        };
        let sortindex = match optional_int_of(ms, "sortindex", i32::MIN as i64, i32::MAX as i64) {
            Some(Some(i)) => Some(i as i32),
            Some(None) => None,
            None => {
                return Err(ErrorKind::InvalidRecord(InvalidRecord::SchemaViolation));
            },
        };
        let ttl = match optional_int_of(ms, "ttl", 0, u32::MAX as i64) {
            Some(Some(i)) => Some(i as u32),
            Some(None) => None,
            None => {
                return Err(ErrorKind::InvalidRecord(InvalidRecord::SchemaViolation));
            },
        };
        let payload = match text_of(ms, "payload") {
            Some(text) => match deserialize(text.as_str()) {
                Ok(p) => p,
                Err(e) => {
                    return Err(e);
                },
            },
            None => {
                return Err(ErrorKind::InvalidRecord(InvalidRecord::SchemaViolation));
            },
        };
        Ok(BsoRecord { id, collection, modified: ServerTimestamp(modified), sortindex, ttl, payload })
    }

    /// Reads an encrypted envelope from JSON text as a server sends it.
    pub fn from_wire(text: &str) -> (r: Result<BsoRecord<EncryptedPayload>, ErrorKind>)
        ensures
            r matches Ok(rec) ==> envelope_of_text(text@) == Some(rec@),
            r matches Err(e) ==> envelope_of_text(text@) is None && e@ == ErrorView::InvalidRecord(
                InvalidRecord::SchemaViolation,
            ),
    {
        match parse_json(text) {
            Some(v) => BsoRecord::<EncryptedPayload>::from_value(&v),
            None => Err(ErrorKind::InvalidRecord(InvalidRecord::SchemaViolation)),
        }
    }
}

/// What a client sends does not depend on the time stamp: two envelopes
/// that differ in nothing else are sent as the same text.
pub proof fn lemma_wire_text_ignores_modified(a: EnvelopeView, b: EnvelopeView)
    requires
        a.head.id == b.head.id,
        a.head.collection == b.head.collection,
        a.head.sortindex == b.head.sortindex,
        a.head.ttl == b.head.ttl,
        a.payload == b.payload,
    ensures
        wire_text(a) == wire_text(b),
{
}

/// Sending a received envelope on quotes, field for field, what was
/// received: the text that is sent is made of the id and the collection
/// that came and of the three texts of the payload that came, and of
/// nothing else but the sort index and the time to live.
pub proof fn lemma_received_fields_are_sent(v: JsonView)
    requires
        envelope_of_tree(v) is Some,
    ensures
        v is Object,
        ({
            let ms = v->Object_0;
            let inner = json_parsed(text_member(ms, "payload"@)->Some_0)->Some_0->Object_0;
            let e = envelope_of_tree(v)->Some_0;
            let payload = PayloadView {
                iv: text_member(inner, "IV"@)->Some_0,
                hmac: text_member(inner, "hmac"@)->Some_0,
                ciphertext: text_member(inner, "ciphertext"@)->Some_0,
            };
            wire_text(e) == "{\"id\":"@ + json_quoted(text_member(ms, "id"@)->Some_0) + ",\"collection\":"@
                + json_quoted(collection_member(ms)->Some_0) + sortindex_text(e.head.sortindex) + ttl_text(
                e.head.ttl,
            ) + ",\"payload\":"@ + json_quoted(payload_text(payload)) + "}"@
        }),
{
}

} // verus!
