//! The content fingerprint of an extension: its canonical form, digested
//! and rendered as lowercase hexadecimal.

use crate::error::ExtensionError;
use crate::json::{encode_json_text, json_text};
use crate::model::{ExtensionState, ExtensionStateView};
use crate::text::{
    lower_hex, same_beginning_same_rest, same_text, to_lower_hex, trim, trimmed,
};
use sha2::Digest;
use vstd::prelude::*;
use vstd::string::StringExecFns;
use vstd::string::StringSliceAdditionalSpecFns;
use vstd::utf8::encode_utf8;

verus! {

/// The SHA-256 digest of a byte string.
pub uninterp spec fn sha256(data: Seq<u8>) -> Seq<u8>;

/// `sha2::Sha256::digest`: the SHA-256 digest of the bytes, which is 32
/// bytes long.
#[verifier::external_body]
pub(crate) fn sha256_digest(data: &[u8]) -> (r: Vec<u8>)
    ensures
        r@ == sha256(data@),
        r@.len() == 32,
{
    sha2::Sha256::digest(data).to_vec()
}

/// The JSON value for an optional text: its string literal, or `null`.
pub open spec fn json_optional(s: Option<Seq<char>>) -> Seq<char> {
    match s {
        Some(t) => json_text(t),
        None => "null"@,
    }
}

/// A JSON object of the seven fields of an extension, in their order, each
/// value as it is given.
pub open spec fn framed(
    uid: Seq<char>,
    id: Seq<char>,
    publisher: Seq<char>,
    version: Seq<char>,
    config: Seq<char>,
    status: Seq<char>,
    modified_at: Seq<char>,
) -> Seq<char> {
    "{\"uid\":"@ + uid + ",\"id\":"@ + id + ",\"publisher\":"@ + publisher + ",\"version\":"@
        + version + ",\"config\":"@ + config + ",\"status\":"@ + status + ",\"modified_at\":"@
        + modified_at + "}"@
}

/// The fingerprint of a text: the SHA-256 digest of its UTF-8 encoding, as
/// 64 lowercase hexadecimal digits.
pub open spec fn fingerprint_of(text: Seq<char>) -> Seq<char> {
    lower_hex(sha256(encode_utf8(text)))
}

impl ExtensionStateView {
    /// The canonical form: the compact JSON object of all fields.
    pub open spec fn canonical_form(self) -> Seq<char> {
        framed(
            json_text(self.uid),
            json_text(self.id),
            json_optional(self.publisher),
            json_text(self.version),
            json_optional(self.config),
            json_text(self.status.name()),
            json_text(self.modified_at),
        )
    }

    /// The fingerprint of the canonical form.
    pub open spec fn fingerprint(self) -> Seq<char> {
        fingerprint_of(self.canonical_form())
    }
}

/// Whether an extension with fingerprint `fingerprint` needs work, given
/// what its version marker holds: it does unless the marker is there and
/// holds the fingerprint, whitespace around it aside.
pub open spec fn marker_is_stale(marker: Option<Seq<char>>, fingerprint: Seq<char>) -> bool {
    match marker {
        Some(m) => trimmed(m) != fingerprint,
        None => true,
    }
}

/// Whether an extension needs to be installed or updated, given what its
/// version marker holds.
pub open spec fn needs_work(e: ExtensionStateView, marker: Option<Seq<char>>) -> bool {
    e.is_active() && marker_is_stale(marker, e.fingerprint())
}

/// Frames seven JSON values as the object of an extension's fields.
pub fn frame_canonical(
    uid: &str,
    id: &str,
    publisher: &str,
    version: &str,
    config: &str,
    status: &str,
    modified_at: &str,
) -> (r: String)
    ensures
        r@ == framed(uid@, id@, publisher@, version@, config@, status@, modified_at@),
{
    let mut out = String::from_str("{\"uid\":");
    out.append(uid);
    out.append(",\"id\":");
    out.append(id);
    out.append(",\"publisher\":");
    out.append(publisher);
    out.append(",\"version\":");
    out.append(version);
    out.append(",\"config\":");
    out.append(config);
    out.append(",\"status\":");
    out.append(status);
    out.append(",\"modified_at\":");
    out.append(modified_at);
    out.append("}");
    out
}

/// The JSON value for an optional text: `null` where there is no text,
/// the literal of the text where there is one.
fn encode_optional(s: &Option<String>) -> (r: Result<String, serde_json::Error>)
    ensures
        r is Ok,
        r matches Ok(t) ==> t@ == json_optional(crate::model::optional_text(*s)),
{
    match s {
        Some(t) => encode_json_text(t.as_str()),
        None => Ok(String::from_str("null")),
    }
}

/// The seven values of an extension, each encoded, in their frame.
fn encode_fields(spec: &ExtensionState) -> (r: Result<String, serde_json::Error>)
    ensures
        r is Ok,
        r matches Ok(t) ==> t@ == spec@.canonical_form(),
{
    let uid = encode_json_text(spec.uid.as_str())?;
    let id = encode_json_text(spec.id.as_str())?;
    let publisher = encode_optional(&spec.publisher)?;
    let version = encode_json_text(spec.version.as_str())?;
    let config = encode_optional(&spec.config)?;
    let status = encode_json_text(spec.status.as_str())?;
    let modified_at = encode_json_text(spec.modified_at.as_str())?;
    Ok(
        frame_canonical(
            uid.as_str(),
            id.as_str(),
            publisher.as_str(),
            version.as_str(),
            config.as_str(),
            status.as_str(),
            modified_at.as_str(),
        ),
    )
}

/// The canonical form of an extension. Every extension has one.
pub fn canonical_form(spec: &ExtensionState) -> (r: Result<String, ExtensionError>)
    ensures
        r is Ok,
        r matches Ok(t) ==> t@ == spec@.canonical_form(),
{
    match encode_fields(spec) {
        Ok(t) => Ok(t),
        Err(_) => Err(ExtensionError::Canonicalization),
    }
}

/// The fingerprint of a text.
pub fn fingerprint(text: &str) -> (r: String)
    ensures
        r@ == fingerprint_of(text@),
        r@.len() == 64,
        forall|i: int| 0 <= i < 64 ==> crate::text::is_lower_hex_digit(#[trigger] r@[i]),
{
    let digest = sha256_digest(text.as_bytes());
    to_lower_hex(digest.as_slice())
}

/// The fingerprint of an extension: the 64 lowercase hexadecimal digits
/// of the digest of its canonical form. Every extension has one, and any
/// change to a field changes the canonical form that is digested.
pub fn hash_extension_state(spec: &ExtensionState) -> (r: Result<String, ExtensionError>)
    ensures
        r is Ok,
        r matches Ok(h) ==> h@ == spec@.fingerprint() && h@.len() == 64,
        r matches Ok(h) ==> forall|i: int|
            0 <= i < 64 ==> crate::text::is_lower_hex_digit(#[trigger] h@[i]),
{
    match canonical_form(spec) {
        Ok(text) => Ok(fingerprint(text.as_str())),
        Err(e) => Err(e),
    }
}

/// Whether a marker's content falls short of a fingerprint.
pub fn is_marker_stale(marker: Option<&str>, fingerprint: &str) -> (r: bool)
    ensures
        r == marker_is_stale(
            match marker {
                Some(m) => Some(m@),
                None => None,
            },
            fingerprint@,
        ),
{
    match marker {
        Some(m) => !same_text(trim(m), fingerprint),
        None => true,
    }
}

/// Whether an extension needs to be installed or updated, given what its
/// version marker holds (`None`: there is no marker): it does where it is
/// active and the marker is absent or does not hold its fingerprint,
/// whitespace around it aside. An extension that is being removed, is
/// removed or is disabled never does.
pub fn needs_update(extension: &ExtensionState, marker: Option<&str>) -> (r: Result<
    bool,
    ExtensionError,
>)
    ensures
        r is Ok,
        r matches Ok(b) ==> b == needs_work(
            extension@,
            match marker {
                Some(m) => Some(m@),
                None => None,
            },
        ),
{
    if !extension.is_active() {
        return Ok(false);
    }
    match marker {
        None => Ok(true),
        Some(m) => {
            match hash_extension_state(extension) {
                Ok(h) => Ok(is_marker_stale(Some(m), h.as_str())),
                Err(e) => Err(e),
            }
        },
    }
}

/// The JSON value of an optional text can be told from what follows it.
pub proof fn optional_is_self_delimiting(
    p: Option<Seq<char>>,
    q: Option<Seq<char>>,
    x: Seq<char>,
    y: Seq<char>,
)
    requires
        json_optional(p) + x == json_optional(q) + y,
    ensures
        p == q,
        x == y,
{
    reveal_strlit("null");
    let left = json_optional(p) + x;
    let right = json_optional(q) + y;
    assert(left[0] == json_optional(p)[0]);
    assert(right[0] == json_optional(q)[0]);
    match (p, q) {
        (Some(a), Some(b)) => {
            crate::json::literal_is_self_delimiting(a, b, x, y);
        },
        (None, None) => {
            same_beginning_same_rest("null"@, x, y);
        },
        (Some(a), None) => {
            assert(json_text(a)[0] == '"');
            assert("null"@[0] == 'n');
        },
        (None, Some(b)) => {
            assert(json_text(b)[0] == '"');
            assert("null"@[0] == 'n');
        },
    }
}

/// The values of a frame with the text between them, put together from
/// the last to the first.
pub open spec fn nested(
    uid: Seq<char>,
    id: Seq<char>,
    publisher: Seq<char>,
    version: Seq<char>,
    config: Seq<char>,
    status: Seq<char>,
    modified_at: Seq<char>,
) -> Seq<char> {
    "{\"uid\":"@ + (uid + (",\"id\":"@ + (id + (",\"publisher\":"@ + (publisher + (",\"version\":"@
        + (version + (",\"config\":"@ + (config + (",\"status\":"@ + (status + (
    ",\"modified_at\":"@ + (modified_at + "}"@)))))))))))))
}

/// Texts are put together in the same way from the first to the last as
/// from the last to the first.
pub proof fn append_associates(x: Seq<char>, y: Seq<char>, z: Seq<char>)
    ensures
        (x + y) + z == x + (y + z),
{
    assert((x + y) + z =~= x + (y + z));
}

/// A frame is the same text whichever way it is put together.
pub proof fn frame_is_nested(
    uid: Seq<char>,
    id: Seq<char>,
    publisher: Seq<char>,
    version: Seq<char>,
    config: Seq<char>,
    status: Seq<char>,
    modified_at: Seq<char>,
)
    ensures
        framed(uid, id, publisher, version, config, status, modified_at) == nested(
            uid,
            id,
            publisher,
            version,
            config,
            status,
            modified_at,
        ),
{
    let l0 = "{\"uid\":"@;
    let l1 = ",\"id\":"@;
    let l2 = ",\"publisher\":"@;
    let l3 = ",\"version\":"@;
    let l4 = ",\"config\":"@;
    let l5 = ",\"status\":"@;
    let l6 = ",\"modified_at\":"@;
    let l7 = "}"@;
    let f1 = l0 + uid;
    let f2 = f1 + l1;
    let f3 = f2 + id;
    let f4 = f3 + l2;
    let f5 = f4 + publisher;
    let f6 = f5 + l3;
    let f7 = f6 + version;
    let f8 = f7 + l4;
    let f9 = f8 + config;
    let f10 = f9 + l5;
    let f11 = f10 + status;
    let f12 = f11 + l6;
    let f13 = f12 + modified_at;
    let r13 = modified_at + l7;
    let r12 = l6 + r13;
    let r11 = status + r12;
    let r10 = l5 + r11;
    let r9 = config + r10;
    let r8 = l4 + r9;
    let r7 = version + r8;
    let r6 = l3 + r7;
    let r5 = publisher + r6;
    let r4 = l2 + r5;
    let r3 = id + r4;
    let r2 = l1 + r3;
    let r1 = uid + r2;
    append_associates(f12, modified_at, l7);
    append_associates(f11, l6, r13);
    append_associates(f10, status, r12);
    append_associates(f9, l5, r11);
    append_associates(f8, config, r10);
    append_associates(f7, l4, r9);
    append_associates(f6, version, r8);
    append_associates(f5, l3, r7);
    append_associates(f4, publisher, r6);
    append_associates(f3, l2, r5);
    append_associates(f2, id, r4);
    append_associates(f1, l1, r3);
    append_associates(l0, uid, r2);
}

/// The frame keeps its values apart: two extensions have the same
/// canonical form only where they are the same in every field.
pub proof fn canonical_form_is_injective(a: ExtensionStateView, b: ExtensionStateView)
    requires
        a.canonical_form() == b.canonical_form(),
    ensures
        a == b,
{
    let l0 = "{\"uid\":"@;
    let l1 = ",\"id\":"@;
    let l2 = ",\"publisher\":"@;
    let l3 = ",\"version\":"@;
    let l4 = ",\"config\":"@;
    let l5 = ",\"status\":"@;
    let l6 = ",\"modified_at\":"@;
    let l7 = "}"@;
    let a6 = json_text(a.modified_at) + l7;
    let b6 = json_text(b.modified_at) + l7;
    let a5 = json_text(a.status.name()) + (l6 + a6);
    let b5 = json_text(b.status.name()) + (l6 + b6);
    let a4 = json_optional(a.config) + (l5 + a5);
    let b4 = json_optional(b.config) + (l5 + b5);
    let a3 = json_text(a.version) + (l4 + a4);
    let b3 = json_text(b.version) + (l4 + b4);
    let a2 = json_optional(a.publisher) + (l3 + a3);
    let b2 = json_optional(b.publisher) + (l3 + b3);
    let a1 = json_text(a.id) + (l2 + a2);
    let b1 = json_text(b.id) + (l2 + b2);
    let a0 = json_text(a.uid) + (l1 + a1);
    let b0 = json_text(b.uid) + (l1 + b1);
    frame_is_nested(
        json_text(a.uid),
        json_text(a.id),
        json_optional(a.publisher),
        json_text(a.version),
        json_optional(a.config),
        json_text(a.status.name()),
        json_text(a.modified_at),
    );
    frame_is_nested(
        json_text(b.uid),
        json_text(b.id),
        json_optional(b.publisher),
        json_text(b.version),
        json_optional(b.config),
        json_text(b.status.name()),
        json_text(b.modified_at),
    );
    assert(a.canonical_form() == l0 + a0);
    assert(b.canonical_form() == l0 + b0);
    same_beginning_same_rest(l0, a0, b0);
    crate::json::literal_is_self_delimiting(a.uid, b.uid, l1 + a1, l1 + b1);
    same_beginning_same_rest(l1, a1, b1);
    crate::json::literal_is_self_delimiting(a.id, b.id, l2 + a2, l2 + b2);
    same_beginning_same_rest(l2, a2, b2);
    optional_is_self_delimiting(a.publisher, b.publisher, l3 + a3, l3 + b3);
    same_beginning_same_rest(l3, a3, b3);
    crate::json::literal_is_self_delimiting(a.version, b.version, l4 + a4, l4 + b4);
    same_beginning_same_rest(l4, a4, b4);
    optional_is_self_delimiting(a.config, b.config, l5 + a5, l5 + b5);
    same_beginning_same_rest(l5, a5, b5);
    crate::json::literal_is_self_delimiting(a.status.name(), b.status.name(), l6 + a6, l6 + b6);
    crate::model::status_names_differ(a.status, b.status);
    same_beginning_same_rest(l6, a6, b6);
    crate::json::literal_is_self_delimiting(a.modified_at, b.modified_at, l7, l7);
}

/// Two byte strings that are rendered alike are the same.
pub proof fn lower_hex_is_injective(x: Seq<u8>, y: Seq<u8>)
    requires
        lower_hex(x) == lower_hex(y),
    ensures
        x == y,
    decreases x.len(),
{
    crate::text::lower_hex_shape(x);
    crate::text::lower_hex_shape(y);
    assert(x.len() == y.len());
    if x.len() > 0 {
        let hx = lower_hex(x.drop_last());
        let hy = lower_hex(y.drop_last());
        crate::text::lower_hex_shape(x.drop_last());
        crate::text::lower_hex_shape(y.drop_last());
        let px = crate::text::hex_pair(x.last());
        let py = crate::text::hex_pair(y.last());
        let whole = lower_hex(x);
        assert(whole == hx + px);
        assert(whole == hy + py);
        assert(hx =~= whole.subrange(0, hx.len() as int));
        assert(hy =~= whole.subrange(0, hy.len() as int));
        assert(px =~= whole.subrange(hx.len() as int, whole.len() as int));
        assert(py =~= whole.subrange(hy.len() as int, whole.len() as int));
        lower_hex_is_injective(x.drop_last(), y.drop_last());
        assert(px[0] == py[0]);
        assert(px[1] == py[1]);
        crate::json::hex_digits_differ((x.last() / 16) as int, (y.last() / 16) as int);
        crate::json::hex_digits_differ((x.last() % 16) as int, (y.last() % 16) as int);
        assert(x.last() == y.last());
        assert(x =~= x.drop_last().push(x.last()));
        assert(y =~= y.drop_last().push(y.last()));
    } else {
        assert(x =~= y);
    }
}

/// Hash stability, the change. Changing any field of an extension changes
/// its canonical form, and with it the bytes that are digested: two
/// extensions have the same fingerprint only if they are the same in every
/// field, or if SHA-256 gives the same digest for their two different
/// canonical forms.
pub proof fn fingerprint_tells_extensions_apart(a: ExtensionStateView, b: ExtensionStateView)
    requires
        a.fingerprint() == b.fingerprint(),
    ensures
        a == b || (encode_utf8(a.canonical_form()) != encode_utf8(b.canonical_form()) && sha256(
            encode_utf8(a.canonical_form()),
        ) == sha256(encode_utf8(b.canonical_form()))),
{
    let ea = encode_utf8(a.canonical_form());
    let eb = encode_utf8(b.canonical_form());
    lower_hex_is_injective(sha256(ea), sha256(eb));
    if ea == eb {
        vstd::utf8::encode_utf8_decode_utf8(a.canonical_form());
        vstd::utf8::encode_utf8_decode_utf8(b.canonical_form());
        canonical_form_is_injective(a, b);
    }
}

/// Two extensions with the same content have the same canonical form and
/// the same fingerprint, however often either is computed.
pub proof fn fingerprint_is_stable(a: ExtensionStateView, b: ExtensionStateView)
    requires
        a == b,
    ensures
        a.canonical_form() == b.canonical_form(),
        a.fingerprint() == b.fingerprint(),
{
}

/// A marker that holds an extension's fingerprint, as the installer writes
/// it, leaves nothing to do for that extension.
pub proof fn applied_fingerprint_needs_no_work(e: ExtensionStateView)
    ensures
        !needs_work(e, Some(e.fingerprint())),
        !marker_is_stale(Some(e.fingerprint()), e.fingerprint()),
{
    crate::text::lower_hex_is_trimmed(sha256(encode_utf8(e.canonical_form())));
}

} // verus!
