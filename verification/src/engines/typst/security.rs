//! Password protection of a PDF: which passwords and permissions go into
//! its encryption.
use vstd::prelude::*;
use std::collections::BTreeMap;
use std::sync::Arc;
use lopdf::encryption::crypt_filters::{Aes256CryptFilter, CryptFilter};
use lopdf::{Document, EncryptionState, EncryptionVersion, Permissions};
use crate::domain::SecurityConfig;
use crate::engines::typst::{sha256, sha256_digest};
use crate::text::{push_str, string_from};

verus! {

broadcast use vstd::string::group_string_axioms;

/// The passwords and permissions a PDF is encrypted with.
pub struct EncryptionPlan {
    pub owner_password: String,
    pub user_password: String,
    pub allow_printing: bool,
    pub allow_copying: bool,
    pub allow_modification: bool,
    pub allow_annotation: bool,
    /// The PDF permission bits of the four flags; see
    /// [`permission_bits_spec`].
    pub permissions: u64,
}

pub open spec fn opt_or_empty(o: Option<String>) -> Seq<char> {
    match o {
        Some(s) => s@,
        None => Seq::empty(),
    }
}

/// Encryption needs a password: with neither a user nor an owner password
/// it is refused; a missing owner password is the user password.
pub open spec fn plan_spec(config: SecurityConfig) -> Result<(Seq<char>, Seq<char>), Seq<char>> {
    let user = opt_or_empty(config.user_password);
    let owner_empty = match config.owner_password {
        Some(o) => o@.len() == 0,
        None => true,
    };
    if user.len() == 0 && owner_empty {
        Err(
            "security config requires at least one of user_password or owner_password to be set — encrypting with both empty provides no actual protection"@,
        )
    } else {
        Ok(
            (
                match config.owner_password {
                    Some(o) => o@,
                    None => user,
                },
                user,
            ),
        )
    }
}

pub fn encryption_plan(config: &SecurityConfig) -> (r: Result<EncryptionPlan, String>)
    ensures
        match r {
            Ok(p) => plan_spec(*config) == Ok::<(Seq<char>, Seq<char>), Seq<char>>(
                (p.owner_password@, p.user_password@),
            ) && p.allow_printing == config.allow_printing && p.allow_copying
                == config.allow_copying && p.allow_modification == config.allow_modification
                && p.allow_annotation == config.allow_annotation && p.permissions
                == permission_bits_spec(
                config.allow_printing,
                config.allow_modification,
                config.allow_copying,
                config.allow_annotation,
            ),
            Err(e) => plan_spec(*config) == Err::<(Seq<char>, Seq<char>), Seq<char>>(e@),
        },
{
    let user = match &config.user_password {
        Some(u) => u.clone(),
        None => String::new(),
    };
    let owner_empty = match &config.owner_password {
        Some(o) => o.as_str().unicode_len() == 0,
        None => true,
    };
    if user.as_str().unicode_len() == 0 && owner_empty {
        return Err(
            string_from(
                "security config requires at least one of user_password or owner_password to be set — encrypting with both empty provides no actual protection",
            ),
        );
    }
    let owner = match &config.owner_password {
        Some(o) => o.clone(),
        None => user.clone(),
    };
    Ok(
        EncryptionPlan {
            owner_password: owner,
            user_password: user,
            allow_printing: config.allow_printing,
            allow_copying: config.allow_copying,
            allow_modification: config.allow_modification,
            allow_annotation: config.allow_annotation,
            permissions: bits_of(
                config.allow_printing,
                config.allow_modification,
                config.allow_copying,
                config.allow_annotation,
            ),
        },
    )
}

// ---------------------------------------------------------------
// Encrypting a PDF
// ---------------------------------------------------------------

#[verifier::external_type_specification]
#[verifier::external_body]
pub struct ExDocument(lopdf::Document);

#[verifier::external_type_specification]
#[verifier::external_body]
pub struct ExEncryptionState(lopdf::EncryptionState);

/// Calls `lopdf::Document::load_mem`: parses a PDF held in memory. Nothing
/// is claimed of the document or of the error's text, nor whether lopdf
/// can panic on a malformed PDF.
#[verifier::external_body]
fn load_pdf(bytes: &[u8]) -> (r: Result<Document, String>) {
    match Document::load_mem(bytes) {
        Ok(d) => Ok(d),
        Err(e) => Err(format!("{e}")),
    }
}

/// Calls `uuid::Uuid::new_v4`: the 16 bytes of a random UUID. Nothing is
/// claimed of them.
#[verifier::external_body]
fn random_uuid_bytes() -> (r: [u8; 16]) {
    *uuid::Uuid::new_v4().as_bytes()
}

/// Calls `lopdf::EncryptionState::try_from` on an AES-256 (`V5`) version
/// whose one crypt filter, named `filter`, is `Aes256CryptFilter` and is
/// used for streams and strings, with the given file key and the plan's
/// owner password, user password and permission bits
/// (`Permissions::from_bits_truncate`). Nothing is claimed of the state or
/// of the error's text, nor whether lopdf can panic here.
#[verifier::external_body]
fn aes256_state(
    key: &[u8],
    filter: &str,
    encrypt_metadata: bool,
    plan: &EncryptionPlan,
) -> (r: Result<EncryptionState, String>) {
    let crypt_filter: Arc<dyn CryptFilter> = Arc::new(Aes256CryptFilter);
    let name = filter.as_bytes().to_vec();
    let version = EncryptionVersion::V5 {
        encrypt_metadata,
        crypt_filters: BTreeMap::from([(name.clone(), crypt_filter)]),
        file_encryption_key: key,
        stream_filter: name.clone(),
        string_filter: name,
        owner_password: &plan.owner_password, user_password: &plan.user_password,
        permissions: Permissions::from_bits_truncate(plan.permissions),
    };
    match EncryptionState::try_from(version) {
        Ok(s) => Ok(s),
        Err(e) => Err(format!("{e}")),
    }
}

/// Calls `lopdf::Document::encrypt`. Nothing is claimed of the document
/// afterwards or of the error's text, nor whether lopdf can panic here.
#[verifier::external_body]
fn encrypt_document(doc: &mut Document, state: &EncryptionState) -> (r: Result<(), String>) {
    match doc.encrypt(state) {
        Ok(()) => Ok(()),
        Err(e) => Err(format!("{e}")),
    }
}

/// Calls `lopdf::Document::save_to` into a byte vector. Nothing is claimed
/// of the bytes or of the error's text, nor whether lopdf can panic here.
#[verifier::external_body]
fn save_document(doc: &mut Document) -> (r: Result<Vec<u8>, String>) {
    let mut output = Vec::new();
    match doc.save_to(&mut output) {
        Ok(()) => Ok(output),
        Err(e) => Err(format!("{e}")),
    }
}

/// The PDF permission bits (ISO 32000, user access permissions): print
/// (bit 3), modify (bit 4), copy (bit 5), annotate (bit 6).
pub open spec fn permission_bits_spec(print: bool, modify: bool, copy: bool, annotate: bool) -> u64 {
    ((if print {
        4u64
    } else {
        0u64
    }) + (if modify {
        8u64
    } else {
        0u64
    }) + (if copy {
        16u64
    } else {
        0u64
    }) + (if annotate {
        32u64
    } else {
        0u64
    })) as u64
}

fn bits_of(print: bool, modify: bool, copy: bool, annotate: bool) -> (r: u64)
    ensures
        r == permission_bits_spec(print, modify, copy, annotate),
{
    let mut bits: u64 = 0;
    if print {
        bits = bits + 4;
    }
    if modify {
        bits = bits + 8;
    }
    if copy {
        bits = bits + 16;
    }
    if annotate {
        bits = bits + 32;
    }
    bits
}

pub fn permission_bits(plan: &EncryptionPlan) -> (r: u64)
    ensures
        r == permission_bits_spec(
            plan.allow_printing,
            plan.allow_modification,
            plan.allow_copying,
            plan.allow_annotation,
        ),
{
    bits_of(plan.allow_printing, plan.allow_modification, plan.allow_copying, plan.allow_annotation)
}

/// A random 256-bit file key: the SHA-256 digest of two random UUIDs.
fn file_key() -> (r: [u8; 32])
    ensures
        exists|a: Seq<u8>, b: Seq<u8>|
            a.len() == 16 && b.len() == 16 && #[trigger] sha256_digest(a + b) == r@,
{
    let a = random_uuid_bytes();
    let b = random_uuid_bytes();
    let mut both: Vec<u8> = Vec::new();
    for i in 0..16usize
        invariant
            a@.len() == 16,
            both@ == a@.take(i as int),
    {
        both.push(a[i]);
        assert(both@ =~= a@.take(i + 1));
    }
    for i in 0..16usize
        invariant
            a@.len() == 16,
            b@.len() == 16,
            both@ == a@ + b@.take(i as int),
    {
        both.push(b[i]);
        assert(both@ =~= a@ + b@.take(i + 1));
    }
    assert(a@.take(16) =~= a@);
    assert(b@.take(16) =~= b@);
    let key = sha256(both.as_slice());
    assert(sha256_digest(a@ + b@) == key@);
    key
}

fn with_prefix(prefix: &str, e: String) -> (r: String)
    ensures
        r@ == prefix@ + e@,
{
    let mut m = string_from(prefix);
    push_str(&mut m, e.as_str());
    m
}

/// The errors of the PDF library's steps, each with the step that failed.
pub open spec fn pdf_library_error(m: Seq<char>) -> bool {
    exists|e: Seq<char>|
        #![trigger "Failed to load PDF: "@ + e]
        #![trigger "Failed to create encryption state: "@ + e]
        #![trigger "Encryption failed: "@ + e]
        #![trigger "Failed to save PDF: "@ + e]
        m == "Failed to load PDF: "@ + e || m == "Failed to create encryption state: "@ + e || m
            == "Encryption failed: "@ + e || m == "Failed to save PDF: "@ + e
}

/// Encrypts a PDF with AES-256 under the configuration's passwords and
/// permissions and a random file key. A configuration without a password
/// is refused before the PDF is read; the encryption is asked for with
/// [`encryption_plan`] of the configuration, handed over whole; what the
/// PDF library does with the document is its own.
pub fn apply_security(pdf_bytes: Vec<u8>, config: &SecurityConfig) -> (r: Result<Vec<u8>, String>)
    ensures
        plan_spec(*config) matches Err(e) ==> r matches Err(m) && m@ == e,
        r is Ok ==> plan_spec(*config) is Ok,
        plan_spec(*config) is Ok ==> (r matches Err(m) ==> pdf_library_error(m@)),
{
    let plan = match encryption_plan(config) {
        Ok(p) => p,
        Err(e) => return Err(e),
    };
    let mut doc = match load_pdf(pdf_bytes.as_slice()) {
        Ok(d) => d,
        Err(e) => return Err(with_prefix("Failed to load PDF: ", e)),
    };
    let key = file_key();
    let state = match aes256_state(&key, "StdCF", true, &plan) {
        Ok(s) => s,
        Err(e) => return Err(with_prefix("Failed to create encryption state: ", e)),
    };
    match encrypt_document(&mut doc, &state) {
        Ok(()) => {},
        Err(e) => return Err(with_prefix("Encryption failed: ", e)),
    }
    match save_document(&mut doc) {
        Ok(out) => Ok(out),
        Err(e) => Err(with_prefix("Failed to save PDF: ", e)),
    }
}

} // verus!
