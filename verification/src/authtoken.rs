//! Credential lifecycle: one shared bearer credential for the push gateway,
//! built from a fixed header (algorithm and key identifier), time-bound
//! claims (issuer and issue time) and an ECDSA signature over the two, each
//! part base64-encoded without padding and the three joined by periods.
//!
//! The header is generated once and reused byte-for-byte by every refresh;
//! a refresh regenerates claims and signature only, and a failed refresh
//! leaves the stored credential exactly as it was, so a readable credential
//! always exists once the first generation has succeeded.
use vstd::prelude::*;
use vstd::string::*;
use vstd::utf8::encode_utf8;
use base64::Engine;
use openssl::pkey::PKey;
use openssl::pkey::Private;
use crate::util::u64_to_string;
use crate::util::dec_str;

verus! {

/// Seconds between credential refreshes: inside the gateway's roughly
/// one-hour credential validity window, but not wastefully often.
pub const AUTH_TOKEN_REFRESH_RATE_S: u64 = 60 * 50;

/// Why credential generation failed.
#[derive(Debug)]
pub enum AuthTokenError {
    /// The signing-key material could not be read (reported by the caller
    /// that loads the key file; generation itself never reads files).
    IO(std::io::Error),
    /// The key material does not parse as a PEM private key.
    BadPrivateKey,
    /// The signing operation itself failed.
    BadSignature,
}

/// Relies on `std::io::Error` as an ordinary owned error value; it is only
/// carried inside `AuthTokenError::IO`, never inspected.
#[verifier::external_type_specification]
#[verifier::external_body]
pub struct ExIoError(std::io::Error);

/// The standard-alphabet, unpadded base64 rendering of a byte sequence — a
/// function of the bytes alone.
pub uninterp spec fn b64_of(bytes: Seq<u8>) -> Seq<char>;

/// Relies on base64's `Engine::encode` with the `STANDARD_NO_PAD` engine:
/// it returns the standard-alphabet, unpadded base64 encoding of the input,
/// which depends on the input bytes alone. The encoding is injective — the
/// unpadded output's length pins the input's length, `Engine::decode`
/// recovers the input — so no other byte sequence encodes to this result.
#[verifier::external_body]
fn base64_no_pad(bytes: &[u8]) -> (r: String)
    ensures
        r@ == b64_of(bytes@),
        forall|other: Seq<u8>| b64_of(other) == r@ ==> other == bytes@,
{
    base64::engine::general_purpose::STANDARD_NO_PAD.encode(bytes)
}

/// Relies on `openssl::pkey::PKey<T>` as an opaque handle to parsed key
/// material; values of it are only created here and handed back to openssl.
#[verifier::external_type_specification]
#[verifier::external_body]
#[verifier::reject_recursive_types(T)]
pub struct ExPKey<T>(PKey<T>);

/// Relies on `openssl::pkey::Private`, the marker type for private key
/// material.
#[verifier::external_type_specification]
#[verifier::external_body]
pub struct ExPrivate(Private);

/// Relies on openssl's `PKey::private_key_from_pem`: parses PEM-encoded
/// private key material; exactly the inputs openssl rejects yield
/// `BadPrivateKey`.
#[verifier::external_body]
fn parse_private_key(key_pem: &[u8]) -> (r: Result<PKey<Private>, AuthTokenError>)
    ensures
        r is Err ==> (r == Err::<PKey<Private>, AuthTokenError>(AuthTokenError::BadPrivateKey)),
{
    PKey::private_key_from_pem(key_pem).map_err(|_| AuthTokenError::BadPrivateKey)
}

/// Relies on openssl's signing primitive: `Signer::new` with
/// `MessageDigest::sha256`, `Signer::update` and `Signer::sign_to_vec` —
/// inseparable here, since the signer borrows the key — which produce the
/// elliptic-curve signature over `message` by `key`. ECDSA signing draws
/// fresh randomness, so nothing is stated of a successful signature's
/// bytes; any failure yields `BadSignature`.
#[verifier::external_body]
fn sign_sha256(key: &PKey<Private>, message: &[u8]) -> (r: Result<Vec<u8>, AuthTokenError>)
    ensures
        r is Err ==> (r == Err::<Vec<u8>, AuthTokenError>(AuthTokenError::BadSignature)),
{
    let mut signer = openssl::sign::Signer::new(openssl::hash::MessageDigest::sha256(), key)
        .map_err(|_| AuthTokenError::BadSignature)?;
    signer.update(message).map_err(|_| AuthTokenError::BadSignature)?;
    signer.sign_to_vec().map_err(|_| AuthTokenError::BadSignature)
}

/// The header JSON text for key identifier `kid`; fixed for a process run.
pub open spec fn header_json(kid: Seq<char>) -> Seq<char> {
    "{ \"alg\": \"ES256\", \"kid\": \""@ + kid + "\" }"@
}

/// The claims JSON text for issuer `iss` at issue time `iat`.
pub open spec fn claims_json(iss: Seq<char>, iat: u64) -> Seq<char> {
    "{ \"iss\": \""@ + iss + "\", \"iat\": "@ + dec_str(iat as nat) + " }"@
}

/// The encoded header component of the credential.
pub open spec fn header_b64(kid: Seq<char>) -> Seq<char> {
    b64_of(encode_utf8(header_json(kid)))
}

/// The encoded claims component of the credential.
pub open spec fn claims_b64(iss: Seq<char>, iat: u64) -> Seq<char> {
    b64_of(encode_utf8(claims_json(iss, iat)))
}

/// The assembled credential: header, claims and signature joined by periods.
pub open spec fn formatted_token(header: Seq<char>, claims: Seq<char>, signed: Seq<char>) -> Seq<
    char,
> {
    header + "."@ + claims + "."@ + signed
}

fn build_header_json(key_id: &String) -> (r: String)
    ensures
        r@ == header_json(key_id@),
{
    let mut s = String::from_str("{ \"alg\": \"ES256\", \"kid\": \"");
    s.append(key_id.as_str());
    s.append("\" }");
    proof {
        assert(s@ =~= header_json(key_id@));
    }
    s
}

fn build_claims_json(issuer: &String, iat: u64) -> (r: String)
    ensures
        r@ == claims_json(issuer@, iat),
{
    let mut s = String::from_str("{ \"iss\": \"");
    s.append(issuer.as_str());
    s.append("\", \"iat\": ");
    let iat_text = u64_to_string(iat);
    s.append(iat_text.as_str());
    s.append(" }");
    proof {
        assert(s@ =~= claims_json(issuer@, iat));
    }
    s
}

fn generate_jwt_header(key_id: &String) -> (r: String)
    ensures
        r@ == header_b64(key_id@),
{
    let text = build_header_json(key_id);
    base64_no_pad(text.as_str().as_bytes())
}

/// For one issuer, two issue times give two claims texts that differ in
/// their decimal issue-time digits.
proof fn lemma_claims_json_injective(iss: Seq<char>, a: u64, b: u64)
    ensures
        claims_json(iss, a) == claims_json(iss, b) ==> a == b,
{
    if claims_json(iss, a) == claims_json(iss, b) {
        let p = "{ \"iss\": \""@ + iss + "\", \"iat\": "@;
        let s = " }"@;
        let da = dec_str(a as nat);
        let db = dec_str(b as nat);
        let ca = claims_json(iss, a);
        let cb = claims_json(iss, b);
        assert(ca.len() == p.len() + da.len() + s.len());
        assert(cb.len() == p.len() + db.len() + s.len());
        assert(da.len() == db.len());
        assert forall|i: int| 0 <= i < da.len() implies da[i] == db[i] by {
            assert(ca[p.len() + i] == da[i]);
            assert(cb[p.len() + i] == db[i]);
        }
        assert(da =~= db);
        crate::util::lemma_dec_str_injective(a as nat, b as nat);
    }
}

fn generate_jwt_claims(issuer: &String, iat: u64) -> (r: String)
    ensures
        r@ == claims_b64(issuer@, iat),
        forall|other: u64| other != iat ==> r@ != claims_b64(issuer@, other),
{
    let text = build_claims_json(issuer, iat);
    let r = base64_no_pad(text.as_str().as_bytes());
    proof {
        assert forall|other: u64| other != iat implies r@ != claims_b64(issuer@, other) by {
            if r@ == claims_b64(issuer@, other) {
                assert(encode_utf8(claims_json(issuer@, other)) == encode_utf8(
                    claims_json(issuer@, iat),
                ));
                vstd::utf8::encode_utf8_decode_utf8(claims_json(issuer@, other));
                vstd::utf8::encode_utf8_decode_utf8(claims_json(issuer@, iat));
                lemma_claims_json_injective(issuer@, other, iat);
            }
        }
    }
    r
}

/// base64 of the ECDSA signature over `header.claims` by the outcome of a
/// key parse. Failure attribution is exact: a failed parse is propagated as
/// its own error, unchanged, and with a parsed key every failure is the
/// signing collaborator's `BadSignature`. Nothing is stated of a successful
/// signature's bytes, which are randomized.
fn generate_jwt_signed(jwt_header: &String, jwt_claims: &String, key: Result<PKey<Private>, AuthTokenError>) -> (r: Result<String, AuthTokenError>)
    ensures
        key matches Err(e) ==> r == Err::<String, AuthTokenError>(e),
        key is Ok ==> (r is Err ==> (r == Err::<String, AuthTokenError>(
            AuthTokenError::BadSignature,
        ))),
{
    let parsed = match key {
        Ok(k) => k,
        Err(e) => {
            return Err(e);
        },
    };
    let mut header_claims = jwt_header.clone();
    header_claims.append(".");
    header_claims.append(jwt_claims.as_str());
    match sign_sha256(&parsed, header_claims.as_str().as_bytes()) {
        Ok(signature) => Ok(base64_no_pad(signature.as_slice())),
        Err(e) => Err(e),
    }
}

/// The shared authentication credential together with the materials needed
/// to regenerate it.
pub struct AuthToken {
    /// The assembled credential presented to the push gateway.
    pub token: String,
    /// Encoded header; generated once, byte-identical across refreshes.
    pub jwt_header: String,
    /// Encoded claims of the latest successful generation.
    pub jwt_claims: String,
    /// Encoded signature of the latest successful generation.
    pub jwt_signed: String,
    /// Issuer (team identifier) written into the claims.
    pub issuer: String,
    /// Key identifier written into the header.
    pub key_id: String,
    /// PEM-encoded private signing key material.
    pub key_pem: Vec<u8>,
}

impl AuthToken {
    /// The stored components are consistent: the header is the encoded
    /// header for this credential's key identifier, and the token is the
    /// three components assembled.
    pub open spec fn wf(self) -> bool {
        &&& self.jwt_header@ == header_b64(self.key_id@)
        &&& self.token@ == formatted_token(self.jwt_header@, self.jwt_claims@, self.jwt_signed@)
    }

    /// Builds the initial credential at time `now` from the configured
    /// issuer, key identifier and key material. Failure here is fatal to
    /// startup — the caller must not begin serving without a credential.
    pub fn new(issuer: String, key_id: String, key_pem: Vec<u8>, now: u64) -> (r: Result<
        AuthToken,
        AuthTokenError,
    >)
        ensures
            match r {
                Ok(t) => t.wf() && t.issuer == issuer && t.key_id == key_id && t.key_pem == key_pem
                    && t.jwt_claims@ == claims_b64(issuer@, now) && (forall|other: u64|
                    other != now ==> t.jwt_claims@ != claims_b64(issuer@, other)),
                Err(e) => e == AuthTokenError::BadPrivateKey || e == AuthTokenError::BadSignature,
            },
    {
        let jwt_header = generate_jwt_header(&key_id);
        let jwt_claims = generate_jwt_claims(&issuer, now);
        let key = parse_private_key(key_pem.as_slice());
        let jwt_signed = match generate_jwt_signed(&jwt_header, &jwt_claims, key) {
            Ok(s) => s,
            Err(e) => {
                return Err(e);
            },
        };
        let token = AuthToken::get_formatted_token(&jwt_header, &jwt_claims, &jwt_signed);
        Ok(AuthToken { token, jwt_header, jwt_claims, jwt_signed, issuer, key_id, key_pem })
    }

    /// Regenerates the time-bound claims at time `now` and re-signs them,
    /// then atomically replaces the stored credential. The header is reused
    /// byte-for-byte, while the new claims differ from the claims of every
    /// other issue time — so a refresh at a new issue time genuinely changes
    /// the credential's variable components (refreshes within one and the
    /// same clock second produce identical claims). On failure every stored
    /// component is left exactly as it was — the previous credential stays
    /// readable — and the failure is reported to the caller, who treats it
    /// as non-fatal after startup.
    pub fn refresh(&mut self, now: u64) -> (r: Result<(), AuthTokenError>)
        requires
            old(self).wf(),
        ensures
            final(self).wf(),
            final(self).jwt_header == old(self).jwt_header,
            final(self).issuer == old(self).issuer,
            final(self).key_id == old(self).key_id,
            final(self).key_pem == old(self).key_pem,
            match r {
                Ok(()) => {
                    &&& final(self).jwt_claims@ == claims_b64(old(self).issuer@, now)
                    &&& (forall|other: u64|
                        other != now ==> final(self).jwt_claims@ != claims_b64(
                            old(self).issuer@,
                            other,
                        ))
                    &&& final(self).token@ == formatted_token(
                        old(self).jwt_header@,
                        final(self).jwt_claims@,
                        final(self).jwt_signed@,
                    )
                },
                Err(e) => {
                    &&& *final(self) == *old(self)
                    &&& (e == AuthTokenError::BadPrivateKey || e == AuthTokenError::BadSignature)
                },
            },
    {
        let jwt_claims = generate_jwt_claims(&self.issuer, now);
        let key = parse_private_key(self.key_pem.as_slice());
        let jwt_signed = match generate_jwt_signed(&self.jwt_header, &jwt_claims, key) {
            Ok(s) => s,
            Err(e) => {
                return Err(e);
            },
        };
        self.jwt_claims = jwt_claims;
        self.jwt_signed = jwt_signed;
        self.token = AuthToken::get_formatted_token(
            &self.jwt_header,
            &self.jwt_claims,
            &self.jwt_signed,
        );
        Ok(())
    }

    /// The credential string for the given components: the three joined by
    /// periods.
    pub fn get_formatted_token(jwt_header: &String, jwt_claims: &String, jwt_signed: &String) -> (r:
        String)
        ensures
            r@ == formatted_token(jwt_header@, jwt_claims@, jwt_signed@),
    {
        let mut s = jwt_header.clone();
        s.append(".");
        s.append(jwt_claims.as_str());
        s.append(".");
        s.append(jwt_signed.as_str());
        proof {
            assert(s@ =~= formatted_token(jwt_header@, jwt_claims@, jwt_signed@));
        }
        s
    }
}

} // verus!
