//! The attestation certificate chain: a self-signed root CA and a device
//! certificate issued by it, each with a fresh P-256 key.

use vstd::prelude::*;
use vstd::string::StringExecFns;
use crate::hex::{aaguid_unit_name, aaguid_label, hex_lower};

verus! {

/// Key usages that the chain's certificates carry.
#[derive(Debug, Clone, Copy, PartialEq, Eq, Structural)]
pub enum CertKeyUsage {
    KeyCertSign,
    CrlSign,
    DigitalSignature,
}

/// What a certificate of the chain states about its subject.
pub struct CertProfile {
    pub common_name: String,
    pub organization: String,
    pub organizational_unit: Option<String>,
    /// A CA certificate (unconstrained path length) or an end-entity one.
    pub is_ca: bool,
    pub key_usages: Vec<CertKeyUsage>,
}

/// The profile of the attestation root CA: CN "vauth Attestation Root CA",
/// O "vauth", a CA that signs certificates and CRLs.
pub fn ca_profile() -> (p: CertProfile)
    ensures
        p.common_name@ == "vauth Attestation Root CA"@,
        p.organization@ == "vauth"@,
        p.organizational_unit is None,
        p.is_ca,
        p.key_usages@ == seq![CertKeyUsage::KeyCertSign, CertKeyUsage::CrlSign],
{
    let mut usages: Vec<CertKeyUsage> = Vec::new();
    usages.push(CertKeyUsage::KeyCertSign);
    usages.push(CertKeyUsage::CrlSign);
    assert(usages@ =~= seq![CertKeyUsage::KeyCertSign, CertKeyUsage::CrlSign]);
    CertProfile {
        common_name: String::from_str("vauth Attestation Root CA"),
        organization: String::from_str("vauth"),
        organizational_unit: None,
        is_ca: true,
        key_usages: usages,
    }
}

/// The profile of the device attestation certificate: CN "vauth Attestation
/// Key", O "vauth", OU "AAGUID:<aaguid in lower-case hex>", an end-entity
/// certificate for digital signatures.
pub fn device_profile(aaguid: &[u8; 16]) -> (p: CertProfile)
    ensures
        p.common_name@ == "vauth Attestation Key"@,
        p.organization@ == "vauth"@,
        p.organizational_unit matches Some(ou) && ou@ == aaguid_label() + hex_lower(aaguid@),
        !p.is_ca,
        p.key_usages@ == seq![CertKeyUsage::DigitalSignature],
{
    let mut usages: Vec<CertKeyUsage> = Vec::new();
    usages.push(CertKeyUsage::DigitalSignature);
    assert(usages@ =~= seq![CertKeyUsage::DigitalSignature]);
    CertProfile {
        common_name: String::from_str("vauth Attestation Key"),
        organization: String::from_str("vauth"),
        organizational_unit: Some(aaguid_unit_name(aaguid)),
        is_ca: false,
        key_usages: usages,
    }
}

/// `rcgen::CertificateParams`.
#[verifier::external_type_specification]
#[verifier::external_body]
pub struct ExCertificateParams(rcgen::CertificateParams);

/// `rcgen::Error`.
#[verifier::external_type_specification]
#[verifier::external_body]
pub struct ExRcgenError(rcgen::Error);

/// Calls `rcgen::KeyPair::generate_for(&rcgen::PKCS_ECDSA_P256_SHA256)` and
/// returns the key as its PKCS#8 PEM text (`KeyPair::serialize_pem`).
/// Nothing is stated of the key: it is random.
#[verifier::external_body]
fn new_p256_key() -> Result<String, rcgen::Error> {
    rcgen::KeyPair::generate_for(&rcgen::PKCS_ECDSA_P256_SHA256).map(|k| k.serialize_pem())
}

/// The attribute types of a distinguished name that the chain uses.
#[derive(Debug, Clone, Copy, PartialEq, Eq, Structural)]
pub enum NameAttribute {
    CommonName,
    OrganizationName,
    OrganizationalUnitName,
}

/// What a certificate states about its subject: the distinguished name
/// (attribute types and values, in order), whether it is a CA, and its key
/// usages in order.
pub struct CertSubject {
    pub names: Seq<(NameAttribute, Seq<char>)>,
    pub is_ca: bool,
    pub key_usages: Seq<CertKeyUsage>,
}

/// The subject that certificate parameters describe: what
/// `rcgen::CertificateParams` holds in `distinguished_name`, `is_ca` and
/// `key_usages`.
pub uninterp spec fn params_subject(params: rcgen::CertificateParams) -> CertSubject;

/// What a certificate states about its subject: its distinguished name (in
/// order), whether it is a CA, and the set of its key usages (a certificate
/// stores them as a bit string, without order or repeats).
pub struct CertStatement {
    pub names: Seq<(NameAttribute, Seq<char>)>,
    pub is_ca: bool,
    pub key_usages: Set<CertKeyUsage>,
}

/// What a certificate issued for `subject` states about it.
pub open spec fn stated(subject: CertSubject) -> CertStatement {
    CertStatement { names: subject.names, is_ca: subject.is_ca, key_usages: subject.key_usages.to_set() }
}

/// What the X.509 certificate in the PEM text `cert` states of its subject.
pub uninterp spec fn cert_subject(cert: Seq<char>) -> CertStatement;

/// The issuer name of the X.509 certificate in the PEM text `cert`.
pub uninterp spec fn cert_issuer(cert: Seq<char>) -> Seq<(NameAttribute, Seq<char>)>;

/// The subject public key that the certificate in the PEM text `cert` carries.
pub uninterp spec fn certified_key(cert: Seq<char>) -> Seq<u8>;

/// The public key of the private key in the PKCS#8 PEM text `key`.
pub uninterp spec fn public_key_of(key: Seq<char>) -> Seq<u8>;

/// Whether the signature of the certificate in the PEM text `cert` verifies
/// under the public key `key`.
pub uninterp spec fn signed_by(cert: Seq<char>, key: Seq<u8>) -> bool;

/// The common name that `rcgen::CertificateParams::default()` starts with.
pub open spec fn placeholder_name() -> Seq<char> {
    "rcgen self signed cert"@
}

/// The names after `DistinguishedName::push(attr, value)`: an attribute
/// already present gets the new value in its place, a new one is appended.
pub open spec fn dn_push(
    names: Seq<(NameAttribute, Seq<char>)>,
    attr: NameAttribute,
    value: Seq<char>,
) -> Seq<(NameAttribute, Seq<char>)> {
    if exists|i: int| 0 <= i < names.len() && (#[trigger] names[i]).0 == attr {
        let i = choose|i: int| 0 <= i < names.len() && (#[trigger] names[i]).0 == attr;
        names.update(i, (attr, value))
    } else {
        names.push((attr, value))
    }
}

/// The subject that a profile describes: CN, O and then OU when there is
/// one; the CA flag and the key usages.
pub open spec fn profile_subject(p: CertProfile) -> CertSubject {
    CertSubject {
        names: seq![
            (NameAttribute::CommonName, p.common_name@),
            (NameAttribute::OrganizationName, p.organization@),
        ] + match p.organizational_unit {
            Some(ou) => seq![(NameAttribute::OrganizationalUnitName, ou@)],
            None => Seq::empty(),
        },
        is_ca: p.is_ca,
        key_usages: p.key_usages@,
    }
}

/// The subject of the attestation root CA.
pub open spec fn ca_subject() -> CertSubject {
    CertSubject {
        names: seq![
            (NameAttribute::CommonName, "vauth Attestation Root CA"@),
            (NameAttribute::OrganizationName, "vauth"@),
        ],
        is_ca: true,
        key_usages: seq![CertKeyUsage::KeyCertSign, CertKeyUsage::CrlSign],
    }
}

/// The subject of the device attestation certificate of `aaguid`.
pub open spec fn device_subject(aaguid: Seq<u8>) -> CertSubject {
    CertSubject {
        names: seq![
            (NameAttribute::CommonName, "vauth Attestation Key"@),
            (NameAttribute::OrganizationName, "vauth"@),
            (NameAttribute::OrganizationalUnitName, aaguid_label() + hex_lower(aaguid)),
        ],
        is_ca: false,
        key_usages: seq![CertKeyUsage::DigitalSignature],
    }
}

/// Calls `rcgen::CertificateParams::default()`: not a CA, no key usages, and
/// a distinguished name holding a placeholder common name (which a later
/// `push` of a common name replaces in place).
#[verifier::external_body]
fn default_params() -> (r: rcgen::CertificateParams)
    ensures
        params_subject(r) == (CertSubject {
            names: seq![(NameAttribute::CommonName, placeholder_name())],
            is_ca: false,
            key_usages: Seq::empty(),
        }),
{
    rcgen::CertificateParams::default()
}

/// Sets `params.is_ca` to `IsCa::Ca(BasicConstraints::Unconstrained)` when
/// `is_ca`, else to `IsCa::NoCa`.
#[verifier::external_body]
fn set_ca(params: &mut rcgen::CertificateParams, is_ca: bool)
    ensures
        params_subject(*final(params)) == (CertSubject { is_ca, ..params_subject(*old(params)) }),
{
    params.is_ca = if is_ca {
        rcgen::IsCa::Ca(rcgen::BasicConstraints::Unconstrained)
    } else {
        rcgen::IsCa::NoCa
    };
}

/// Appends the `rcgen::KeyUsagePurpose` of the same name to
/// `params.key_usages`.
#[verifier::external_body]
fn add_key_usage(params: &mut rcgen::CertificateParams, usage: CertKeyUsage)
    ensures
        params_subject(*final(params)) == (CertSubject {
            key_usages: params_subject(*old(params)).key_usages.push(usage),
            ..params_subject(*old(params))
        }),
{
    params.key_usages.push(match usage {
        CertKeyUsage::KeyCertSign => rcgen::KeyUsagePurpose::KeyCertSign,
        CertKeyUsage::CrlSign => rcgen::KeyUsagePurpose::CrlSign,
        CertKeyUsage::DigitalSignature => rcgen::KeyUsagePurpose::DigitalSignature,
    });
}

/// Calls `rcgen::DistinguishedName::push` on `params.distinguished_name`
/// with the `rcgen::DnType` of the same name and the text `value`.
#[verifier::external_body]
fn push_name(params: &mut rcgen::CertificateParams, attribute: NameAttribute, value: &str)
    ensures
        params_subject(*final(params)) == (CertSubject {
            names: dn_push(params_subject(*old(params)).names, attribute, value@),
            ..params_subject(*old(params))
        }),
{
    let ty = match attribute {
        NameAttribute::CommonName => rcgen::DnType::CommonName,
        NameAttribute::OrganizationName => rcgen::DnType::OrganizationName,
        NameAttribute::OrganizationalUnitName => rcgen::DnType::OrganizationalUnitName,
    };
    params.distinguished_name.push(ty, value);
}

/// The certificate parameters for a profile: the CA flag, the key usages in
/// order, and the distinguished name (CN, O, then OU when there is one).
fn certificate_params(profile: &CertProfile) -> (params: rcgen::CertificateParams)
    ensures
        params_subject(params) == profile_subject(*profile),
{
    let mut params = default_params();
    set_ca(&mut params, profile.is_ca);
    assert(profile.key_usages@.subrange(0, 0) =~= Seq::<CertKeyUsage>::empty());
    let mut i: usize = 0;
    while i < profile.key_usages.len()
        invariant
            i <= profile.key_usages@.len(),
            params_subject(params) == (CertSubject {
                names: seq![(NameAttribute::CommonName, placeholder_name())],
                is_ca: profile.is_ca,
                key_usages: profile.key_usages@.subrange(0, i as int),
            }),
        decreases profile.key_usages@.len() - i,
    {
        add_key_usage(&mut params, profile.key_usages[i]);
        assert(profile.key_usages@.subrange(0, i + 1) =~= profile.key_usages@.subrange(0, i as int).push(
            profile.key_usages@[i as int],
        ));
        i = i + 1;
    }
    assert(profile.key_usages@.subrange(0, i as int) =~= profile.key_usages@);
    let ghost n0 = params_subject(params).names;
    push_name(&mut params, NameAttribute::CommonName, profile.common_name.as_str());
    proof {
        assert(n0[0].0 == NameAttribute::CommonName);
        let i0 = choose|i: int| 0 <= i < n0.len() && (#[trigger] n0[i]).0 == NameAttribute::CommonName;
        assert(i0 == 0);
        assert(params_subject(params).names =~= seq![(NameAttribute::CommonName, profile.common_name@)]);
    }
    let ghost n1 = params_subject(params).names;
    push_name(&mut params, NameAttribute::OrganizationName, profile.organization.as_str());
    proof {
        assert(!(exists|i: int| 0 <= i < n1.len() && (#[trigger] n1[i]).0 == NameAttribute::OrganizationName));
    }
    let ghost n2 = params_subject(params).names;
    match &profile.organizational_unit {
        Some(ou) => {
            push_name(&mut params, NameAttribute::OrganizationalUnitName, ou.as_str());
            proof {
                assert(!(exists|i: int| 0 <= i < n2.len() && (#[trigger] n2[i]).0
                    == NameAttribute::OrganizationalUnitName));
            }
        },
        None => {},
    }
    assert(params_subject(params).names =~= profile_subject(*profile).names);
    params
}

/// Reads the key from its PEM text (`KeyPair::from_pem`), calls
/// `CertificateParams::self_signed` with it and returns the certificate's PEM
/// (`Certificate::pem`). The serial number and signature are random; what
/// holds of every outcome is that the certificate states the parameters'
/// subject, is issued under that same name, certifies the key and is signed
/// with it.
#[verifier::external_body]
fn self_signed_pem(params: &rcgen::CertificateParams, key: &str) -> (r: Result<String, rcgen::Error>)
    ensures
        r matches Ok(cert) ==> {
            &&& cert_subject(cert@) == stated(params_subject(*params))
            &&& cert_issuer(cert@) == params_subject(*params).names
            &&& certified_key(cert@) == public_key_of(key@)
            &&& signed_by(cert@, public_key_of(key@))
        },
{
    let key = rcgen::KeyPair::from_pem(key)?;
    params.self_signed(&key).map(|c| c.pem())
}

/// Reads the subject key and the issuer key from their PEM texts, calls
/// `CertificateParams::signed_by` for the subject key, issued by
/// `rcgen::Issuer::from_params(issuer_params, issuer_key)`, and returns the
/// certificate's PEM. The serial number and signature are random; what holds
/// of every outcome is that the certificate states the parameters' subject,
/// names the issuer parameters' subject as issuer, certifies the subject key
/// and is signed with the issuer key.
#[verifier::external_body]
fn issued_pem(
    params: &rcgen::CertificateParams,
    key: &str,
    issuer_params: &rcgen::CertificateParams,
    issuer_key: &str,
) -> (r: Result<String, rcgen::Error>)
    ensures
        r matches Ok(cert) ==> {
            &&& cert_subject(cert@) == stated(params_subject(*params))
            &&& cert_issuer(cert@) == params_subject(*issuer_params).names
            &&& certified_key(cert@) == public_key_of(key@)
            &&& signed_by(cert@, public_key_of(issuer_key@))
        },
{
    let key = rcgen::KeyPair::from_pem(key)?;
    let issuer_key = rcgen::KeyPair::from_pem(issuer_key)?;
    let issuer = rcgen::Issuer::from_params(issuer_params, &issuer_key);
    params.signed_by(&key, &issuer).map(|c| c.pem())
}

/// The PEM texts of a freshly generated attestation chain.
pub struct AttestationChain {
    pub ca_cert_pem: String,
    pub ca_key_pem: String,
    pub device_cert_pem: String,
    pub device_key_pem: String,
}

/// Generates the attestation chain for the authenticator `aaguid`: a root CA
/// with the `ca_profile` and a fresh key, self-signed, and a device
/// certificate with the `device_profile` and a second fresh key, issued by
/// the CA. The first failure of the certificate library is returned; the
/// keys, serial numbers and signatures are random, so of a generated chain
/// what is stated is what each certificate says and how they are tied.
pub fn generate_chain(aaguid: &[u8; 16]) -> (r: Result<AttestationChain, rcgen::Error>)
    ensures
        r matches Ok(c) ==> {
            &&& cert_subject(c.ca_cert_pem@) == stated(ca_subject())
            &&& cert_issuer(c.ca_cert_pem@) == ca_subject().names
            &&& certified_key(c.ca_cert_pem@) == public_key_of(c.ca_key_pem@)
            &&& signed_by(c.ca_cert_pem@, public_key_of(c.ca_key_pem@))
            &&& cert_subject(c.device_cert_pem@) == stated(device_subject(aaguid@))
            &&& cert_issuer(c.device_cert_pem@) == cert_subject(c.ca_cert_pem@).names
            &&& certified_key(c.device_cert_pem@) == public_key_of(c.device_key_pem@)
            &&& signed_by(c.device_cert_pem@, public_key_of(c.ca_key_pem@))
        },
{
    let ca = ca_profile();
    let ca_params = certificate_params(&ca);
    let ca_key = new_p256_key()?;
    let ca_cert_pem = self_signed_pem(&ca_params, ca_key.as_str())?;

    let device_key = new_p256_key()?;
    let device = device_profile(aaguid);
    let device_params = certificate_params(&device);
    let device_cert_pem = issued_pem(&device_params, device_key.as_str(), &ca_params, ca_key.as_str())?;
    proof {
        assert(profile_subject(ca).names =~= ca_subject().names);
        assert(profile_subject(device).names =~= device_subject(aaguid@).names);
    }
    Ok(AttestationChain {
        ca_cert_pem,
        ca_key_pem: ca_key,
        device_cert_pem,
        device_key_pem: device_key,
    })
}

} // verus!
