//! Certificates: what the client demands of one that was signed for it, and
//! which of those that are installed belong to whom.

use vstd::prelude::*;
use vstd::utf8::encode_utf8;

use crate::chain::{chain_outcome, validate_chain};
use crate::config::{CertificateProfile, CertificatePurpose, ProfileView};
use crate::encoding::{
    hex, hex_char, parse_pem, parsed_pem, sha1_digest, sha1_thumbprint, thumbprint_of, PemBlock,
};
use crate::error::{certificate_error, outcome, view_outcome, AppError, AppResult, ErrorView};
use crate::text::{
    begins, byte_len, chars_of, clone_texts, concat2, control, eq_ignoring_case, hex_digit,
    is_control, is_hex_digit, list_includes, lower, lower_char, lowercase, parts,
    same_ignoring_case, slice_text, split, starts_with, text_of, to_lower, trim, trimmed, view_all,
};
use crate::x509::{
    certificate, certificate_bytes, certificate_valid_at, read_certificate, read_request_key,
    request_public_key, same_bytes, valid_now, view_names, AlternativeName, AlternativeNameView,
    Certificate, CertificateView, ExtendedKeyUsage, ExtendedKeyUsageView, KeyUsage, Name, NameView,
};

verus! {

// ---------------------------------------------------------------------------
// Data
// ---------------------------------------------------------------------------

/// A root as it is shown, with what the certificate stores say of it.
pub struct RootInfo {
    pub id: String,
    pub subject: String,
    pub issuer: String,
    pub fingerprint: String,
    pub not_before: String,
    pub not_after: String,
    pub installed: bool,
    pub machine_installed: bool,
    pub conflicting_subject: bool,
    pub refreshable: bool,
}

#[verifier::ext_equal]
pub struct RootInfoView {
    pub id: Seq<char>,
    pub subject: Seq<char>,
    pub issuer: Seq<char>,
    pub fingerprint: Seq<char>,
    pub not_before: Seq<char>,
    pub not_after: Seq<char>,
    pub installed: bool,
    pub machine_installed: bool,
    pub conflicting_subject: bool,
    pub refreshable: bool,
}

impl View for RootInfo {
    type V = RootInfoView;

    open spec fn view(&self) -> RootInfoView {
        RootInfoView {
            id: self.id@,
            subject: self.subject@,
            issuer: self.issuer@,
            fingerprint: self.fingerprint@,
            not_before: self.not_before@,
            not_after: self.not_after@,
            installed: self.installed,
            machine_installed: self.machine_installed,
            conflicting_subject: self.conflicting_subject,
            refreshable: self.refreshable,
        }
    }
}

/// A certificate that was just accepted.
#[derive(Debug)]
pub struct IssuedCertificate {
    pub thumbprint: String,
    pub subject: String,
    pub not_after: String,
    pub warnings: Vec<String>,
}

#[verifier::ext_equal]
pub struct IssuedView {
    pub thumbprint: Seq<char>,
    pub subject: Seq<char>,
    pub not_after: Seq<char>,
    pub warnings: Seq<Seq<char>>,
}

impl View for IssuedCertificate {
    type V = IssuedView;

    open spec fn view(&self) -> IssuedView {
        IssuedView {
            thumbprint: self.thumbprint@,
            subject: self.subject@,
            not_after: self.not_after@,
            warnings: view_all(self.warnings@),
        }
    }
}

/// A certificate in a store or in a slot.
#[derive(Debug)]
pub struct PersonalCertificate {
    pub thumbprint: String,
    pub serial_number: String,
    pub subject: String,
    pub issuer: String,
    pub simple_name: String,
    pub dns_names: Vec<String>,
    pub email_names: Vec<String>,
    pub not_before: String,
    pub not_after: String,
    pub has_private_key: bool,
    pub eku_oids: Vec<String>,
}

#[verifier::ext_equal]
pub struct PersonalView {
    pub thumbprint: Seq<char>,
    pub serial_number: Seq<char>,
    pub subject: Seq<char>,
    pub issuer: Seq<char>,
    pub simple_name: Seq<char>,
    pub dns_names: Seq<Seq<char>>,
    pub email_names: Seq<Seq<char>>,
    pub not_before: Seq<char>,
    pub not_after: Seq<char>,
    pub has_private_key: bool,
    pub eku_oids: Seq<Seq<char>>,
}

impl View for PersonalCertificate {
    type V = PersonalView;

    open spec fn view(&self) -> PersonalView {
        PersonalView {
            thumbprint: self.thumbprint@,
            serial_number: self.serial_number@,
            subject: self.subject@,
            issuer: self.issuer@,
            simple_name: self.simple_name@,
            dns_names: view_all(self.dns_names@),
            email_names: view_all(self.email_names@),
            not_before: self.not_before@,
            not_after: self.not_after@,
            has_private_key: self.has_private_key,
            eku_oids: view_all(self.eku_oids@),
        }
    }
}

pub open spec fn view_personal(all: Seq<PersonalCertificate>) -> Seq<PersonalView> {
    Seq::new(all.len(), |i: int| all[i]@)
}

impl Clone for PersonalCertificate {
    fn clone(&self) -> (r: PersonalCertificate)
        ensures
            r@ == self@,
    {
        PersonalCertificate {
            thumbprint: self.thumbprint.clone(),
            serial_number: self.serial_number.clone(),
            subject: self.subject.clone(),
            issuer: self.issuer.clone(),
            simple_name: self.simple_name.clone(),
            dns_names: clone_texts(&self.dns_names),
            email_names: clone_texts(&self.email_names),
            not_before: self.not_before.clone(),
            not_after: self.not_after.clone(),
            has_private_key: self.has_private_key,
            eku_oids: clone_texts(&self.eku_oids),
        }
    }
}

/// The certificates that are installed for a profile.
pub struct ProfileCertificateStatus {
    pub profile_id: String,
    pub certificates: Vec<PersonalCertificate>,
}

#[verifier::ext_equal]
pub struct ProfileStatusView {
    pub profile_id: Seq<char>,
    pub certificates: Seq<PersonalView>,
}

impl View for ProfileCertificateStatus {
    type V = ProfileStatusView;

    open spec fn view(&self) -> ProfileStatusView {
        ProfileStatusView {
            profile_id: self.profile_id@,
            certificates: view_personal(self.certificates@),
        }
    }
}

/// What a signed certificate is held against.
pub struct AcceptancePolicy<'a> {
    pub trusted_root_fingerprints: &'a [String],
    pub expected_identity: &'a str,
    pub expected_san: Option<&'a str>,
    pub expected_purpose: &'a CertificatePurpose,
    pub expected_eku_oids: &'a [String],
}

#[verifier::ext_equal]
pub struct PolicyView {
    pub trusted_root_fingerprints: Seq<Seq<char>>,
    pub expected_identity: Seq<char>,
    pub expected_san: Option<Seq<char>>,
    pub expected_purpose: CertificatePurpose,
    pub expected_eku_oids: Seq<Seq<char>>,
}

impl<'a> View for AcceptancePolicy<'a> {
    type V = PolicyView;

    open spec fn view(&self) -> PolicyView {
        PolicyView {
            trusted_root_fingerprints: view_all(self.trusted_root_fingerprints@),
            expected_identity: self.expected_identity@,
            expected_san: match self.expected_san {
                Some(text) => Some(text@),
                None => None,
            },
            expected_purpose: *self.expected_purpose,
            expected_eku_oids: view_all(self.expected_eku_oids@),
        }
    }
}

// ---------------------------------------------------------------------------
// Identities
// ---------------------------------------------------------------------------

/// One to 253 bytes without control characters.
pub open spec fn is_identity(s: Seq<char>) -> bool {
    &&& 0 < s.len()
    &&& encode_utf8(s).len() <= 253
    &&& forall|i: int| 0 <= i < s.len() ==> !is_control(#[trigger] s[i])
}

pub open spec fn identity_outcome(s: Seq<char>) -> Result<(), ErrorView> {
    if is_identity(s) {
        Ok(())
    } else {
        Err(ErrorView::Certificate("the mapped certificate identity is invalid"@))
    }
}

/// Refuses an identity that could not stand in a certificate request, or that
/// would break out of the line it is written into.
pub fn validate_identity(value: &str) -> (r: AppResult<()>)
    ensures
        outcome(r) == identity_outcome(value@),
{
    let chars: Vec<char> = chars_of(value);
    let mut allowed: bool = chars.len() > 0 && byte_len(value) <= 253;
    let mut i: usize = 0;
    while i < chars.len()
        invariant
            chars@ == value@,
            0 <= i <= chars@.len(),
            allowed == (0 < value@.len() && encode_utf8(value@).len() <= 253 && forall|k: int|
                0 <= k < i ==> !is_control(#[trigger] value@[k])),
        decreases chars@.len() - i,
    {
        if control(chars[i]) {
            assert(is_control(value@[i as int]));
            allowed = false;
        }
        i += 1;
    }
    if allowed {
        Ok(())
    } else {
        Err(certificate_error("the mapped certificate identity is invalid"))
    }
}

/// One of the texts is the identity, in whatever case.
pub open spec fn any_same(texts: Seq<Seq<char>>, identity: Seq<char>) -> bool {
    exists|i: int| 0 <= i < texts.len() && same_ignoring_case(#[trigger] texts[i], identity)
}

/// A part of a printed name that holds a common name equal to the identity.
pub open spec fn is_common_name_part(part: Seq<char>, identity: Seq<char>) -> bool {
    starts_with(trim(part), "CN="@) && same_ignoring_case(trim(part).skip(3), identity)
}

/// The certificate belongs to the identity: by its simple name, a common name
/// of its subject, a DNS name or an email address.
pub open spec fn belongs_to(cert: PersonalView, identity: Seq<char>) -> bool {
    ||| same_ignoring_case(cert.simple_name, identity)
    ||| exists|i: int|
        0 <= i < split(cert.subject, ',').len() && is_common_name_part(
            #[trigger] split(cert.subject, ',')[i],
            identity,
        )
    ||| any_same(cert.dns_names, identity)
    ||| any_same(cert.email_names, identity)
}

fn one_same(texts: &[String], identity: &str) -> (r: bool)
    ensures
        r == any_same(view_all(texts@), identity@),
{
    let mut i: usize = 0;
    while i < texts.len()
        invariant
            0 <= i <= texts@.len(),
            forall|k: int|
                0 <= k < i ==> !same_ignoring_case(#[trigger] view_all(texts@)[k], identity@),
        decreases texts@.len() - i,
    {
        if eq_ignoring_case(texts[i].as_str(), identity) {
            assert(same_ignoring_case(view_all(texts@)[i as int], identity@));
            return true;
        }
        i += 1;
    }
    false
}

fn names_in_common(part: &str, identity: &str) -> (r: bool)
    ensures
        r == is_common_name_part(part@, identity@),
{
    let text: String = trimmed(part);
    proof {
        reveal_strlit("CN=");
    }
    if !begins(text.as_str(), "CN=") {
        return false;
    }
    let chars: Vec<char> = chars_of(text.as_str());
    let name: String = slice_text(&chars, 3, chars.len());
    assert(chars@.subrange(3, chars@.len() as int) =~= text@.skip(3));
    eq_ignoring_case(name.as_str(), identity)
}

pub fn certificate_matches_identity(cert: &PersonalCertificate, identity: &str) -> (r: bool)
    ensures
        r == belongs_to(cert@, identity@),
{
    if eq_ignoring_case(cert.simple_name.as_str(), identity) {
        return true;
    }
    let pieces: Vec<String> = parts(cert.subject.as_str(), ',');
    let ghost views = view_all(pieces@);
    let mut i: usize = 0;
    while i < pieces.len()
        invariant
            0 <= i <= pieces@.len(),
            views == view_all(pieces@),
            views == split(cert@.subject, ','),
            forall|k: int|
                0 <= k < i ==> !is_common_name_part(
                    #[trigger] split(cert@.subject, ',')[k],
                    identity@,
                ),
        decreases pieces@.len() - i,
    {
        if names_in_common(pieces[i].as_str(), identity) {
            assert(is_common_name_part(split(cert@.subject, ',')[i as int], identity@));
            return true;
        }
        i += 1;
    }
    one_same(&cert.dns_names, identity) || one_same(&cert.email_names, identity)
}

/// The certificate can serve the profile: it says nothing of its usages, or
/// has all that the profile expects.
pub open spec fn serves(cert: PersonalView, expected: Seq<Seq<char>>) -> bool {
    cert.eku_oids.len() == 0 || forall|i: int|
        0 <= i < expected.len() ==> cert.eku_oids.contains(#[trigger] expected[i])
}

/// The certificate is one that the user has for the profile, with its key.
pub open spec fn is_for_profile(
    cert: PersonalView,
    profile: ProfileView,
    identity: Seq<char>,
) -> bool {
    cert.has_private_key && belongs_to(cert, identity) && serves(cert, profile.expected_eku_oids)
}

/// Those of the certificates that are for the profile, in their order.
pub open spec fn for_profile(
    all: Seq<PersonalView>,
    profile: ProfileView,
    identity: Seq<char>,
) -> Seq<PersonalView>
    decreases all.len(),
{
    if all.len() == 0 {
        Seq::empty()
    } else {
        let before = for_profile(all.drop_last(), profile, identity);
        if is_for_profile(all.last(), profile, identity) {
            before.push(all.last())
        } else {
            before
        }
    }
}

/// Exactly the certificates that are for the profile are listed.
pub proof fn law_inventory_is_exact(
    all: Seq<PersonalView>,
    profile: ProfileView,
    identity: Seq<char>,
    cert: PersonalView,
)
    ensures
        for_profile(all, profile, identity).contains(cert) <==> all.contains(cert)
            && is_for_profile(cert, profile, identity),
    decreases all.len(),
{
    if all.len() > 0 {
        let rest = all.drop_last();
        law_inventory_is_exact(rest, profile, identity, cert);
        let before = for_profile(rest, profile, identity);
        if all.contains(cert) {
            let i = choose|i: int| 0 <= i < all.len() && all[i] == cert;
            if i < all.len() - 1 {
                assert(rest[i] == cert);
            }
        }
        if rest.contains(cert) {
            let i = choose|i: int| 0 <= i < rest.len() && rest[i] == cert;
            assert(all[i] == cert);
        }
        assert(all[all.len() - 1] == all.last());
        if is_for_profile(all.last(), profile, identity) {
            let after = before.push(all.last());
            if before.contains(cert) {
                let i = choose|i: int| 0 <= i < before.len() && before[i] == cert;
                assert(after[i] == cert);
            }
            assert(after[before.len() as int] == all.last());
            if after.contains(cert) {
                let i = choose|i: int| 0 <= i < after.len() && after[i] == cert;
                if i < before.len() {
                    assert(before[i] == cert);
                }
            }
        }
    }
}

fn serves_profile(cert: &PersonalCertificate, expected: &[String]) -> (r: bool)
    ensures
        r == serves(cert@, view_all(expected@)),
{
    if cert.eku_oids.len() == 0 {
        return true;
    }
    let mut i: usize = 0;
    while i < expected.len()
        invariant
            0 <= i <= expected@.len(),
            cert@.eku_oids.len() > 0,
            forall|k: int|
                0 <= k < i ==> cert@.eku_oids.contains(#[trigger] view_all(expected@)[k]),
        decreases expected@.len() - i,
    {
        if !list_includes(&cert.eku_oids, expected[i].as_str()) {
            assert(!cert@.eku_oids.contains(view_all(expected@)[i as int]));
            return false;
        }
        i += 1;
    }
    true
}

pub fn certificates_for_profile(
    all: &[PersonalCertificate],
    profile: &CertificateProfile,
    identity: &str,
) -> (r: Vec<PersonalCertificate>)
    ensures
        view_personal(r@) == for_profile(view_personal(all@), profile@, identity@),
{
    let ghost views = view_personal(all@);
    let mut r: Vec<PersonalCertificate> = Vec::new();
    let mut i: usize = 0;
    assert(view_personal(r@) =~= for_profile(views.take(0), profile@, identity@));
    while i < all.len()
        invariant
            0 <= i <= all@.len(),
            views == view_personal(all@),
            view_personal(r@) == for_profile(views.take(i as int), profile@, identity@),
        decreases all@.len() - i,
    {
        let ghost before = view_personal(r@);
        proof {
            assert(views.take(i + 1).drop_last() =~= views.take(i as int));
            assert(views.take(i + 1).last() == views[i as int]);
        }
        let cert: &PersonalCertificate = &all[i];
        if cert.has_private_key && certificate_matches_identity(cert, identity) && serves_profile(
            cert,
            &profile.expected_eku_oids,
        ) {
            r.push(cert.clone());
            assert(view_personal(r@) =~= before.push(cert@));
        }
        i += 1;
    }
    assert(views.take(i as int) =~= views);
    r
}

// ---------------------------------------------------------------------------
// Serial numbers
// ---------------------------------------------------------------------------

/// The hexadecimal digits of the text, in lower case.
pub open spec fn hex_digits_of(s: Seq<char>) -> Seq<char>
    decreases s.len(),
{
    if s.len() == 0 {
        Seq::empty()
    } else if is_hex_digit(s.last()) {
        hex_digits_of(s.drop_last()).push(to_lower(s.last()))
    } else {
        hex_digits_of(s.drop_last())
    }
}

/// An even number of digits: a zero in front of an odd one.
pub open spec fn evened(digits: Seq<char>) -> Seq<char> {
    if digits.len() % 2 == 1 {
        seq!['0'] + digits
    } else {
        digits
    }
}

/// The digits two by two, with colons in between.
pub open spec fn paired(digits: Seq<char>) -> Seq<char>
    decreases digits.len(),
{
    if digits.len() <= 2 {
        digits
    } else {
        digits.take(2) + seq![':'] + paired(digits.skip(2))
    }
}

/// A serial number in the one form in which it is shown and compared.
pub open spec fn normal_serial(s: Seq<char>) -> Seq<char> {
    paired(evened(hex_digits_of(s)))
}

spec fn is_lower_hex(s: Seq<char>) -> bool {
    forall|i: int| 0 <= i < s.len() ==> is_hex_digit(#[trigger] s[i]) && to_lower(s[i]) == s[i]
}

proof fn lemma_hex_digits_of(s: Seq<char>)
    ensures
        is_lower_hex(hex_digits_of(s)),
    decreases s.len(),
{
    if s.len() > 0 {
        lemma_hex_digits_of(s.drop_last());
    }
}

proof fn lemma_hex_digits_concat(a: Seq<char>, b: Seq<char>)
    ensures
        hex_digits_of(a + b) == hex_digits_of(a) + hex_digits_of(b),
    decreases b.len(),
{
    if b.len() == 0 {
        assert(a + b =~= a);
        assert(hex_digits_of(a) + hex_digits_of(b) =~= hex_digits_of(a));
    } else {
        lemma_hex_digits_concat(a, b.drop_last());
        assert((a + b).drop_last() =~= a + b.drop_last());
        assert((a + b).last() == b.last());
        assert(hex_digits_of(a + b) =~= hex_digits_of(a) + hex_digits_of(b));
    }
}

proof fn lemma_hex_digits_same(s: Seq<char>)
    requires
        is_lower_hex(s),
    ensures
        hex_digits_of(s) == s,
    decreases s.len(),
{
    if s.len() > 0 {
        lemma_hex_digits_same(s.drop_last());
        assert(is_hex_digit(s[s.len() - 1]));
        assert(hex_digits_of(s) =~= s);
    }
}

proof fn lemma_hex_digits_paired(d: Seq<char>)
    requires
        is_lower_hex(d),
    ensures
        hex_digits_of(paired(d)) == d,
    decreases d.len(),
{
    if d.len() <= 2 {
        lemma_hex_digits_same(d);
    } else {
        let head = d.take(2);
        let tail = d.skip(2);
        lemma_hex_digits_paired(tail);
        lemma_hex_digits_same(head);
        lemma_hex_digits_concat(head + seq![':'], paired(tail));
        lemma_hex_digits_concat(head, seq![':']);
        let colon = seq![':'];
        assert(colon.drop_last() =~= Seq::empty());
        assert(hex_digits_of(colon) =~= Seq::empty()) by {
            reveal_with_fuel(hex_digits_of, 2);
        }
        assert(hex_digits_of(head) + hex_digits_of(colon) =~= head);
        assert(head + tail =~= d);
    }
}

/// Normalizing a serial number again changes nothing.
pub proof fn law_serials_normalize_once(s: Seq<char>)
    ensures
        normal_serial(normal_serial(s)) == normal_serial(s),
{
    lemma_hex_digits_of(s);
    let d = evened(hex_digits_of(s));
    assert(is_lower_hex(d));
    assert(d.len() % 2 == 0);
    lemma_hex_digits_paired(d);
}

proof fn lemma_hex_digits_lower(s: Seq<char>)
    ensures
        hex_digits_of(lower(s)) == hex_digits_of(s),
    decreases s.len(),
{
    if s.len() > 0 {
        lemma_hex_digits_lower(s.drop_last());
        assert(lower(s).drop_last() =~= lower(s.drop_last()));
        assert(lower(s).last() == to_lower(s.last()));
    }
}

/// The case of a serial number and the separators in it do not matter.
pub proof fn law_serials_ignore_case_and_separators(a: Seq<char>, b: Seq<char>)
    requires
        hex_digits_of(lower(a)) == hex_digits_of(lower(b)),
    ensures
        normal_serial(a) == normal_serial(b),
{
    lemma_hex_digits_lower(a);
    lemma_hex_digits_lower(b);
}

pub fn normalize_certificate_serial(value: &str) -> (r: String)
    ensures
        r@ == normal_serial(value@),
{
    let chars: Vec<char> = chars_of(value);
    let mut found: Vec<char> = Vec::new();
    let mut i: usize = 0;
    assert(value@.take(0) =~= Seq::empty());
    while i < chars.len()
        invariant
            chars@ == value@,
            0 <= i <= chars@.len(),
            found@ == hex_digits_of(value@.take(i as int)),
        decreases chars@.len() - i,
    {
        proof {
            assert(value@.take(i + 1).drop_last() =~= value@.take(i as int));
            assert(value@.take(i + 1).last() == value@[i as int]);
        }
        if hex_digit(chars[i]) {
            found.push(lower_char(chars[i]));
        }
        i += 1;
    }
    assert(value@.take(i as int) =~= value@);
    let mut digits: Vec<char> = Vec::new();
    if found.len() % 2 == 1 {
        digits.push('0');
    }
    let ghost lead = digits@;
    let mut j: usize = 0;
    assert(found@.take(0) =~= Seq::empty());
    assert(digits@ =~= lead + found@.take(0));
    while j < found.len()
        invariant
            0 <= j <= found@.len(),
            digits@ == lead + found@.take(j as int),
        decreases found@.len() - j,
    {
        digits.push(found[j]);
        j += 1;
        assert(digits@ =~= lead + found@.take(j as int));
    }
    assert(found@.take(j as int) =~= found@);
    assert(digits@ =~= evened(found@));
    let mut written: Vec<char> = Vec::new();
    let mut at: usize = 0;
    assert(digits@.skip(0) =~= digits@);
    assert(written@ + paired(digits@) =~= paired(digits@));
    while digits.len() - at > 2
        invariant
            0 <= at <= digits@.len(),
            written@ + paired(digits@.skip(at as int)) == paired(digits@),
        decreases digits@.len() - at,
    {
        let ghost before = written@;
        let ghost rest = digits@.skip(at as int);
        written.push(digits[at]);
        written.push(digits[at + 1]);
        written.push(':');
        at += 2;
        proof {
            assert(rest.skip(2) =~= digits@.skip(at as int));
            assert(written@ =~= before + (rest.take(2) + seq![':']));
            assert(written@ + paired(rest.skip(2)) =~= before + (rest.take(2) + seq![':'] + paired(
                rest.skip(2),
            )));
        }
    }
    let ghost before = written@;
    let ghost rest = digits@.skip(at as int);
    let mut k: usize = at;
    assert(written@ =~= before + digits@.subrange(at as int, k as int));
    while k < digits.len()
        invariant
            at <= k <= digits@.len(),
            written@ == before + digits@.subrange(at as int, k as int),
        decreases digits@.len() - k,
    {
        written.push(digits[k]);
        k += 1;
        assert(written@ =~= before + digits@.subrange(at as int, k as int));
    }
    assert(digits@.subrange(at as int, k as int) =~= rest);
    text_of(&written)
}

// ---------------------------------------------------------------------------
// Names and usages of a certificate
// ---------------------------------------------------------------------------

/// The object identifiers of one extension's usages.
pub open spec fn purpose_oids(usage: ExtendedKeyUsageView) -> Seq<Seq<char>> {
    (if usage.client_auth {
        seq!["1.3.6.1.5.5.7.3.2"@]
    } else {
        Seq::empty()
    }) + (if usage.code_signing {
        seq!["1.3.6.1.5.5.7.3.3"@]
    } else {
        Seq::empty()
    }) + (if usage.email_protection {
        seq!["1.3.6.1.5.5.7.3.4"@]
    } else {
        Seq::empty()
    }) + usage.other
}

/// The object identifiers of all extensions' usages, in their order.
pub open spec fn eku_oids(usages: Seq<Option<ExtendedKeyUsageView>>) -> Seq<Seq<char>>
    decreases usages.len(),
{
    if usages.len() == 0 {
        Seq::empty()
    } else {
        match usages.last() {
            Some(usage) => eku_oids(usages.drop_last()) + purpose_oids(usage),
            None => eku_oids(usages.drop_last()),
        }
    }
}

fn append_texts(r: &mut Vec<String>, texts: &[String])
    ensures
        view_all(final(r)@) == view_all(old(r)@) + view_all(texts@),
{
    let ghost before = view_all(r@);
    let mut i: usize = 0;
    assert(view_all(r@) =~= before + view_all(texts@).take(0));
    while i < texts.len()
        invariant
            0 <= i <= texts@.len(),
            view_all(r@) == before + view_all(texts@).take(i as int),
        decreases texts@.len() - i,
    {
        let ghost so_far = view_all(r@);
        r.push(texts[i].clone());
        i += 1;
        assert(view_all(r@) =~= so_far.push(texts@[i - 1]@));
        assert(view_all(r@) =~= before + view_all(texts@).take(i as int));
    }
    assert(view_all(texts@).take(i as int) =~= view_all(texts@));
}

fn append_oids(r: &mut Vec<String>, usage: &ExtendedKeyUsage)
    ensures
        view_all(final(r)@) == view_all(old(r)@) + purpose_oids(usage@),
{
    let ghost before = view_all(r@);
    let mut named: Vec<String> = Vec::new();
    if usage.client_auth {
        named.push("1.3.6.1.5.5.7.3.2".to_owned());
    }
    if usage.code_signing {
        named.push("1.3.6.1.5.5.7.3.3".to_owned());
    }
    if usage.email_protection {
        named.push("1.3.6.1.5.5.7.3.4".to_owned());
    }
    append_texts(r, &named);
    append_texts(r, &usage.other);
    assert(view_all(r@) =~= before + purpose_oids(usage@));
}

/// The object identifiers of the certificate's extended key usages.
pub fn certificate_eku_oids(cert: &Certificate) -> (r: Vec<String>)
    ensures
        view_all(r@) == eku_oids(cert@.extended_key_usages),
{
    let ghost usages = cert@.extended_key_usages;
    let mut r: Vec<String> = Vec::new();
    let mut i: usize = 0;
    assert(view_all(r@) =~= eku_oids(usages.take(0)));
    while i < cert.extended_key_usages.len()
        invariant
            0 <= i <= cert.extended_key_usages@.len(),
            usages == cert@.extended_key_usages,
            view_all(r@) == eku_oids(usages.take(i as int)),
        decreases cert.extended_key_usages@.len() - i,
    {
        proof {
            assert(usages.take(i + 1).drop_last() =~= usages.take(i as int));
            assert(usages.take(i + 1).last() == usages[i as int]);
        }
        if let Some(usage) = &cert.extended_key_usages[i] {
            append_oids(&mut r, usage);
        }
        i += 1;
    }
    assert(usages.take(i as int) =~= usages);
    r
}

/// The first key usage extension, if there is one.
pub open spec fn first_usage(usages: Seq<Option<KeyUsage>>) -> Option<KeyUsage>
    decreases usages.len(),
{
    if usages.len() == 0 {
        None
    } else if usages[0] is Some {
        usages[0]
    } else {
        first_usage(usages.drop_first())
    }
}

/// The key usage that a purpose needs.
pub open spec fn suits(usage: KeyUsage, purpose: CertificatePurpose) -> bool {
    match purpose {
        CertificatePurpose::Mtls => usage.digital_signature,
        CertificatePurpose::CodeSigning => usage.digital_signature,
        CertificatePurpose::DocumentSigning => usage.digital_signature && usage.non_repudiation,
    }
}

pub open spec fn key_usage_outcome(
    usages: Seq<Option<KeyUsage>>,
    purpose: CertificatePurpose,
) -> Result<(), ErrorView> {
    match first_usage(usages) {
        None => Err(ErrorView::Certificate("the signed certificate is missing Key Usage"@)),
        Some(usage) => if suits(usage, purpose) {
            Ok(())
        } else {
            Err(
                ErrorView::Certificate(
                    "the signed certificate has the wrong Key Usage for "@ + purpose.label_text(),
                ),
            )
        },
    }
}

pub fn validate_key_usage_for_purpose(cert: &Certificate, purpose: &CertificatePurpose) -> (r:
    AppResult<()>)
    ensures
        outcome(r) == key_usage_outcome(cert@.key_usages, *purpose),
{
    let ghost usages = cert@.key_usages;
    let mut i: usize = 0;
    assert(usages.skip(0) =~= usages);
    while i < cert.key_usages.len()
        invariant
            0 <= i <= cert.key_usages@.len(),
            usages == cert.key_usages@,
            first_usage(usages.skip(i as int)) == first_usage(usages),
        decreases cert.key_usages@.len() - i,
    {
        proof {
            assert(usages.skip(i as int)[0] == usages[i as int]);
            assert(usages.skip(i as int).drop_first() =~= usages.skip(i + 1));
        }
        if let Some(usage) = cert.key_usages[i] {
            let valid: bool = match purpose {
                CertificatePurpose::Mtls => usage.digital_signature,
                CertificatePurpose::CodeSigning => usage.digital_signature,
                CertificatePurpose::DocumentSigning => usage.digital_signature
                    && usage.non_repudiation,
            };
            if valid {
                return Ok(());
            }
            return Err(
                AppError::Certificate(
                    concat2(
                        "the signed certificate has the wrong Key Usage for ",
                        purpose.label(),
                    ),
                ),
            );
        }
        i += 1;
    }
    Err(certificate_error("the signed certificate is missing Key Usage"))
}

/// One of the subject's common names is the identity, in whatever case.
pub open spec fn has_common_name(subject: NameView, identity: Seq<char>) -> bool {
    exists|i: int|
        0 <= i < subject.common_names.len() && #[trigger] subject.common_names[i] is Some
            && same_ignoring_case(subject.common_names[i]->Some_0, identity)
}

/// The alternative name is an email address or a DNS name equal to the text,
/// in whatever case.
pub open spec fn is_named(name: AlternativeNameView, text: Seq<char>) -> bool {
    match name {
        AlternativeNameView::Email(email) => same_ignoring_case(email, text),
        AlternativeNameView::Dns(dns) => same_ignoring_case(dns, text),
        AlternativeNameView::Other => false,
    }
}

pub open spec fn any_named(names: Seq<AlternativeNameView>, text: Seq<char>) -> bool {
    exists|i: int| 0 <= i < names.len() && is_named(#[trigger] names[i], text)
}

/// One of the subject alternative names is the text.
pub open spec fn has_alternative_name(
    lists: Seq<Option<Seq<AlternativeNameView>>>,
    text: Seq<char>,
) -> bool {
    exists|i: int|
        0 <= i < lists.len() && #[trigger] lists[i] is Some && any_named(lists[i]->Some_0, text)
}

fn names_itself(subject: &Name, identity: &str) -> (r: bool)
    ensures
        r == has_common_name(subject@, identity@),
{
    let mut i: usize = 0;
    while i < subject.common_names.len()
        invariant
            0 <= i <= subject.common_names@.len(),
            forall|k: int|
                0 <= k < i && #[trigger] subject@.common_names[k] is Some ==> !same_ignoring_case(
                    subject@.common_names[k]->Some_0,
                    identity@,
                ),
        decreases subject.common_names@.len() - i,
    {
        if let Some(name) = &subject.common_names[i] {
            assert(subject@.common_names[i as int] == Some(name@));
            if eq_ignoring_case(name.as_str(), identity) {
                return true;
            }
        }
        i += 1;
    }
    false
}

fn one_named(names: &[AlternativeName], text: &str) -> (r: bool)
    ensures
        r == any_named(view_names(names@), text@),
{
    let mut i: usize = 0;
    while i < names.len()
        invariant
            0 <= i <= names@.len(),
            forall|k: int| 0 <= k < i ==> !is_named(#[trigger] view_names(names@)[k], text@),
        decreases names@.len() - i,
    {
        let same: bool = match &names[i] {
            AlternativeName::Email(email) => eq_ignoring_case(email.as_str(), text),
            AlternativeName::Dns(dns) => eq_ignoring_case(dns.as_str(), text),
            AlternativeName::Other => false,
        };
        if same {
            assert(is_named(view_names(names@)[i as int], text@));
            return true;
        }
        i += 1;
    }
    false
}

fn names_alternatively(cert: &Certificate, text: &str) -> (r: bool)
    ensures
        r == has_alternative_name(cert@.alternative_names, text@),
{
    let mut i: usize = 0;
    while i < cert.alternative_names.len()
        invariant
            0 <= i <= cert.alternative_names@.len(),
            forall|k: int|
                0 <= k < i && #[trigger] cert@.alternative_names[k] is Some ==> !any_named(
                    cert@.alternative_names[k]->Some_0,
                    text@,
                ),
        decreases cert.alternative_names@.len() - i,
    {
        if let Some(names) = &cert.alternative_names[i] {
            assert(cert@.alternative_names[i as int] == Some(view_names(names@)));
            if one_named(names, text) {
                return true;
            }
        }
        i += 1;
    }
    false
}

// ---------------------------------------------------------------------------
// Accepting a signed certificate
// ---------------------------------------------------------------------------

/// The first of the expected usages that is not among the actual ones.
pub open spec fn first_missing(expected: Seq<Seq<char>>, actual: Seq<Seq<char>>) -> Option<
    Seq<char>,
>
    decreases expected.len(),
{
    if expected.len() == 0 {
        None
    } else if !actual.contains(expected[0]) {
        Some(expected[0])
    } else {
        first_missing(expected.drop_first(), actual)
    }
}

/// An extended usage that a certificate for the purpose must not have: one for
/// document signing neither authenticates clients nor signs code.
pub open spec fn excluded_usage(actual: Seq<Seq<char>>, purpose: CertificatePurpose) -> Option<
    Seq<char>,
> {
    if purpose != CertificatePurpose::DocumentSigning {
        None
    } else if actual.contains("1.3.6.1.5.5.7.3.2"@) {
        Some("1.3.6.1.5.5.7.3.2"@)
    } else if actual.contains("1.3.6.1.5.5.7.3.3"@) {
        Some("1.3.6.1.5.5.7.3.3"@)
    } else {
        None
    }
}

pub open spec fn refused<T>(message: Seq<char>) -> Result<T, ErrorView> {
    Err(ErrorView::Certificate(message))
}

/// The names and usages of a certificate are those that the policy asks for.
pub open spec fn leaf_outcome(cert: CertificateView, policy: PolicyView) -> Result<(), ErrorView> {
    if !has_common_name(cert.subject, policy.expected_identity) {
        refused("the signed certificate identity does not match the authenticated user"@)
    } else if policy.expected_san is Some && !has_alternative_name(
        cert.alternative_names,
        policy.expected_san->Some_0,
    ) {
        refused("the signed certificate SAN does not match the authenticated user"@)
    } else {
        match first_missing(policy.expected_eku_oids, eku_oids(cert.extended_key_usages)) {
            Some(oid) => refused("the signed certificate is missing required EKU "@ + oid),
            None => match excluded_usage(
                eku_oids(cert.extended_key_usages),
                policy.expected_purpose,
            ) {
                Some(oid) => refused("the signed certificate has the excluded EKU "@ + oid),
                None => key_usage_outcome(cert.key_usages, policy.expected_purpose),
            },
        }
    }
}

/// What the clock and the key of the request say of a certificate.
pub open spec fn key_outcome(
    currently_valid: bool,
    request_key: Seq<u8>,
    certificate_key: Seq<u8>,
) -> Result<(), ErrorView> {
    if !currently_valid {
        refused("OpenBao returned a certificate that is not currently valid"@)
    } else if request_key != certificate_key {
        refused("the signed certificate does not match the locally generated key"@)
    } else {
        Ok(())
    }
}

/// What comes of a certificate with a path to a trusted root when its names and
/// usages are held against the policy: the certificate as it is shown, and the
/// path.
pub open spec fn leaf_acceptance(
    cert: CertificateView,
    thumbprint: Seq<char>,
    between: Seq<Seq<char>>,
    policy: PolicyView,
) -> Result<(IssuedView, Seq<Seq<char>>), ErrorView> {
    match leaf_outcome(cert, policy) {
        Err(e) => Err(e),
        Ok(()) => Ok(
            (
                IssuedView {
                    thumbprint,
                    subject: cert.subject.text,
                    not_after: cert.not_after,
                    warnings: Seq::empty(),
                },
                between,
            ),
        ),
    }
}

/// The bytes in a certificate request's PEM.
pub open spec fn request_bytes(csr_pem: Seq<char>) -> Result<Seq<u8>, ErrorView> {
    match parsed_pem(csr_pem) {
        Some(block) => Ok(block.contents),
        None => refused("Windows returned an invalid CSR PEM"@),
    }
}

/// The certificate in a signed certificate's PEM.
pub open spec fn issued_certificate(certificate_pem: Seq<char>) -> Result<
    CertificateView,
    ErrorView,
> {
    match parsed_pem(certificate_pem) {
        None => refused("OpenBao returned an invalid certificate PEM"@),
        Some(block) => match certificate(block.contents) {
            None => refused("OpenBao returned an invalid X.509 certificate"@),
            Some(cert) => Ok(cert),
        },
    }
}

/// What comes of holding a signed certificate against its request and the
/// policy, `currently_valid` being what the clock says of it: the certificate
/// as it is shown, and the certificates between it and a trusted root.
pub open spec fn issued_outcome(
    csr_pem: Seq<char>,
    certificate_pem: Seq<char>,
    chain_pems: Seq<Seq<char>>,
    policy: PolicyView,
    currently_valid: bool,
) -> Result<(IssuedView, Seq<Seq<char>>), ErrorView> {
    match request_bytes(csr_pem) {
        Err(e) => Err(e),
        Ok(csr) => if request_public_key(csr) is None {
            refused("generated CSR could not be parsed"@)
        } else {
            match issued_certificate(certificate_pem) {
                Err(e) => Err(e),
                Ok(cert) => match key_outcome(
                    currently_valid,
                    request_public_key(csr)->Some_0,
                    cert.public_key,
                ) {
                    Err(e) => Err(e),
                    Ok(()) => match chain_outcome(
                        cert.raw,
                        chain_pems,
                        policy.trusted_root_fingerprints,
                    ) {
                        Err(e) => Err(e),
                        Ok(between) => leaf_acceptance(
                            cert,
                            sha1_thumbprint(parsed_pem(certificate_pem)->Some_0.contents),
                            between,
                            policy,
                        ),
                    },
                },
            }
        },
    }
}

proof fn lemma_first_missing(expected: Seq<Seq<char>>, actual: Seq<Seq<char>>)
    ensures
        first_missing(expected, actual) is None <==> (forall|i: int|
            0 <= i < expected.len() ==> actual.contains(#[trigger] expected[i])),
    decreases expected.len(),
{
    if expected.len() > 0 {
        let rest = expected.drop_first();
        lemma_first_missing(rest, actual);
        if actual.contains(expected[0]) {
            if first_missing(rest, actual) is None {
                assert forall|i: int| 0 <= i < expected.len() implies actual.contains(
                    #[trigger] expected[i],
                ) by {
                    if i > 0 {
                        assert(rest[i - 1] == expected[i]);
                    }
                }
            } else {
                let i = choose|i: int| 0 <= i < rest.len() && !actual.contains(#[trigger] rest[i]);
                assert(expected[i + 1] == rest[i]);
            }
        }
    }
}

/// A certificate is accepted only while it is valid, for the key that was
/// generated here, below a trusted root, under the signed-in identity, with
/// the alternative name that was asked for, with every expected extended
/// usage, none that its purpose excludes, and the key usage that its purpose
/// needs.
pub proof fn law_accepted_certificates_meet_the_policy(
    csr_pem: Seq<char>,
    certificate_pem: Seq<char>,
    chain_pems: Seq<Seq<char>>,
    policy: PolicyView,
    currently_valid: bool,
)
    requires
        issued_outcome(csr_pem, certificate_pem, chain_pems, policy, currently_valid) is Ok,
    ensures
        currently_valid,
        issued_certificate(certificate_pem) matches Ok(cert) && {
            &&& request_bytes(csr_pem) is Ok
            &&& request_public_key(request_bytes(csr_pem)->Ok_0) == Some(cert.public_key)
            &&& chain_outcome(cert.raw, chain_pems, policy.trusted_root_fingerprints) == Ok::<
                Seq<Seq<char>>,
                ErrorView,
            >(issued_outcome(csr_pem, certificate_pem, chain_pems, policy, currently_valid)->Ok_0.1)
            &&& has_common_name(cert.subject, policy.expected_identity)
            &&& policy.expected_san is Some ==> has_alternative_name(
                cert.alternative_names,
                policy.expected_san->Some_0,
            )
            &&& forall|i: int|
                0 <= i < policy.expected_eku_oids.len() ==> eku_oids(
                    cert.extended_key_usages,
                ).contains(#[trigger] policy.expected_eku_oids[i])
            &&& policy.expected_purpose == CertificatePurpose::DocumentSigning ==> !eku_oids(
                cert.extended_key_usages,
            ).contains("1.3.6.1.5.5.7.3.2"@) && !eku_oids(cert.extended_key_usages).contains(
                "1.3.6.1.5.5.7.3.3"@,
            )
            &&& first_usage(cert.key_usages) matches Some(usage) && suits(
                usage,
                policy.expected_purpose,
            )
        },
{
    let cert = issued_certificate(certificate_pem)->Ok_0;
    lemma_first_missing(policy.expected_eku_oids, eku_oids(cert.extended_key_usages));
}

/// A certificate without one of the expected extended usages is refused.
pub proof fn law_expected_usages_are_there(cert: CertificateView, policy: PolicyView, oid: Seq<char>)
    requires
        leaf_outcome(cert, policy) is Ok,
        policy.expected_eku_oids.contains(oid),
    ensures
        eku_oids(cert.extended_key_usages).contains(oid),
{
    lemma_first_missing(policy.expected_eku_oids, eku_oids(cert.extended_key_usages));
}

/// A document-signing certificate without both signature bits is refused.
pub proof fn law_document_signing_needs_both_bits(cert: CertificateView, policy: PolicyView)
    requires
        policy.expected_purpose == CertificatePurpose::DocumentSigning,
        first_usage(cert.key_usages) matches Some(usage) ==> !(usage.digital_signature
            && usage.non_repudiation),
    ensures
        leaf_outcome(cert, policy) is Err,
{
}

/// A document-signing certificate that may also authenticate clients or sign
/// code is refused.
pub proof fn law_document_signing_stands_alone(cert: CertificateView, policy: PolicyView)
    requires
        policy.expected_purpose == CertificatePurpose::DocumentSigning,
        eku_oids(cert.extended_key_usages).contains("1.3.6.1.5.5.7.3.2"@) || eku_oids(
            cert.extended_key_usages,
        ).contains("1.3.6.1.5.5.7.3.3"@),
    ensures
        leaf_outcome(cert, policy) matches Err(ErrorView::Certificate(_)),
{
}

fn unwanted_usage(actual: &[String], purpose: &CertificatePurpose) -> (r: Option<&'static str>)
    ensures
        match r {
            Some(oid) => excluded_usage(view_all(actual@), *purpose) == Some(oid@),
            None => excluded_usage(view_all(actual@), *purpose) is None,
        },
{
    match purpose {
        CertificatePurpose::DocumentSigning => {
            if list_includes(actual, "1.3.6.1.5.5.7.3.2") {
                Some("1.3.6.1.5.5.7.3.2")
            } else if list_includes(actual, "1.3.6.1.5.5.7.3.3") {
                Some("1.3.6.1.5.5.7.3.3")
            } else {
                None
            }
        },
        _ => None,
    }
}

fn missing_usage(expected: &[String], actual: &[String]) -> (r: Option<String>)
    ensures
        crate::text::view_option(r) == first_missing(view_all(expected@), view_all(actual@)),
{
    let ghost all = view_all(expected@);
    let mut i: usize = 0;
    assert(all.skip(0) =~= all);
    while i < expected.len()
        invariant
            0 <= i <= expected@.len(),
            all == view_all(expected@),
            first_missing(all.skip(i as int), view_all(actual@)) == first_missing(
                all,
                view_all(actual@),
            ),
        decreases expected@.len() - i,
    {
        proof {
            assert(all.skip(i as int)[0] == all[i as int]);
            assert(all.skip(i as int).drop_first() =~= all.skip(i + 1));
        }
        if !list_includes(actual, expected[i].as_str()) {
            return Some(expected[i].clone());
        }
        i += 1;
    }
    None
}

/// Holds a certificate against the clock's answer and the key of its request.
pub fn check_key(currently_valid: bool, request_key: &[u8], cert: &Certificate) -> (r: AppResult<
    (),
>)
    ensures
        outcome(r) == key_outcome(currently_valid, request_key@, cert@.public_key),
{
    if !currently_valid {
        return Err(
            certificate_error("OpenBao returned a certificate that is not currently valid"),
        );
    }
    if !same_bytes(request_key, &cert.public_key) {
        return Err(
            certificate_error("the signed certificate does not match the locally generated key"),
        );
    }
    Ok(())
}

/// Holds the names and usages of a certificate against the policy.
pub fn check_leaf(cert: &Certificate, policy: &AcceptancePolicy<'_>) -> (r: AppResult<()>)
    ensures
        outcome(r) == leaf_outcome(cert@, policy@),
{
    if !names_itself(&cert.subject, policy.expected_identity) {
        return Err(
            certificate_error(
                "the signed certificate identity does not match the authenticated user",
            ),
        );
    }
    if let Some(expected) = policy.expected_san {
        if !names_alternatively(cert, expected) {
            return Err(
                certificate_error(
                    "the signed certificate SAN does not match the authenticated user",
                ),
            );
        }
    }
    let actual: Vec<String> = certificate_eku_oids(cert);
    if let Some(oid) = missing_usage(policy.expected_eku_oids, &actual) {
        return Err(
            AppError::Certificate(
                concat2("the signed certificate is missing required EKU ", oid.as_str()),
            ),
        );
    }
    if let Some(oid) = unwanted_usage(&actual, policy.expected_purpose) {
        return Err(
            AppError::Certificate(concat2("the signed certificate has the excluded EKU ", oid)),
        );
    }
    validate_key_usage_for_purpose(cert, policy.expected_purpose)
}

/// The bytes in a certificate request's PEM.
pub fn decode_csr_pem(value: &str) -> (r: AppResult<Vec<u8>>)
    ensures
        view_outcome(r) == request_bytes(value@),
{
    match parse_pem(value) {
        Some(block) => Ok(block.contents),
        None => Err(certificate_error("Windows returned an invalid CSR PEM")),
    }
}

pub open spec fn view_accepted(r: AppResult<(IssuedCertificate, Vec<String>)>) -> Result<
    (IssuedView, Seq<Seq<char>>),
    ErrorView,
> {
    match r {
        Ok(accepted) => Ok((accepted.0@, view_all(accepted.1@))),
        Err(e) => Err(e@),
    }
}

/// Accepts a certificate with a path to a trusted root, if its names and usages
/// are those that the policy asks for.
pub fn accept_leaf(
    cert: Certificate,
    thumbprint: String,
    between: Vec<String>,
    policy: &AcceptancePolicy<'_>,
) -> (r: AppResult<(IssuedCertificate, Vec<String>)>)
    ensures
        view_accepted(r) == leaf_acceptance(cert@, thumbprint@, view_all(between@), policy@),
{
    match check_leaf(&cert, policy) {
        Ok(()) => {},
        Err(e) => return Err(e),
    }
    let warnings: Vec<String> = Vec::new();
    assert(view_all(warnings@) =~= Seq::empty());
    Ok(
        (
            IssuedCertificate {
                thumbprint,
                subject: cert.subject.text,
                not_after: cert.not_after,
                warnings,
            },
            between,
        ),
    )
}

/// Holds a signed certificate against its request and the policy, with what
/// the clock says of it given.
pub fn check_issued_certificate(
    csr_pem: &str,
    certificate_pem: &str,
    chain_pems: &[String],
    policy: &AcceptancePolicy<'_>,
    currently_valid: bool,
) -> (r: AppResult<(IssuedCertificate, Vec<String>)>)
    ensures
        view_accepted(r) == issued_outcome(
            csr_pem@,
            certificate_pem@,
            view_all(chain_pems@),
            policy@,
            currently_valid,
        ),
{
    let csr: Vec<u8> = match decode_csr_pem(csr_pem) {
        Ok(csr) => csr,
        Err(e) => return Err(e),
    };
    let key: Vec<u8> = match read_request_key(csr.as_slice()) {
        Some(key) => key,
        None => return Err(certificate_error("generated CSR could not be parsed")),
    };
    let block: PemBlock = match parse_pem(certificate_pem) {
        Some(block) => block,
        None => return Err(certificate_error("OpenBao returned an invalid certificate PEM")),
    };
    let cert: Certificate = match read_certificate(block.contents.as_slice()) {
        Some(cert) => cert,
        None => return Err(certificate_error("OpenBao returned an invalid X.509 certificate")),
    };
    match check_key(currently_valid, &key, &cert) {
        Ok(()) => {},
        Err(e) => return Err(e),
    }
    let between: Vec<String> = match validate_chain(
        &cert,
        chain_pems,
        policy.trusted_root_fingerprints,
    ) {
        Ok(between) => between,
        Err(e) => return Err(e),
    };
    accept_leaf(cert, thumbprint_of(block.contents.as_slice()), between, policy)
}

/// The certificate in the PEM is valid at the moment `now`.
pub open spec fn valid_pem_at(certificate_pem: Seq<char>, now: int) -> bool {
    parsed_pem(certificate_pem) matches Some(block) && certificate_bytes(block.contents) is Some
        && certificate_valid_at(block.contents, now)
}

/// What the clock says of the certificate in the PEM.
fn pem_valid_now(certificate_pem: &str) -> (r: bool)
    ensures
        exists|now: int| r == #[trigger] valid_pem_at(certificate_pem@, now),
{
    match parse_pem(certificate_pem) {
        Some(block) => {
            let answer: Option<bool> = valid_now(block.contents.as_slice());
            match answer {
                Some(valid) => {
                    proof {
                        let now = choose|now: int|
                            answer == Some(#[trigger] certificate_valid_at(block.contents@, now));
                        assert(valid == valid_pem_at(certificate_pem@, now));
                    }
                    valid
                },
                None => {
                    assert(!valid_pem_at(certificate_pem@, 0));
                    false
                },
            }
        },
        None => {
            assert(!valid_pem_at(certificate_pem@, 0));
            false
        },
    }
}

/// Holds a signed certificate against its request, the policy and the clock:
/// what comes of it is what `issued_outcome` says with the certificate's
/// validity at one moment, that of the call.
pub fn validate_issued_certificate(
    csr_pem: &str,
    certificate_pem: &str,
    chain_pems: &[String],
    policy: &AcceptancePolicy<'_>,
) -> (r: AppResult<(IssuedCertificate, Vec<String>)>)
    ensures
        exists|now: int|
            view_accepted(r) == issued_outcome(
                csr_pem@,
                certificate_pem@,
                view_all(chain_pems@),
                policy@,
                #[trigger] valid_pem_at(certificate_pem@, now),
            ),
{
    let currently_valid: bool = pem_valid_now(certificate_pem);
    check_issued_certificate(csr_pem, certificate_pem, chain_pems, policy, currently_valid)
}

// ---------------------------------------------------------------------------
// A certificate in a slot
// ---------------------------------------------------------------------------

/// The first common name that is a text, or nothing.
pub open spec fn first_text(texts: Seq<Option<Seq<char>>>) -> Seq<char>
    decreases texts.len(),
{
    if texts.len() == 0 {
        ""@
    } else if texts[0] is Some {
        texts[0]->Some_0
    } else {
        first_text(texts.drop_first())
    }
}

/// All alternative names, in their order.
pub open spec fn all_names(lists: Seq<Option<Seq<AlternativeNameView>>>) -> Seq<AlternativeNameView>
    decreases lists.len(),
{
    if lists.len() == 0 {
        Seq::empty()
    } else {
        match lists.last() {
            Some(names) => all_names(lists.drop_last()) + names,
            None => all_names(lists.drop_last()),
        }
    }
}

/// The DNS names among the alternative names.
pub open spec fn dns_names(names: Seq<AlternativeNameView>) -> Seq<Seq<char>>
    decreases names.len(),
{
    if names.len() == 0 {
        Seq::empty()
    } else {
        match names.last() {
            AlternativeNameView::Dns(text) => dns_names(names.drop_last()).push(text),
            _ => dns_names(names.drop_last()),
        }
    }
}

/// The email addresses among the alternative names.
pub open spec fn email_names(names: Seq<AlternativeNameView>) -> Seq<Seq<char>>
    decreases names.len(),
{
    if names.len() == 0 {
        Seq::empty()
    } else {
        match names.last() {
            AlternativeNameView::Email(text) => email_names(names.drop_last()).push(text),
            _ => email_names(names.drop_last()),
        }
    }
}

/// A certificate with the given thumbprint, as it is shown.
pub open spec fn personal_view(
    cert: CertificateView,
    thumbprint: Seq<char>,
    has_private_key: bool,
) -> PersonalView {
    let names = all_names(cert.alternative_names);
    PersonalView {
        thumbprint,
        serial_number: normal_serial(cert.serial),
        subject: cert.subject.text,
        issuer: cert.issuer.text,
        simple_name: first_text(cert.subject.common_names),
        dns_names: dns_names(names),
        email_names: email_names(names),
        not_before: cert.not_before,
        not_after: cert.not_after,
        has_private_key,
        eku_oids: eku_oids(cert.extended_key_usages),
    }
}

pub open spec fn personal_outcome(certificate_pem: Seq<char>, has_private_key: bool) -> Result<
    PersonalView,
    ErrorView,
> {
    match parsed_pem(certificate_pem) {
        None => refused("YubiKey returned an invalid certificate PEM"@),
        Some(block) => match certificate(block.contents) {
            None => refused("YubiKey returned an invalid X.509 certificate"@),
            Some(cert) => Ok(
                personal_view(cert, sha1_thumbprint(block.contents), has_private_key),
            ),
        },
    }
}

proof fn lemma_hex_is_lower(bytes: Seq<u8>)
    ensures
        lower(hex(bytes)) == hex(bytes),
{
    assert(forall|d: u8| d < 16 ==> to_lower(#[trigger] hex_char(d)) == hex_char(d));
    assert(lower(hex(bytes)) =~= hex(bytes));
}

fn simple_name_of(subject: &Name) -> (r: String)
    ensures
        r@ == first_text(subject@.common_names),
{
    let ghost all = subject@.common_names;
    let mut i: usize = 0;
    assert(all.skip(0) =~= all);
    while i < subject.common_names.len()
        invariant
            0 <= i <= subject.common_names@.len(),
            all == subject@.common_names,
            first_text(all.skip(i as int)) == first_text(all),
        decreases subject.common_names@.len() - i,
    {
        proof {
            assert(all.skip(i as int)[0] == all[i as int]);
            assert(all.skip(i as int).drop_first() =~= all.skip(i + 1));
        }
        if let Some(text) = &subject.common_names[i] {
            return text.clone();
        }
        i += 1;
    }
    "".to_owned()
}

proof fn lemma_dns_names_concat(a: Seq<AlternativeNameView>, b: Seq<AlternativeNameView>)
    ensures
        dns_names(a + b) == dns_names(a) + dns_names(b),
        email_names(a + b) == email_names(a) + email_names(b),
    decreases b.len(),
{
    if b.len() == 0 {
        assert(a + b =~= a);
        assert(dns_names(a) + dns_names(b) =~= dns_names(a));
        assert(email_names(a) + email_names(b) =~= email_names(a));
    } else {
        lemma_dns_names_concat(a, b.drop_last());
        assert((a + b).drop_last() =~= a + b.drop_last());
        assert((a + b).last() == b.last());
        assert(dns_names(a + b) =~= dns_names(a) + dns_names(b));
        assert(email_names(a + b) =~= email_names(a) + email_names(b));
    }
}

fn append_names(names: &[AlternativeName], dns: &mut Vec<String>, email: &mut Vec<String>)
    ensures
        view_all(final(dns)@) == view_all(old(dns)@) + dns_names(view_names(names@)),
        view_all(final(email)@) == view_all(old(email)@) + email_names(view_names(names@)),
{
    let ghost all = view_names(names@);
    let ghost dns_before = view_all(dns@);
    let ghost email_before = view_all(email@);
    let mut i: usize = 0;
    assert(view_all(dns@) =~= dns_before + dns_names(all.take(0)));
    assert(view_all(email@) =~= email_before + email_names(all.take(0)));
    while i < names.len()
        invariant
            0 <= i <= names@.len(),
            all == view_names(names@),
            view_all(dns@) == dns_before + dns_names(all.take(i as int)),
            view_all(email@) == email_before + email_names(all.take(i as int)),
        decreases names@.len() - i,
    {
        proof {
            assert(all.take(i + 1).drop_last() =~= all.take(i as int));
            assert(all.take(i + 1).last() == all[i as int]);
        }
        let ghost dns_so_far = view_all(dns@);
        let ghost email_so_far = view_all(email@);
        match &names[i] {
            AlternativeName::Dns(text) => {
                dns.push(text.clone());
                assert(view_all(dns@) =~= dns_so_far.push(text@));
                assert(view_all(dns@) =~= dns_before + dns_names(all.take(i + 1)));
            },
            AlternativeName::Email(text) => {
                email.push(text.clone());
                assert(view_all(email@) =~= email_so_far.push(text@));
                assert(view_all(email@) =~= email_before + email_names(all.take(i + 1)));
            },
            AlternativeName::Other => {},
        }
        i += 1;
    }
    assert(all.take(i as int) =~= all);
}

fn alternative_texts(cert: &Certificate) -> (r: (Vec<String>, Vec<String>))
    ensures
        view_all(r.0@) == dns_names(all_names(cert@.alternative_names)),
        view_all(r.1@) == email_names(all_names(cert@.alternative_names)),
{
    let ghost lists = cert@.alternative_names;
    let mut dns: Vec<String> = Vec::new();
    let mut email: Vec<String> = Vec::new();
    let mut i: usize = 0;
    assert(view_all(dns@) =~= dns_names(all_names(lists.take(0))));
    assert(view_all(email@) =~= email_names(all_names(lists.take(0))));
    while i < cert.alternative_names.len()
        invariant
            0 <= i <= cert.alternative_names@.len(),
            lists == cert@.alternative_names,
            view_all(dns@) == dns_names(all_names(lists.take(i as int))),
            view_all(email@) == email_names(all_names(lists.take(i as int))),
        decreases cert.alternative_names@.len() - i,
    {
        proof {
            assert(lists.take(i + 1).drop_last() =~= lists.take(i as int));
            assert(lists.take(i + 1).last() == lists[i as int]);
        }
        if let Some(names) = &cert.alternative_names[i] {
            append_names(names, &mut dns, &mut email);
            proof {
                lemma_dns_names_concat(all_names(lists.take(i as int)), view_names(names@));
            }
        }
        i += 1;
    }
    assert(lists.take(i as int) =~= lists);
    (dns, email)
}

/// A certificate with the given thumbprint, as it is shown.
pub fn personal_certificate(cert: Certificate, thumbprint: String, has_private_key: bool) -> (r:
    PersonalCertificate)
    ensures
        r@ == personal_view(cert@, thumbprint@, has_private_key),
{
    let simple_name: String = simple_name_of(&cert.subject);
    let (dns_names, email_names): (Vec<String>, Vec<String>) = alternative_texts(&cert);
    let eku_oids: Vec<String> = certificate_eku_oids(&cert);
    PersonalCertificate {
        thumbprint,
        serial_number: normalize_certificate_serial(cert.serial.as_str()),
        subject: cert.subject.text,
        issuer: cert.issuer.text,
        simple_name,
        dns_names,
        email_names,
        not_before: cert.not_before,
        not_after: cert.not_after,
        has_private_key,
        eku_oids,
    }
}

/// A certificate that a slot gave out, as it is shown.
pub fn personal_certificate_from_pem(certificate_pem: &str, has_private_key: bool) -> (r: AppResult<
    PersonalCertificate,
>)
    ensures
        view_outcome(r) == personal_outcome(certificate_pem@, has_private_key),
{
    let block: PemBlock = match parse_pem(certificate_pem) {
        Some(block) => block,
        None => return Err(certificate_error("YubiKey returned an invalid certificate PEM")),
    };
    let cert: Certificate = match read_certificate(block.contents.as_slice()) {
        Some(cert) => cert,
        None => return Err(certificate_error("YubiKey returned an invalid X.509 certificate")),
    };
    let thumbprint: String = lowercase(thumbprint_of(block.contents.as_slice()).as_str());
    proof {
        lemma_hex_is_lower(sha1_digest(block.contents@));
    }
    Ok(personal_certificate(cert, thumbprint, has_private_key))
}

// ---------------------------------------------------------------------------
// What all this amounts to
// ---------------------------------------------------------------------------

/// One of the certificate's own names is the user's: its simple name, a part of
/// its subject that begins with `CN=`, a DNS name or an email address. The case
/// of letters does not count.
pub open spec fn names_user(cert: PersonalView, identity: Seq<char>) -> bool {
    ||| lower(cert.simple_name) == lower(identity)
    ||| exists|i: int|
        0 <= i < cert.dns_names.len() && lower(#[trigger] cert.dns_names[i]) == lower(identity)
    ||| exists|i: int|
        0 <= i < cert.email_names.len() && lower(#[trigger] cert.email_names[i]) == lower(identity)
    ||| exists|i: int| #![trigger split(cert.subject, ',')[i]]
        0 <= i < split(cert.subject, ',').len() && trim(split(cert.subject, ',')[i]).len() >= 3
            && trim(split(cert.subject, ',')[i]).take(3) == "CN="@ && lower(
            trim(split(cert.subject, ',')[i]).skip(3),
        ) == lower(identity)
}

proof fn lemma_names_user(cert: PersonalView, identity: Seq<char>)
    ensures
        belongs_to(cert, identity) == names_user(cert, identity),
{
    reveal_strlit("CN=");
    let parts = split(cert.subject, ',');
    assert forall|i: int| 0 <= i < parts.len() implies is_common_name_part(
        #[trigger] parts[i],
        identity,
    ) == (trim(parts[i]).len() >= 3 && trim(parts[i]).take(3) == "CN="@ && lower(
        trim(parts[i]).skip(3),
    ) == lower(identity)) by {
        if trim(parts[i]).len() >= 3 {
            assert(trim(parts[i]).subrange(0, 3) =~= trim(parts[i]).take(3));
        }
    }
    if any_same(cert.dns_names, identity) {
        let i = choose|i: int|
            0 <= i < cert.dns_names.len() && same_ignoring_case(
                #[trigger] cert.dns_names[i],
                identity,
            );
        assert(lower(cert.dns_names[i]) == lower(identity));
    }
    if any_same(cert.email_names, identity) {
        let i = choose|i: int|
            0 <= i < cert.email_names.len() && same_ignoring_case(
                #[trigger] cert.email_names[i],
                identity,
            );
        assert(lower(cert.email_names[i]) == lower(identity));
    }
    if names_user(cert, identity) && !(lower(cert.simple_name) == lower(identity)) {
        if exists|i: int|
            0 <= i < cert.dns_names.len() && lower(#[trigger] cert.dns_names[i]) == lower(
                identity,
            ) {
            let i = choose|i: int|
                0 <= i < cert.dns_names.len() && lower(#[trigger] cert.dns_names[i]) == lower(
                    identity,
                );
            assert(same_ignoring_case(cert.dns_names[i], identity));
        } else if exists|i: int|
            0 <= i < cert.email_names.len() && lower(#[trigger] cert.email_names[i]) == lower(
                identity,
            ) {
            let i = choose|i: int|
                0 <= i < cert.email_names.len() && lower(#[trigger] cert.email_names[i])
                    == lower(identity);
            assert(same_ignoring_case(cert.email_names[i], identity));
        } else {
            let i = choose|i: int| #![trigger split(cert.subject, ',')[i]]
                0 <= i < split(cert.subject, ',').len() && trim(
                    split(cert.subject, ',')[i],
                ).len() >= 3 && trim(split(cert.subject, ',')[i]).take(3) == "CN="@ && lower(
                    trim(split(cert.subject, ',')[i]).skip(3),
                ) == lower(identity);
            assert(is_common_name_part(parts[i], identity));
        }
    }
}

/// A certificate is listed for a profile exactly where it is installed with its
/// key, one of its names is the user's, and it either names no usage at all or
/// every usage that the profile expects.
pub proof fn law_listed_certificates_have_every_usage(
    all: Seq<PersonalView>,
    profile: ProfileView,
    identity: Seq<char>,
    cert: PersonalView,
)
    ensures
        for_profile(all, profile, identity).contains(cert) <==> {
            &&& all.contains(cert)
            &&& cert.has_private_key
            &&& names_user(cert, identity)
            &&& cert.eku_oids.len() > 0 ==> forall|oid: Seq<char>|
                profile.expected_eku_oids.contains(oid) ==> #[trigger] cert.eku_oids.contains(oid)
        },
{
    law_inventory_is_exact(all, profile, identity, cert);
    lemma_names_user(cert, identity);
    let expected = profile.expected_eku_oids;
    if serves(cert, expected) && cert.eku_oids.len() > 0 {
        assert forall|oid: Seq<char>| expected.contains(oid) implies #[trigger] cert.eku_oids.contains(
            oid,
        ) by {
            let i = choose|i: int| 0 <= i < expected.len() && expected[i] == oid;
            assert(cert.eku_oids.contains(expected[i]));
        }
    }
    if cert.eku_oids.len() > 0 && (forall|oid: Seq<char>|
        expected.contains(oid) ==> #[trigger] cert.eku_oids.contains(oid)) {
        assert forall|i: int| 0 <= i < expected.len() implies cert.eku_oids.contains(
            #[trigger] expected[i],
        ) by {
            assert(expected.contains(expected[i]));
        }
    }
}

/// The certificates of two stores are listed one after the other: nothing is
/// listed twice, left out or moved.
pub proof fn law_inventories_keep_their_order(
    first: Seq<PersonalView>,
    second: Seq<PersonalView>,
    profile: ProfileView,
    identity: Seq<char>,
)
    ensures
        for_profile(first + second, profile, identity) == for_profile(first, profile, identity)
            + for_profile(second, profile, identity),
        for_profile(first, profile, identity).len() <= first.len(),
    decreases first.len() + second.len(),
{
    if second.len() == 0 {
        assert(first + second =~= first);
        assert(for_profile(first, profile, identity) + for_profile(second, profile, identity)
            =~= for_profile(first, profile, identity));
        if first.len() > 0 {
            law_inventories_keep_their_order(first.drop_last(), second, profile, identity);
        }
    } else {
        law_inventories_keep_their_order(first, second.drop_last(), profile, identity);
        assert((first + second).drop_last() =~= first + second.drop_last());
        assert((first + second).last() == second.last());
        assert(for_profile(first + second, profile, identity) =~= for_profile(
            first,
            profile,
            identity,
        ) + for_profile(second, profile, identity));
    }
}

/// A name is fit for a certificate exactly where it has one to 253 bytes and no
/// character below the space, and none from 127 to 159.
pub proof fn law_fit_names_are_short_and_plain(s: Seq<char>)
    ensures
        identity_outcome(s) is Ok <==> {
            &&& 1 <= encode_utf8(s).len() <= 253
            &&& forall|i: int|
                0 <= i < s.len() ==> 32 <= (#[trigger] s[i]) as u32 && !(127 <= s[i] as u32 <= 159)
        },
        identity_outcome(s) is Err ==> identity_outcome(s)->Err_0 is Certificate,
{
    assert(encode_utf8(s).len() == 0 <==> s.len() == 0);
    if is_identity(s) {
        assert forall|i: int| 0 <= i < s.len() implies 32 <= (#[trigger] s[i]) as u32 && !(127
            <= s[i] as u32 <= 159) by {
            assert(!is_control(s[i]));
        }
    }
}

/// One more character of a serial number adds its digit in lower case where it
/// is a hexadecimal one, and otherwise nothing.
pub proof fn law_serials_keep_their_digits(s: Seq<char>, c: char)
    ensures
        '0' <= c <= '9' || 'a' <= c <= 'f' ==> hex_digits_of(s.push(c)) == hex_digits_of(s).push(c),
        'A' <= c <= 'F' ==> hex_digits_of(s.push(c)) == hex_digits_of(s).push(
            (c as u32 + 32) as char,
        ),
        !('0' <= c <= '9' || 'a' <= c <= 'f' || 'A' <= c <= 'F') ==> hex_digits_of(s.push(c))
            == hex_digits_of(s),
        hex_digits_of(Seq::empty()).len() == 0,
{
    assert(s.push(c).drop_last() =~= s);
}

proof fn lemma_paired(digits: Seq<char>, k: int)
    requires
        digits.len() % 2 == 0,
        0 <= k,
        2 * k + 1 < digits.len(),
    ensures
        2 * paired(digits).len() == 3 * digits.len() - 2,
        paired(digits)[3 * k] == digits[2 * k],
        paired(digits)[3 * k + 1] == digits[2 * k + 1],
        2 * k + 2 < digits.len() ==> paired(digits)[3 * k + 2] == ':',
    decreases digits.len(),
{
    if digits.len() > 2 {
        let rest = digits.skip(2);
        if k > 0 {
            lemma_paired(rest, k - 1);
            assert(rest[2 * (k - 1)] == digits[2 * k]);
            assert(rest[2 * (k - 1) + 1] == digits[2 * k + 1]);
            assert(paired(digits)[3 * k] == paired(rest)[3 * (k - 1)]);
            assert(paired(digits)[3 * k + 1] == paired(rest)[3 * (k - 1) + 1]);
            if 2 * k + 2 < digits.len() {
                assert(paired(digits)[3 * k + 2] == paired(rest)[3 * (k - 1) + 2]);
            }
        } else {
            lemma_paired(rest, 0);
        }
    }
}

/// A serial number is shown as pairs of its digits with colons in between, a
/// zero in front of an odd number of them.
pub proof fn law_serials_are_shown_in_pairs(s: Seq<char>, k: int)
    requires
        0 <= k,
        2 * k < hex_digits_of(s).len(),
    ensures
        ({
            let d = hex_digits_of(s);
            let shown = normal_serial(s);
            let odd = d.len() % 2;
            &&& 2 * shown.len() == 3 * (d.len() + odd) - 2
            &&& odd == 0 ==> shown[3 * k] == d[2 * k] && shown[3 * k + 1] == d[2 * k + 1]
            &&& odd == 1 ==> shown[3 * k + 1] == d[2 * k] && shown[0] == '0' && (k > 0 ==> shown[3
                * k] == d[2 * k - 1])
            &&& 2 * k + 2 < d.len() + odd ==> shown[3 * k + 2] == ':'
        }),
{
    let d = hex_digits_of(s);
    let even = evened(d);
    lemma_paired(even, k);
    lemma_paired(even, 0);
}

/// A usage is listed exactly where one of the extensions has it: three usages
/// by the parser's name for them, every other by its own number.
pub proof fn law_every_usage_is_listed(usages: Seq<Option<ExtendedKeyUsageView>>, oid: Seq<char>)
    ensures
        eku_oids(usages).contains(oid) <==> exists|i: int|
            0 <= i < usages.len() && #[trigger] usages[i] is Some && {
                let usage = usages[i]->Some_0;
                ||| usage.client_auth && oid == "1.3.6.1.5.5.7.3.2"@
                ||| usage.code_signing && oid == "1.3.6.1.5.5.7.3.3"@
                ||| usage.email_protection && oid == "1.3.6.1.5.5.7.3.4"@
                ||| usage.other.contains(oid)
            },
    decreases usages.len(),
{
    if usages.len() > 0 {
        let rest = usages.drop_last();
        law_every_usage_is_listed(rest, oid);
        assert(forall|i: int| 0 <= i < rest.len() ==> #[trigger] rest[i] == usages[i]);
        assert(usages[usages.len() - 1] == usages.last());
        if let Some(usage) = usages.last() {
            lemma_purpose_oids(usage, oid);
            lemma_contains_sum(eku_oids(rest), purpose_oids(usage), oid);
        }
        if eku_oids(rest).contains(oid) {
            let i = choose|i: int|
                0 <= i < rest.len() && #[trigger] rest[i] is Some && {
                    let usage = rest[i]->Some_0;
                    ||| usage.client_auth && oid == "1.3.6.1.5.5.7.3.2"@
                    ||| usage.code_signing && oid == "1.3.6.1.5.5.7.3.3"@
                    ||| usage.email_protection && oid == "1.3.6.1.5.5.7.3.4"@
                    ||| usage.other.contains(oid)
                };
            assert(usages[i] == rest[i]);
        }
        if exists|i: int|
            0 <= i < usages.len() && #[trigger] usages[i] is Some && {
                let usage = usages[i]->Some_0;
                ||| usage.client_auth && oid == "1.3.6.1.5.5.7.3.2"@
                ||| usage.code_signing && oid == "1.3.6.1.5.5.7.3.3"@
                ||| usage.email_protection && oid == "1.3.6.1.5.5.7.3.4"@
                ||| usage.other.contains(oid)
            } {
            let i = choose|i: int|
                0 <= i < usages.len() && #[trigger] usages[i] is Some && {
                    let usage = usages[i]->Some_0;
                    ||| usage.client_auth && oid == "1.3.6.1.5.5.7.3.2"@
                    ||| usage.code_signing && oid == "1.3.6.1.5.5.7.3.3"@
                    ||| usage.email_protection && oid == "1.3.6.1.5.5.7.3.4"@
                    ||| usage.other.contains(oid)
                };
            if i < rest.len() {
                assert(rest[i] == usages[i]);
            }
        }
    }
}

proof fn lemma_contains_sum(a: Seq<Seq<char>>, b: Seq<Seq<char>>, oid: Seq<char>)
    ensures
        (a + b).contains(oid) <==> a.contains(oid) || b.contains(oid),
{
    if a.contains(oid) {
        let i = choose|i: int| 0 <= i < a.len() && a[i] == oid;
        assert((a + b)[i] == oid);
    }
    if b.contains(oid) {
        let i = choose|i: int| 0 <= i < b.len() && b[i] == oid;
        assert((a + b)[a.len() + i] == oid);
    }
    if (a + b).contains(oid) {
        let i = choose|i: int| 0 <= i < (a + b).len() && (a + b)[i] == oid;
        if i < a.len() {
            assert(a[i] == oid);
        } else {
            assert(b[i - a.len()] == oid);
        }
    }
}

proof fn lemma_purpose_oids(usage: ExtendedKeyUsageView, oid: Seq<char>)
    ensures
        purpose_oids(usage).contains(oid) <==> {
            ||| usage.client_auth && oid == "1.3.6.1.5.5.7.3.2"@
            ||| usage.code_signing && oid == "1.3.6.1.5.5.7.3.3"@
            ||| usage.email_protection && oid == "1.3.6.1.5.5.7.3.4"@
            ||| usage.other.contains(oid)
        },
{
    let a: Seq<Seq<char>> = if usage.client_auth {
        seq!["1.3.6.1.5.5.7.3.2"@]
    } else {
        Seq::empty()
    };
    let b: Seq<Seq<char>> = if usage.code_signing {
        seq!["1.3.6.1.5.5.7.3.3"@]
    } else {
        Seq::empty()
    };
    let c: Seq<Seq<char>> = if usage.email_protection {
        seq!["1.3.6.1.5.5.7.3.4"@]
    } else {
        Seq::empty()
    };
    lemma_contains_sum(a + b + c, usage.other, oid);
    lemma_contains_sum(a + b, c, oid);
    lemma_contains_sum(a, b, oid);
    if usage.client_auth {
        assert(a[0] == "1.3.6.1.5.5.7.3.2"@);
    }
    if usage.code_signing {
        assert(b[0] == "1.3.6.1.5.5.7.3.3"@);
    }
    if usage.email_protection {
        assert(c[0] == "1.3.6.1.5.5.7.3.4"@);
    }
}

proof fn lemma_first_usage(usages: Seq<Option<KeyUsage>>, i: int)
    requires
        0 <= i < usages.len(),
        usages[i] is Some,
        forall|k: int| 0 <= k < i ==> #[trigger] usages[k] is None,
    ensures
        first_usage(usages) == usages[i],
    decreases i,
{
    if i > 0 {
        assert(usages[0] is None);
        let rest = usages.drop_first();
        assert(rest[i - 1] == usages[i]);
        assert(forall|k: int| 0 <= k < i - 1 ==> #[trigger] rest[k] == usages[k + 1]);
        lemma_first_usage(rest, i - 1);
    }
}

proof fn lemma_no_usage(usages: Seq<Option<KeyUsage>>)
    requires
        forall|k: int| 0 <= k < usages.len() ==> #[trigger] usages[k] is None,
    ensures
        first_usage(usages) is None,
    decreases usages.len(),
{
    if usages.len() > 0 {
        assert(usages[0] is None);
        let rest = usages.drop_first();
        assert(forall|k: int| 0 <= k < rest.len() ==> #[trigger] rest[k] == usages[k + 1]);
        lemma_no_usage(rest);
    }
}

/// The first key usage extension decides: it must have the bit for digital
/// signatures, and for document signing the one for content commitment too. A
/// certificate without such an extension is refused.
pub proof fn law_the_first_key_usage_decides(
    usages: Seq<Option<KeyUsage>>,
    purpose: CertificatePurpose,
    i: int,
)
    ensures
        0 <= i < usages.len() && usages[i] is Some && (forall|k: int|
            0 <= k < i ==> #[trigger] usages[k] is None) ==> (key_usage_outcome(usages, purpose) is Ok
            <==> usages[i]->Some_0.digital_signature && (purpose
            == CertificatePurpose::DocumentSigning ==> usages[i]->Some_0.non_repudiation)),
        (forall|k: int| 0 <= k < usages.len() ==> #[trigger] usages[k] is None)
            ==> key_usage_outcome(usages, purpose) is Err,
{
    if 0 <= i < usages.len() && usages[i] is Some && (forall|k: int|
        0 <= k < i ==> #[trigger] usages[k] is None) {
        lemma_first_usage(usages, i);
    }
    if forall|k: int| 0 <= k < usages.len() ==> #[trigger] usages[k] is None {
        lemma_no_usage(usages);
    }
}

/// A certificate's email address or DNS name is the text, in whatever case.
pub open spec fn carries_name(
    lists: Seq<Option<Seq<AlternativeNameView>>>,
    text: Seq<char>,
) -> bool {
    exists|i: int, j: int| #![trigger lists[i]->Some_0[j]]
        0 <= i < lists.len() && lists[i] is Some && 0 <= j < lists[i]->Some_0.len() && match lists[i]->Some_0[j] {
            AlternativeNameView::Email(name) => lower(name) == lower(text),
            AlternativeNameView::Dns(name) => lower(name) == lower(text),
            AlternativeNameView::Other => false,
        }
}

proof fn lemma_carries_name(lists: Seq<Option<Seq<AlternativeNameView>>>, text: Seq<char>)
    ensures
        has_alternative_name(lists, text) == carries_name(lists, text),
{
    if has_alternative_name(lists, text) {
        let i = choose|i: int|
            0 <= i < lists.len() && #[trigger] lists[i] is Some && any_named(
                lists[i]->Some_0,
                text,
            );
        let j = choose|j: int|
            0 <= j < lists[i]->Some_0.len() && is_named(#[trigger] lists[i]->Some_0[j], text);
        assert(match lists[i]->Some_0[j] {
            AlternativeNameView::Email(name) => lower(name) == lower(text),
            AlternativeNameView::Dns(name) => lower(name) == lower(text),
            AlternativeNameView::Other => false,
        });
    }
    if carries_name(lists, text) {
        let (i, j) = choose|i: int, j: int| #![trigger lists[i]->Some_0[j]]
            0 <= i < lists.len() && lists[i] is Some && 0 <= j < lists[i]->Some_0.len() && match lists[i]->Some_0[j] {
                AlternativeNameView::Email(name) => lower(name) == lower(text),
                AlternativeNameView::Dns(name) => lower(name) == lower(text),
                AlternativeNameView::Other => false,
            };
        assert(is_named(lists[i]->Some_0[j], text));
        assert(any_named(lists[i]->Some_0, text));
    }
}

/// The names and usages of a certificate are accepted exactly where one of its
/// common names is the user's, one of its alternative names is the one that was
/// asked for, it has every expected usage, a document-signing one has neither
/// of the two that it must not have, and its key usage fits the purpose.
pub proof fn law_names_and_usages_decide(cert: CertificateView, policy: PolicyView)
    ensures
        leaf_outcome(cert, policy) is Ok <==> {
            let usages = eku_oids(cert.extended_key_usages);
            &&& exists|i: int|
                0 <= i < cert.subject.common_names.len()
                    && #[trigger] cert.subject.common_names[i] is Some && lower(
                    cert.subject.common_names[i]->Some_0,
                ) == lower(policy.expected_identity)
            &&& policy.expected_san matches Some(san) ==> carries_name(cert.alternative_names, san)
            &&& forall|oid: Seq<char>|
                policy.expected_eku_oids.contains(oid) ==> #[trigger] usages.contains(oid)
            &&& policy.expected_purpose == CertificatePurpose::DocumentSigning ==> !usages.contains(
                "1.3.6.1.5.5.7.3.2"@,
            ) && !usages.contains("1.3.6.1.5.5.7.3.3"@)
            &&& key_usage_outcome(cert.key_usages, policy.expected_purpose) is Ok
        },
        leaf_outcome(cert, policy) is Err ==> leaf_outcome(cert, policy)->Err_0 is Certificate,
{
    let usages = eku_oids(cert.extended_key_usages);
    let expected = policy.expected_eku_oids;
    if let Some(san) = policy.expected_san {
        lemma_carries_name(cert.alternative_names, san);
    }
    lemma_first_missing(expected, usages);
    if first_missing(expected, usages) is None {
        assert forall|oid: Seq<char>| expected.contains(oid) implies #[trigger] usages.contains(
            oid,
        ) by {
            let i = choose|i: int| 0 <= i < expected.len() && expected[i] == oid;
            assert(usages.contains(expected[i]));
        }
    } else {
        let i = choose|i: int| 0 <= i < expected.len() && !usages.contains(#[trigger] expected[i]);
        assert(expected.contains(expected[i]));
    }
    let names = cert.subject.common_names;
    if has_common_name(cert.subject, policy.expected_identity) {
        let i = choose|i: int|
            0 <= i < names.len() && #[trigger] names[i] is Some && same_ignoring_case(
                names[i]->Some_0,
                policy.expected_identity,
            );
        assert(lower(names[i]->Some_0) == lower(policy.expected_identity));
    }
    if exists|i: int|
        0 <= i < names.len() && #[trigger] names[i] is Some && lower(names[i]->Some_0) == lower(
            policy.expected_identity,
        ) {
        let i = choose|i: int|
            0 <= i < names.len() && #[trigger] names[i] is Some && lower(names[i]->Some_0)
                == lower(policy.expected_identity);
        assert(same_ignoring_case(names[i]->Some_0, policy.expected_identity));
    }
}

/// A signed certificate is accepted exactly where request and certificate can
/// be read, it is valid now, it is for the key of the request, a chain leads to
/// a trusted root, and its names and usages fit; it is then shown by its own
/// thumbprint, subject and end, with the certificates of the chain.
pub proof fn law_signed_certificates_are_accepted_when_all_fits(
    csr_pem: Seq<char>,
    certificate_pem: Seq<char>,
    chain_pems: Seq<Seq<char>>,
    policy: PolicyView,
    currently_valid: bool,
)
    ensures
        ({
            let outcome = issued_outcome(
                csr_pem,
                certificate_pem,
                chain_pems,
                policy,
                currently_valid,
            );
            let csr = parsed_pem(csr_pem)->Some_0.contents;
            let der = parsed_pem(certificate_pem)->Some_0.contents;
            let cert = certificate(der)->Some_0;
            let chain = chain_outcome(
                certificate_bytes(der)->Some_0,
                chain_pems,
                policy.trusted_root_fingerprints,
            );
            &&& outcome is Ok <==> {
                &&& parsed_pem(csr_pem) is Some
                &&& parsed_pem(certificate_pem) is Some
                &&& request_public_key(csr) is Some
                &&& certificate_bytes(der) is Some
                &&& currently_valid
                &&& request_public_key(csr)->Some_0 == crate::x509::certificate_public_key(
                    der,
                )->Some_0
                &&& chain is Ok
                &&& leaf_outcome(cert, policy) is Ok
            }
            &&& outcome matches Ok((issued, between)) ==> {
                &&& issued.thumbprint == crate::encoding::hex(sha1_digest(der))
                &&& issued.subject == cert.subject.text
                &&& issued.not_after == cert.not_after
                &&& issued.warnings.len() == 0
                &&& between == chain->Ok_0
            }
            &&& outcome is Err ==> outcome->Err_0 is Certificate
        }),
{
    if parsed_pem(certificate_pem) is Some {
        let der = parsed_pem(certificate_pem)->Some_0.contents;
        if let Some(cert) = certificate(der) {
            law_names_and_usages_decide(cert, policy);
            lemma_chain_errors(cert.raw, chain_pems, policy.trusted_root_fingerprints);
        }
    }
}

proof fn lemma_climb_errors(
    child: Seq<u8>,
    entries: Seq<crate::chain::EntryView>,
    used: Seq<bool>,
    between: Seq<Seq<char>>,
    steps: nat,
)
    ensures
        crate::chain::climb(child, entries, used, between, steps) matches Err(e)
            ==> e is Certificate,
    decreases steps,
{
    if steps > 0 && certificate(child) is Some {
        if let Some(i) = crate::chain::first_parent(child, entries, used) {
            lemma_climb_errors(
                entries[i].der,
                entries,
                used.update(i, true),
                between.push(entries[i].pem),
                (steps - 1) as nat,
            );
        }
    }
}

proof fn lemma_chain_errors(
    leaf: Seq<u8>,
    chain_pems: Seq<Seq<char>>,
    fingerprints: Seq<Seq<char>>,
)
    ensures
        chain_outcome(leaf, chain_pems, fingerprints) matches Err(e) ==> e is Certificate,
{
    let entries = crate::chain::chain_entries(chain_pems, fingerprints);
    lemma_climb_errors(
        leaf,
        entries,
        Seq::new(entries.len(), |i: int| false),
        Seq::empty(),
        entries.len() + 1,
    );
}

/// Of what is wrong with a signed certificate, the first is reported: what
/// cannot be read before the clock, the clock before the key, the key before the
/// chain, the chain before the names.
pub proof fn law_the_first_fault_is_reported(
    csr_pem: Seq<char>,
    certificate_pem: Seq<char>,
    chain_pems: Seq<Seq<char>>,
    policy: PolicyView,
    currently_valid: bool,
)
    requires
        parsed_pem(csr_pem) is Some,
        request_public_key(parsed_pem(csr_pem)->Some_0.contents) is Some,
        parsed_pem(certificate_pem) is Some,
        certificate_bytes(parsed_pem(certificate_pem)->Some_0.contents) is Some,
    ensures
        ({
            let outcome = issued_outcome(
                csr_pem,
                certificate_pem,
                chain_pems,
                policy,
                currently_valid,
            );
            let der = parsed_pem(certificate_pem)->Some_0.contents;
            let same_key = request_public_key(parsed_pem(csr_pem)->Some_0.contents)->Some_0
                == crate::x509::certificate_public_key(der)->Some_0;
            let chain = chain_outcome(
                certificate_bytes(der)->Some_0,
                chain_pems,
                policy.trusted_root_fingerprints,
            );
            &&& !currently_valid ==> outcome == Err::<(IssuedView, Seq<Seq<char>>), ErrorView>(
                ErrorView::Certificate(
                    "OpenBao returned a certificate that is not currently valid"@,
                ),
            )
            &&& currently_valid && !same_key ==> outcome == Err::<
                (IssuedView, Seq<Seq<char>>),
                ErrorView,
            >(
                ErrorView::Certificate(
                    "the signed certificate does not match the locally generated key"@,
                ),
            )
            &&& currently_valid && same_key && chain is Err ==> outcome == Err::<
                (IssuedView, Seq<Seq<char>>),
                ErrorView,
            >(chain->Err_0)
        }),
{
}

/// A certificate is valid at a moment exactly where it can be read and the
/// moment lies in its validity.
pub proof fn law_validity_is_the_certificates_own(certificate_pem: Seq<char>, now: int)
    ensures
        valid_pem_at(certificate_pem, now) <==> {
            &&& parsed_pem(certificate_pem) is Some
            &&& certificate_bytes(parsed_pem(certificate_pem)->Some_0.contents) is Some
            &&& certificate_valid_at(parsed_pem(certificate_pem)->Some_0.contents, now)
        },
{
}

proof fn lemma_all_names(lists: Seq<Option<Seq<AlternativeNameView>>>, name: AlternativeNameView)
    ensures
        all_names(lists).contains(name) <==> exists|i: int|
            0 <= i < lists.len() && #[trigger] lists[i] is Some && lists[i]->Some_0.contains(name),
    decreases lists.len(),
{
    if lists.len() > 0 {
        let rest = lists.drop_last();
        lemma_all_names(rest, name);
        assert(lists[lists.len() - 1] == lists.last());
        if all_names(rest).contains(name) {
            let i = choose|i: int|
                0 <= i < rest.len() && #[trigger] rest[i] is Some && rest[i]->Some_0.contains(name);
            assert(lists[i] == rest[i]);
            let j = choose|j: int| 0 <= j < all_names(rest).len() && all_names(rest)[j] == name;
            if lists.last() is Some {
                assert(all_names(lists)[j] == name);
            }
        }
        if let Some(names) = lists.last() {
            if names.contains(name) {
                let j = choose|j: int| 0 <= j < names.len() && names[j] == name;
                assert(all_names(lists)[all_names(rest).len() + j] == name);
            }
            if all_names(lists).contains(name) {
                let j = choose|j: int|
                    0 <= j < all_names(lists).len() && all_names(lists)[j] == name;
                if j < all_names(rest).len() {
                    assert(all_names(rest)[j] == name);
                } else {
                    assert(names[j - all_names(rest).len()] == name);
                }
            }
        }
        if exists|i: int|
            0 <= i < lists.len() && #[trigger] lists[i] is Some && lists[i]->Some_0.contains(name) {
            let i = choose|i: int|
                0 <= i < lists.len() && #[trigger] lists[i] is Some && lists[i]->Some_0.contains(
                    name,
                );
            if i < rest.len() {
                assert(rest[i] == lists[i]);
            }
        }
    }
}

proof fn lemma_kinds_of_names(names: Seq<AlternativeNameView>, text: Seq<char>)
    ensures
        dns_names(names).contains(text) <==> names.contains(AlternativeNameView::Dns(text)),
        email_names(names).contains(text) <==> names.contains(AlternativeNameView::Email(text)),
    decreases names.len(),
{
    if names.len() > 0 {
        let rest = names.drop_last();
        lemma_kinds_of_names(rest, text);
        let last = names.last();
        assert(names =~= rest.push(last));
        lemma_push_contains(rest, last, AlternativeNameView::Dns(text));
        lemma_push_contains(rest, last, AlternativeNameView::Email(text));
        match last {
            AlternativeNameView::Dns(own) => {
                lemma_push_contains(dns_names(rest), own, text);
            },
            AlternativeNameView::Email(own) => {
                lemma_push_contains(email_names(rest), own, text);
            },
            AlternativeNameView::Other => {},
        }
    }
}

proof fn lemma_push_contains<T>(s: Seq<T>, last: T, x: T)
    ensures
        s.push(last).contains(x) <==> s.contains(x) || last == x,
{
    if s.contains(x) {
        let i = choose|i: int| 0 <= i < s.len() && s[i] == x;
        assert(s.push(last)[i] == x);
    }
    assert(s.push(last)[s.len() as int] == last);
    if s.push(last).contains(x) {
        let i = choose|i: int| 0 <= i < s.push(last).len() && s.push(last)[i] == x;
        if i < s.len() {
            assert(s[i] == x);
        }
    }
}

proof fn lemma_first_text(texts: Seq<Option<Seq<char>>>, i: int)
    requires
        0 <= i < texts.len(),
        texts[i] is Some,
        forall|k: int| 0 <= k < i ==> #[trigger] texts[k] is None,
    ensures
        first_text(texts) == texts[i]->Some_0,
    decreases i,
{
    if i > 0 {
        assert(texts[0] is None);
        let rest = texts.drop_first();
        assert(rest[i - 1] == texts[i]);
        assert(forall|k: int| 0 <= k < i - 1 ==> #[trigger] rest[k] == texts[k + 1]);
        lemma_first_text(rest, i - 1);
    }
}

/// A certificate from a slot is shown as it is: by its own thumbprint and
/// serial number, with both names and both ends of its validity, the first
/// common name that is a text, every DNS name and email address and no other
/// name, and the usages that it lists.
pub proof fn law_slot_certificates_are_shown_as_they_are(
    certificate_pem: Seq<char>,
    has_private_key: bool,
    name: Seq<char>,
    i: int,
)
    ensures
        personal_outcome(certificate_pem, has_private_key) is Ok <==> parsed_pem(
            certificate_pem,
        ) is Some && certificate_bytes(parsed_pem(certificate_pem)->Some_0.contents) is Some,
        personal_outcome(certificate_pem, has_private_key) matches Ok(shown) ==> {
            let der = parsed_pem(certificate_pem)->Some_0.contents;
            let cert = certificate(der)->Some_0;
            let lists = cert.alternative_names;
            &&& shown.thumbprint == crate::encoding::hex(sha1_digest(der))
            &&& shown.serial_number == normal_serial(cert.serial)
            &&& shown.subject == cert.subject.text
            &&& shown.issuer == cert.issuer.text
            &&& shown.not_before == cert.not_before
            &&& shown.not_after == cert.not_after
            &&& shown.has_private_key == has_private_key
            &&& shown.eku_oids == eku_oids(cert.extended_key_usages)
            &&& shown.dns_names.contains(name) <==> exists|k: int|
                0 <= k < lists.len() && #[trigger] lists[k] is Some && lists[k]->Some_0.contains(
                    AlternativeNameView::Dns(name),
                )
            &&& shown.email_names.contains(name) <==> exists|k: int|
                0 <= k < lists.len() && #[trigger] lists[k] is Some && lists[k]->Some_0.contains(
                    AlternativeNameView::Email(name),
                )
            &&& 0 <= i < cert.subject.common_names.len() && cert.subject.common_names[i] is Some
                && (forall|k: int|
                0 <= k < i ==> #[trigger] cert.subject.common_names[k] is None)
                ==> shown.simple_name == cert.subject.common_names[i]->Some_0
        },
{
    if let Ok(shown) = personal_outcome(certificate_pem, has_private_key) {
        let cert = certificate(parsed_pem(certificate_pem)->Some_0.contents)->Some_0;
        let lists = cert.alternative_names;
        lemma_kinds_of_names(all_names(lists), name);
        lemma_all_names(lists, AlternativeNameView::Dns(name));
        lemma_all_names(lists, AlternativeNameView::Email(name));
        let names = cert.subject.common_names;
        if 0 <= i < names.len() && names[i] is Some && (forall|k: int|
            0 <= k < i ==> #[trigger] names[k] is None) {
            lemma_first_text(names, i);
        }
    }
}

/// A certificate that does not fit says why: the first of these that holds.
pub proof fn law_refused_certificates_say_why(cert: CertificateView, policy: PolicyView)
    ensures
        ({
            let outcome = leaf_outcome(cert, policy);
            let usages = eku_oids(cert.extended_key_usages);
            let named = exists|i: int|
                0 <= i < cert.subject.common_names.len()
                    && #[trigger] cert.subject.common_names[i] is Some && lower(
                    cert.subject.common_names[i]->Some_0,
                ) == lower(policy.expected_identity);
            let addressed = policy.expected_san matches Some(san) ==> carries_name(
                cert.alternative_names,
                san,
            );
            let used = forall|oid: Seq<char>|
                policy.expected_eku_oids.contains(oid) ==> #[trigger] usages.contains(oid);
            let signing = policy.expected_purpose == CertificatePurpose::DocumentSigning;
            &&& !named ==> outcome == Err::<(), ErrorView>(
                ErrorView::Certificate(
                    "the signed certificate identity does not match the authenticated user"@,
                ),
            )
            &&& named && !addressed ==> outcome == Err::<(), ErrorView>(
                ErrorView::Certificate(
                    "the signed certificate SAN does not match the authenticated user"@,
                ),
            )
            &&& named && addressed && !used ==> exists|oid: Seq<char>|
                policy.expected_eku_oids.contains(oid) && !#[trigger] usages.contains(oid)
                    && outcome == Err::<(), ErrorView>(
                    ErrorView::Certificate(
                        "the signed certificate is missing required EKU "@ + oid,
                    ),
                )
            &&& named && addressed && used && signing && usages.contains("1.3.6.1.5.5.7.3.2"@)
                ==> outcome == Err::<(), ErrorView>(
                ErrorView::Certificate(
                    "the signed certificate has the excluded EKU "@ + "1.3.6.1.5.5.7.3.2"@,
                ),
            )
            &&& named && addressed && used && signing && !usages.contains("1.3.6.1.5.5.7.3.2"@)
                && usages.contains("1.3.6.1.5.5.7.3.3"@) ==> outcome == Err::<(), ErrorView>(
                ErrorView::Certificate(
                    "the signed certificate has the excluded EKU "@ + "1.3.6.1.5.5.7.3.3"@,
                ),
            )
        }),
{
    law_names_and_usages_decide(cert, policy);
    lemma_first_missing_is_missing(
        policy.expected_eku_oids,
        eku_oids(cert.extended_key_usages),
    );
    law_names_are_carried(cert, policy);
}

proof fn lemma_first_missing_is_missing(expected: Seq<Seq<char>>, actual: Seq<Seq<char>>)
    ensures
        first_missing(expected, actual) matches Some(oid) ==> expected.contains(oid)
            && !actual.contains(oid),
        first_missing(expected, actual) is None ==> forall|oid: Seq<char>|
            expected.contains(oid) ==> #[trigger] actual.contains(oid),
    decreases expected.len(),
{
    if expected.len() > 0 {
        let rest = expected.drop_first();
        lemma_first_missing_is_missing(rest, actual);
        assert(expected.contains(expected[0]));
        assert forall|oid: Seq<char>| expected.contains(oid) implies oid == expected[0]
            || rest.contains(oid) by {
            let i = choose|i: int| 0 <= i < expected.len() && expected[i] == oid;
            if i > 0 {
                assert(rest[i - 1] == oid);
            }
        }
        assert forall|oid: Seq<char>| rest.contains(oid) implies expected.contains(oid) by {
            let i = choose|i: int| 0 <= i < rest.len() && rest[i] == oid;
            assert(expected[i + 1] == oid);
        }
    }
}

/// A certificate has a name where one of its common names is that name in
/// whatever case, and an alternative name where it carries it.
pub proof fn law_names_are_carried(cert: CertificateView, policy: PolicyView)
    ensures
        has_common_name(cert.subject, policy.expected_identity) <==> exists|i: int|
            0 <= i < cert.subject.common_names.len()
                && #[trigger] cert.subject.common_names[i] is Some && lower(
                cert.subject.common_names[i]->Some_0,
            ) == lower(policy.expected_identity),
        policy.expected_san matches Some(san) ==> (has_alternative_name(cert.alternative_names, san)
            <==> carries_name(cert.alternative_names, san)),
{
    let plain = PolicyView {
        expected_san: None,
        expected_eku_oids: Seq::empty(),
        expected_purpose: CertificatePurpose::Mtls,
        ..policy
    };
    law_names_and_usages_decide(cert, plain);
    law_names_and_usages_decide(
        cert,
        PolicyView { expected_san: policy.expected_san, ..plain },
    );
}

/// What cannot be read is refused before anything else, and says which it is.
pub proof fn law_unreadable_texts_are_refused(
    csr_pem: Seq<char>,
    certificate_pem: Seq<char>,
    chain_pems: Seq<Seq<char>>,
    policy: PolicyView,
    currently_valid: bool,
    has_private_key: bool,
)
    ensures
        ({
            let outcome = issued_outcome(
                csr_pem,
                certificate_pem,
                chain_pems,
                policy,
                currently_valid,
            );
            let csr = parsed_pem(csr_pem);
            let keyed = csr is Some && request_public_key(csr->Some_0.contents) is Some;
            let block = parsed_pem(certificate_pem);
            &&& csr is None ==> outcome->Err_0 == ErrorView::Certificate(
                "Windows returned an invalid CSR PEM"@,
            )
            &&& csr is Some && !keyed ==> outcome->Err_0 == ErrorView::Certificate(
                "generated CSR could not be parsed"@,
            )
            &&& keyed && block is None ==> outcome->Err_0 == ErrorView::Certificate(
                "OpenBao returned an invalid certificate PEM"@,
            )
            &&& keyed && block is Some && certificate(block->Some_0.contents) is None
                ==> outcome->Err_0 == ErrorView::Certificate(
                "OpenBao returned an invalid X.509 certificate"@,
            )
            &&& !keyed || block is None || certificate(block->Some_0.contents) is None
                ==> outcome is Err
            &&& block is None ==> personal_outcome(certificate_pem, has_private_key) == Err::<
                PersonalView,
                ErrorView,
            >(ErrorView::Certificate("YubiKey returned an invalid certificate PEM"@))
            &&& block is Some && certificate(block->Some_0.contents) is None ==> personal_outcome(
                certificate_pem,
                has_private_key,
            ) == Err::<PersonalView, ErrorView>(
                ErrorView::Certificate("YubiKey returned an invalid X.509 certificate"@),
            )
        }),
{
}

/// A key usage that does not fit is told from one that is missing; a name that
/// does not fit is refused.
pub proof fn law_missing_usages_are_told_from_wrong_ones(
    usages: Seq<Option<KeyUsage>>,
    purpose: CertificatePurpose,
    name: Seq<char>,
)
    ensures
        first_usage(usages) is None ==> key_usage_outcome(usages, purpose) == Err::<(), ErrorView>(
            ErrorView::Certificate("the signed certificate is missing Key Usage"@),
        ),
        first_usage(usages) is Some && key_usage_outcome(usages, purpose) is Err
            ==> key_usage_outcome(usages, purpose)->Err_0 == ErrorView::Certificate(
            "the signed certificate has the wrong Key Usage for "@ + purpose.label_text(),
        ),
        identity_outcome(name) is Err ==> identity_outcome(name)->Err_0 == ErrorView::Certificate(
            "the mapped certificate identity is invalid"@,
        ),
{
}

} // verus!
