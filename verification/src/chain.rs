//! The path from a signed certificate up to a trusted root.

use vstd::prelude::*;

use crate::encoding::{
    fingerprint_of, hex, parse_pem, parsed_pem, rewrite_pem, rewritten_pem, sha256_digest,
    sha256_fingerprint, view_block, PemBlock, PemView,
};
use crate::error::{certificate_error, outcome, AppResult, ErrorView};
use crate::text::{eq_ignoring_case, lower, same_ignoring_case, text_eq, view_all, view_option};
use crate::x509::{
    certificate, certificate_bytes, certificate_issuer, certificate_signature,
    certificate_subject, read_certificate, same_bytes, signature_verifies, Certificate,
};

verus! {

/// A certificate that may stand above another one.
pub struct ChainEntry {
    pub pem: String,
    pub der: Vec<u8>,
    pub trusted_root: bool,
}

#[verifier::ext_equal]
pub struct EntryView {
    pub pem: Seq<char>,
    pub der: Seq<u8>,
    pub trusted_root: bool,
}

impl View for ChainEntry {
    type V = EntryView;

    open spec fn view(&self) -> EntryView {
        EntryView { pem: self.pem@, der: self.der@, trusted_root: self.trusted_root }
    }
}

pub open spec fn view_entries(entries: Seq<ChainEntry>) -> Seq<EntryView> {
    Seq::new(entries.len(), |i: int| entries[i]@)
}

/// The fingerprint is one of those in the list, in whatever case.
pub open spec fn is_listed(fingerprint: Seq<char>, fingerprints: Seq<Seq<char>>) -> bool {
    exists|i: int|
        0 <= i < fingerprints.len() && same_ignoring_case(
            #[trigger] fingerprints[i],
            fingerprint,
        )
}

/// The fingerprint of the bytes is one of those that are trusted.
pub open spec fn is_trusted(der: Seq<u8>, fingerprints: Seq<Seq<char>>) -> bool {
    is_listed(sha256_fingerprint(der), fingerprints)
}

/// The entry for a text that holds `block`, reads `pem` when it is written out
/// again, and has the fingerprint: there is one for a certificate only.
pub open spec fn entry_for(
    block: Option<PemView>,
    pem: Option<Seq<char>>,
    fingerprint: Seq<char>,
    fingerprints: Seq<Seq<char>>,
) -> Option<EntryView> {
    match (block, pem) {
        (Some(block), Some(pem)) => if block.tag == "CERTIFICATE"@ {
            Some(
                EntryView {
                    pem,
                    der: block.contents,
                    trusted_root: is_listed(fingerprint, fingerprints),
                },
            )
        } else {
            None
        },
        _ => None,
    }
}

/// The certificates among the texts, in their order.
pub open spec fn chain_entries(pems: Seq<Seq<char>>, fingerprints: Seq<Seq<char>>) -> Seq<EntryView>
    decreases pems.len(),
{
    if pems.len() == 0 {
        Seq::empty()
    } else {
        let before = chain_entries(pems.drop_last(), fingerprints);
        let block = parsed_pem(pems.last());
        match entry_for(
            block,
            rewritten_pem(pems.last()),
            sha256_fingerprint(block->Some_0.contents),
            fingerprints,
        ) {
            Some(entry) => before.push(entry),
            None => before,
        }
    }
}

/// The second certificate signed the first: it is what the first names as its
/// issuer, and the signature verifies under its key.
pub open spec fn is_parent(child: Seq<u8>, parent: Seq<u8>) -> bool {
    &&& certificate(child) is Some
    &&& certificate(parent) is Some
    &&& certificate(child)->Some_0.issuer.raw == certificate(parent)->Some_0.subject.raw
    &&& certificate_signature(child, Some(parent))
}

/// The certificate names itself as its issuer.
pub open spec fn is_self_issued(der: Seq<u8>) -> bool {
    certificate(der) is Some && certificate(der)->Some_0.is_self_issued()
}

/// Which of the entries signed the certificate.
pub open spec fn signers(child: Seq<u8>, entries: Seq<EntryView>) -> Seq<bool> {
    Seq::new(entries.len(), |i: int| is_parent(child, entries[i].der))
}

/// The first signer at or after `from` that was not used yet.
pub open spec fn first_unused(signed: Seq<bool>, used: Seq<bool>, from: int) -> Option<int>
    decreases signed.len() - from,
{
    if from < 0 || from >= signed.len() {
        None
    } else if signed[from] && !used[from] {
        Some(from)
    } else {
        first_unused(signed, used, from + 1)
    }
}

/// The first entry that signed the certificate and was not used yet.
pub open spec fn first_parent(child: Seq<u8>, entries: Seq<EntryView>, used: Seq<bool>) -> Option<
    int,
> {
    first_unused(signers(child, entries), used, 0)
}

/// What a signer means for the climb: it ends at one that names itself as its
/// issuer, well where that one is trusted and signed itself.
pub open spec fn ending(self_issued: bool, trusted_root: bool, self_signed: bool) -> Option<
    Result<(), ErrorView>,
> {
    if !self_issued {
        None
    } else if trusted_root && self_signed {
        Some(Ok(()))
    } else {
        Some(
            Err(
                ErrorView::Certificate("the signed certificate chain ends at an untrusted root"@),
            ),
        )
    }
}

pub open spec fn chain_error(message: Seq<char>) -> Result<Seq<Seq<char>>, ErrorView> {
    Err(ErrorView::Certificate(message))
}

/// The climb from a certificate to the first self-issued one above it, with
/// the certificates in between.
pub open spec fn climb(
    child: Seq<u8>,
    entries: Seq<EntryView>,
    used: Seq<bool>,
    between: Seq<Seq<char>>,
    steps: nat,
) -> Result<Seq<Seq<char>>, ErrorView>
    decreases steps,
{
    if steps == 0 {
        chain_error("the signed certificate chain contains a loop"@)
    } else if certificate(child) is None {
        chain_error("certificate chain could not be parsed"@)
    } else {
        match first_parent(child, entries, used) {
            None => chain_error("the signed certificate does not chain to an embedded root"@),
            Some(i) => match ending(
                is_self_issued(entries[i].der),
                entries[i].trusted_root,
                certificate_signature(entries[i].der, None),
            ) {
                Some(Ok(())) => Ok(between),
                Some(Err(e)) => Err(e),
                None => climb(
                    entries[i].der,
                    entries,
                    used.update(i, true),
                    between.push(entries[i].pem),
                    (steps - 1) as nat,
                ),
            },
        }
    }
}

/// The certificates between the leaf and a trusted root, or why there is no
/// such path.
pub open spec fn chain_outcome(
    leaf: Seq<u8>,
    pems: Seq<Seq<char>>,
    fingerprints: Seq<Seq<char>>,
) -> Result<Seq<Seq<char>>, ErrorView> {
    let entries = chain_entries(pems, fingerprints);
    climb(
        leaf,
        entries,
        Seq::new(entries.len(), |i: int| false),
        Seq::empty(),
        entries.len() + 1,
    )
}

// ---------------------------------------------------------------------------
// What an accepted chain is
// ---------------------------------------------------------------------------

/// Both read as certificates, the first names the second's subject as its
/// issuer, and its signature verifies under the second's key.
pub open spec fn signed_by(child: Seq<u8>, parent: Seq<u8>) -> bool {
    &&& certificate_bytes(child) is Some
    &&& certificate_bytes(parent) is Some
    &&& certificate_issuer(child)->Some_0.raw == certificate_subject(parent)->Some_0.raw
    &&& certificate_signature(child, Some(parent))
}

/// A certificate whose subject and issuer are the same name.
pub open spec fn names_itself(der: Seq<u8>) -> bool {
    certificate_bytes(der) is Some && certificate_subject(der)->Some_0.raw == certificate_issuer(
        der,
    )->Some_0.raw
}

/// Different entries, each of which signed the one before it, and the first of
/// which signed the certificate.
pub open spec fn is_path(child: Seq<u8>, entries: Seq<EntryView>, path: Seq<int>) -> bool {
    &&& path.len() > 0
    &&& forall|k: int| 0 <= k < path.len() ==> 0 <= #[trigger] path[k] < entries.len()
    &&& forall|k: int, l: int|
        0 <= k < l < path.len() ==> #[trigger] path[k] != #[trigger] path[l]
    &&& signed_by(child, entries[path[0]].der)
    &&& forall|k: int|
        0 < k < path.len() ==> signed_by(entries[path[k - 1]].der, entries[#[trigger] path[k]].der)
}

/// A trusted root that signed itself.
pub open spec fn is_anchor(entry: EntryView) -> bool {
    entry.trusted_root && names_itself(entry.der) && certificate_signature(entry.der, None)
}

/// The path ends at a trusted root, and the texts are those of the
/// certificates below it.
pub open spec fn is_anchored_path(
    child: Seq<u8>,
    entries: Seq<EntryView>,
    path: Seq<int>,
    between: Seq<Seq<char>>,
) -> bool {
    &&& is_path(child, entries, path)
    &&& is_anchor(entries[path.last()])
    &&& between.len() == path.len() - 1
    &&& forall|k: int| 0 <= k < between.len() ==> #[trigger] between[k] == entries[path[k]].pem
}

proof fn lemma_first_unused(signed: Seq<bool>, used: Seq<bool>, from: int)
    requires
        0 <= from,
    ensures
        first_unused(signed, used, from) matches Some(i) ==> {
            &&& from <= i < signed.len()
            &&& signed[i]
            &&& !used[i]
        },
    decreases signed.len() - from,
{
    if from < signed.len() && !(signed[from] && !used[from]) {
        lemma_first_unused(signed, used, from + 1);
    }
}

proof fn lemma_climb(
    child: Seq<u8>,
    entries: Seq<EntryView>,
    used: Seq<bool>,
    between: Seq<Seq<char>>,
    steps: nat,
) -> (path: Seq<int>)
    requires
        used.len() == entries.len(),
        climb(child, entries, used, between, steps) is Ok,
    ensures
        ({
            let found = climb(child, entries, used, between, steps)->Ok_0;
            &&& between.len() <= found.len()
            &&& found.take(between.len() as int) == between
            &&& is_anchored_path(child, entries, path, found.skip(between.len() as int))
        }),
        forall|k: int| 0 <= k < path.len() ==> !used[#[trigger] path[k]],
    decreases steps,
{
    lemma_first_unused(signers(child, entries), used, 0);
    let i = first_parent(child, entries, used)->Some_0;
    let found = climb(child, entries, used, between, steps)->Ok_0;
    if is_self_issued(entries[i].der) {
        let path = seq![i];
        assert(found.take(between.len() as int) =~= between);
        assert(found.skip(between.len() as int).len() == 0);
        path
    } else {
        let next_between = between.push(entries[i].pem);
        let rest = lemma_climb(
            entries[i].der,
            entries,
            used.update(i, true),
            next_between,
            (steps - 1) as nat,
        );
        let rest_tail = found.skip(next_between.len() as int);
        assert(found.take(between.len() as int) =~= found.take(
            next_between.len() as int,
        ).drop_last());
        assert(next_between.drop_last() =~= between);
        assert(found[between.len() as int] == found.take(
            next_between.len() as int,
        )[between.len() as int]);
        assert(found.skip(between.len() as int) =~= seq![entries[i].pem] + rest_tail);
        assert forall|k: int| 0 <= k < rest.len() implies #[trigger] rest[k] != i
            && !used[rest[k]] by {
            assert(!used.update(i, true)[rest[k]]);
        }
        lemma_longer_path(child, entries, i, rest, rest_tail);
        seq![i] + rest
    }
}

proof fn lemma_longer_path(
    child: Seq<u8>,
    entries: Seq<EntryView>,
    i: int,
    rest: Seq<int>,
    between: Seq<Seq<char>>,
)
    requires
        0 <= i < entries.len(),
        signed_by(child, entries[i].der),
        is_anchored_path(entries[i].der, entries, rest, between),
        forall|k: int| 0 <= k < rest.len() ==> #[trigger] rest[k] != i,
    ensures
        is_anchored_path(child, entries, seq![i] + rest, seq![entries[i].pem] + between),
{
    let path = seq![i] + rest;
    let texts = seq![entries[i].pem] + between;
    assert forall|k: int, l: int| 0 <= k < l < path.len() implies #[trigger] path[k]
        != #[trigger] path[l] by {
        assert(path[l] == rest[l - 1]);
        if k > 0 {
            assert(path[k] == rest[k - 1]);
        }
    }
    assert forall|k: int| 0 < k < path.len() implies signed_by(
        entries[path[k - 1]].der,
        entries[#[trigger] path[k]].der,
    ) by {
        assert(path[k] == rest[k - 1]);
        if k > 1 {
            assert(path[k - 1] == rest[k - 2]);
        }
    }
    assert forall|k: int| 0 <= k < texts.len() implies #[trigger] texts[k]
        == entries[path[k]].pem by {
        if k > 0 {
            assert(texts[k] == between[k - 1]);
            assert(path[k] == rest[k - 1]);
        }
    }
    assert(path.last() == rest.last());
}

/// A chain is accepted only where different certificates lead from the leaf,
/// signature by signature, to a root that is trusted and signed itself; what
/// comes back are the certificates in between, in their order.
pub proof fn law_accepted_chains_end_at_a_trusted_root(
    leaf: Seq<u8>,
    pems: Seq<Seq<char>>,
    fingerprints: Seq<Seq<char>>,
)
    requires
        chain_outcome(leaf, pems, fingerprints) is Ok,
    ensures
        exists|path: Seq<int>| #[trigger]
            is_anchored_path(
                leaf,
                chain_entries(pems, fingerprints),
                path,
                chain_outcome(leaf, pems, fingerprints)->Ok_0,
            ),
{
    let entries = chain_entries(pems, fingerprints);
    let used = Seq::new(entries.len(), |i: int| false);
    let path = lemma_climb(leaf, entries, used, Seq::empty(), entries.len() + 1);
    let found = chain_outcome(leaf, pems, fingerprints)->Ok_0;
    assert(found.skip(0) =~= found);
    assert(is_anchored_path(leaf, entries, path, found));
}

/// The text holds the certificate of the entry.
pub open spec fn holds_entry(pem: Seq<char>, entry: EntryView) -> bool {
    &&& parsed_pem(pem) matches Some(block) && block.tag == "CERTIFICATE"@ && block.contents
        == entry.der
    &&& rewritten_pem(pem) == Some(entry.pem)
}

/// Every entry comes from one of the texts, and is trusted exactly where its
/// own fingerprint is.
pub proof fn law_trust_is_by_fingerprint(
    pems: Seq<Seq<char>>,
    fingerprints: Seq<Seq<char>>,
    i: int,
)
    requires
        0 <= i < chain_entries(pems, fingerprints).len(),
    ensures
        exists|j: int|
            0 <= j < pems.len() && holds_entry(
                #[trigger] pems[j],
                chain_entries(pems, fingerprints)[i],
            ),
        chain_entries(pems, fingerprints)[i].trusted_root <==> exists|k: int|
            0 <= k < fingerprints.len() && lower(#[trigger] fingerprints[k]) == lower(
                hex(sha256_digest(chain_entries(pems, fingerprints)[i].der)),
            ),
    decreases pems.len(),
{
    let before = pems.drop_last();
    if i < chain_entries(before, fingerprints).len() {
        law_trust_is_by_fingerprint(before, fingerprints, i);
        let j = choose|j: int|
            0 <= j < before.len() && holds_entry(
                #[trigger] before[j],
                chain_entries(before, fingerprints)[i],
            );
        assert(holds_entry(pems[j], chain_entries(pems, fingerprints)[i]));
    } else {
        let entry = chain_entries(pems, fingerprints)[i];
        assert(holds_entry(pems[pems.len() - 1], entry));
        let print = hex(sha256_digest(entry.der));
        if entry.trusted_root {
            let k = choose|k: int|
                0 <= k < fingerprints.len() && same_ignoring_case(
                    #[trigger] fingerprints[k],
                    print,
                );
            assert(lower(fingerprints[k]) == lower(print));
        }
        if exists|k: int|
            0 <= k < fingerprints.len() && lower(#[trigger] fingerprints[k]) == lower(print) {
            let k = choose|k: int|
                0 <= k < fingerprints.len() && lower(#[trigger] fingerprints[k]) == lower(print);
            assert(same_ignoring_case(fingerprints[k], print));
        }
    }
}

/// Every text that holds a certificate is a candidate, in the order of the
/// texts, with the certificate's own bytes; a text that holds anything else, or
/// nothing, changes nothing.
pub proof fn law_every_certificate_is_a_candidate(
    pems: Seq<Seq<char>>,
    fingerprints: Seq<Seq<char>>,
    pem: Seq<char>,
)
    ensures
        ({
            let before = chain_entries(pems, fingerprints);
            let after = chain_entries(pems.push(pem), fingerprints);
            &&& parsed_pem(pem) is Some && rewritten_pem(pem) is Some && parsed_pem(pem)->Some_0.tag
                == "CERTIFICATE"@ ==> {
                &&& after.len() == before.len() + 1
                &&& after.drop_last() == before
                &&& after.last().der == parsed_pem(pem)->Some_0.contents
                &&& after.last().pem == rewritten_pem(pem)->Some_0
            }
            &&& parsed_pem(pem) is None || parsed_pem(pem)->Some_0.tag != "CERTIFICATE"@ ==> after
                == before
        }),
        chain_entries(Seq::empty(), fingerprints).len() == 0,
{
    assert(pems.push(pem).drop_last() =~= pems);
    let before = chain_entries(pems, fingerprints);
    let after = chain_entries(pems.push(pem), fingerprints);
    if after.len() == before.len() + 1 {
        assert(after.drop_last() =~= before);
    }
}

/// The certificate that the climb stands at after `n` entries of the path.
pub open spec fn climbed_to(
    leaf: Seq<u8>,
    entries: Seq<EntryView>,
    path: Seq<int>,
    n: int,
) -> Seq<u8> {
    if n <= 0 {
        leaf
    } else {
        entries[path[n - 1]].der
    }
}

/// Of the entries that signed the certificate at step `k` and do not stand
/// earlier in the path, the path takes the first.
pub open spec fn takes_first_signer(
    leaf: Seq<u8>,
    entries: Seq<EntryView>,
    path: Seq<int>,
    k: int,
) -> bool {
    &&& 0 <= path[k] < entries.len()
    &&& signed_by(climbed_to(leaf, entries, path, k), entries[path[k]].der)
    &&& !path.take(k).contains(path[k])
    &&& forall|j: int|
        0 <= j < path[k] && signed_by(
            climbed_to(leaf, entries, path, k),
            #[trigger] entries[j].der,
        ) ==> path.take(k).contains(j)
}

/// The first `n` entries of the path lead upwards, each the first signer that
/// there is, and none of them names itself as its issuer.
pub open spec fn leads_upwards(
    leaf: Seq<u8>,
    entries: Seq<EntryView>,
    path: Seq<int>,
    n: int,
) -> bool {
    forall|k: int|
        0 <= k < n ==> takes_first_signer(leaf, entries, path, k) && !names_itself(
            entries[#[trigger] path[k]].der,
        )
}

proof fn lemma_first_is(signed: Seq<bool>, used: Seq<bool>, from: int, i: int)
    requires
        0 <= from <= i < signed.len(),
        signed[i],
        !used[i],
        forall|j: int| from <= j < i ==> !(#[trigger] signed[j] && !used[j]),
    ensures
        first_unused(signed, used, from) == Some(i),
    decreases i - from,
{
    if from < i {
        assert(!(signed[from] && !used[from]));
        lemma_first_is(signed, used, from + 1, i);
    }
}

spec fn used_by(entries: Seq<EntryView>, path: Seq<int>, n: int) -> Seq<bool> {
    Seq::new(entries.len(), |j: int| path.take(n).contains(j))
}

proof fn lemma_takes_first(leaf: Seq<u8>, entries: Seq<EntryView>, path: Seq<int>, k: int)
    requires
        0 <= k < path.len(),
        takes_first_signer(leaf, entries, path, k),
    ensures
        first_parent(
            climbed_to(leaf, entries, path, k),
            entries,
            used_by(entries, path, k),
        ) == Some(path[k]),
{
    let child = climbed_to(leaf, entries, path, k);
    let signed = signers(child, entries);
    let used = used_by(entries, path, k);
    assert forall|j: int| 0 <= j < path[k] implies !(#[trigger] signed[j] && !used[j]) by {
        if signed[j] {
            assert(signed_by(child, entries[j].der));
        }
    }
    lemma_first_is(signed, used, 0, path[k]);
}

proof fn lemma_climb_follows(
    leaf: Seq<u8>,
    entries: Seq<EntryView>,
    path: Seq<int>,
    n: int,
    steps: nat,
)
    requires
        0 <= n <= path.len(),
        n <= steps,
        leads_upwards(leaf, entries, path, n),
    ensures
        climb(leaf, entries, used_by(entries, path, 0), Seq::empty(), steps) == climb(
            climbed_to(leaf, entries, path, n),
            entries,
            used_by(entries, path, n),
            Seq::new(n as nat, |k: int| entries[path[k]].pem),
            (steps - n) as nat,
        ),
    decreases n,
{
    let texts = Seq::new(n as nat, |k: int| entries[path[k]].pem);
    if n == 0 {
        assert(texts =~= Seq::empty());
    } else {
        let m = n - 1;
        lemma_climb_follows(leaf, entries, path, m, steps);
        assert(takes_first_signer(leaf, entries, path, m) && !names_itself(
            entries[path[m]].der,
        ));
        lemma_takes_first(leaf, entries, path, m);
        assert(used_by(entries, path, n) =~= used_by(entries, path, m).update(path[m], true)) by {
            assert(path.take(n) =~= path.take(m).push(path[m]));
            assert forall|j: int| 0 <= j < entries.len() implies used_by(entries, path, n)[j]
                == used_by(entries, path, m).update(path[m], true)[j] by {
                if path.take(m).contains(j) {
                    let l = choose|l: int| 0 <= l < m && path.take(m)[l] == j;
                    assert(path.take(n)[l] == j);
                }
                if path.take(n).contains(j) && j != path[m] {
                    let l = choose|l: int| 0 <= l < n && path.take(n)[l] == j;
                    assert(path.take(m)[l] == j);
                }
                if j == path[m] {
                    assert(path.take(n)[m] == j);
                }
            }
        }
        assert(texts =~= Seq::new(m as nat, |k: int| entries[path[k]].pem).push(
            entries[path[m]].pem,
        ));
    }
}

proof fn lemma_path_is_short(entries: Seq<EntryView>, path: Seq<int>, n: int)
    requires
        0 <= n <= path.len(),
        forall|k: int|
            0 <= k < n ==> 0 <= #[trigger] path[k] < entries.len() && !path.take(k).contains(
                path[k],
            ),
    ensures
        n <= entries.len(),
{
    let taken = path.take(n);
    assert(taken.no_duplicates()) by {
        assert forall|k: int, l: int| 0 <= k < l < n implies taken[k] != taken[l] by {
            if taken[k] == taken[l] {
                assert(path.take(l)[k] == path[l]);
            }
        }
    }
    taken.unique_seq_to_set();
    vstd::set_lib::lemma_int_range(0, entries.len() as int);
    assert(taken.to_set().subset_of(vstd::set_lib::set_int_range(0, entries.len() as int)));
    vstd::set_lib::lemma_len_subset(
        taken.to_set(),
        vstd::set_lib::set_int_range(0, entries.len() as int),
    );
}

/// The climb goes on for as long as it takes: where certificates lead upwards
/// from the leaf, however many, to one that names itself as its issuer, the
/// chain is accepted exactly where that one is trusted and signed itself, and
/// what comes back are all the certificates below it, in their order.
pub proof fn law_chains_of_any_length_are_climbed(
    leaf: Seq<u8>,
    pems: Seq<Seq<char>>,
    fingerprints: Seq<Seq<char>>,
    path: Seq<int>,
)
    requires
        path.len() > 0,
        leads_upwards(leaf, chain_entries(pems, fingerprints), path, path.len() - 1),
        takes_first_signer(leaf, chain_entries(pems, fingerprints), path, path.len() - 1),
        names_itself(chain_entries(pems, fingerprints)[path.last()].der),
    ensures
        ({
            let entries = chain_entries(pems, fingerprints);
            let top = entries[path.last()];
            chain_outcome(leaf, pems, fingerprints) == (if top.trusted_root
                && certificate_signature(top.der, None) {
                Ok::<Seq<Seq<char>>, ErrorView>(
                    Seq::new((path.len() - 1) as nat, |k: int| entries[path[k]].pem),
                )
            } else {
                Err::<Seq<Seq<char>>, ErrorView>(
                    ErrorView::Certificate(
                        "the signed certificate chain ends at an untrusted root"@,
                    ),
                )
            })
        }),
{
    let entries = chain_entries(pems, fingerprints);
    let n = path.len() - 1;
    assert forall|k: int| 0 <= k < path.len() implies 0 <= #[trigger] path[k] < entries.len()
        && !path.take(k).contains(path[k]) by {
        if k < n {
            assert(takes_first_signer(leaf, entries, path, k));
        }
    }
    lemma_path_is_short(entries, path, path.len() as int);
    lemma_climb_follows(leaf, entries, path, n, entries.len() + 1);
    lemma_takes_first(leaf, entries, path, n);
    assert(used_by(entries, path, 0) =~= Seq::new(entries.len(), |i: int| false));
}

/// Where the certificates that lead upwards from the leaf come to one that no
/// other entry signed, the chain is refused.
pub proof fn law_dead_ends_are_refused(
    leaf: Seq<u8>,
    pems: Seq<Seq<char>>,
    fingerprints: Seq<Seq<char>>,
    path: Seq<int>,
)
    requires
        certificate_bytes(leaf) is Some,
        leads_upwards(leaf, chain_entries(pems, fingerprints), path, path.len() as int),
        forall|j: int|
            0 <= j < chain_entries(pems, fingerprints).len() && signed_by(
                climbed_to(
                    leaf,
                    chain_entries(pems, fingerprints),
                    path,
                    path.len() as int,
                ),
                #[trigger] chain_entries(pems, fingerprints)[j].der,
            ) ==> path.contains(j),
    ensures
        chain_outcome(leaf, pems, fingerprints) == Err::<Seq<Seq<char>>, ErrorView>(
            ErrorView::Certificate(
                "the signed certificate does not chain to an embedded root"@,
            ),
        ),
{
    let entries = chain_entries(pems, fingerprints);
    let n = path.len() as int;
    let child = climbed_to(leaf, entries, path, n);
    assert forall|k: int| 0 <= k < path.len() implies 0 <= #[trigger] path[k] < entries.len()
        && !path.take(k).contains(path[k]) by {
        assert(takes_first_signer(leaf, entries, path, k));
    }
    if n > 0 {
        assert(takes_first_signer(leaf, entries, path, n - 1) && !names_itself(
            entries[path[n - 1]].der,
        ));
    }
    lemma_path_is_short(entries, path, n);
    lemma_climb_follows(leaf, entries, path, n, entries.len() + 1);
    assert(used_by(entries, path, 0) =~= Seq::new(entries.len(), |i: int| false));
    assert(path.take(n) =~= path);
    let used = used_by(entries, path, n);
    lemma_first_unused(signers(child, entries), used, 0);
    if let Some(i) = first_parent(child, entries, used) {
        assert(signed_by(child, entries[i].der));
        assert(path.contains(i));
    }
}

/// A leaf that does not read as a certificate has no chain.
pub proof fn law_unreadable_leaves_have_no_chain(
    leaf: Seq<u8>,
    pems: Seq<Seq<char>>,
    fingerprints: Seq<Seq<char>>,
)
    requires
        certificate_bytes(leaf) is None,
    ensures
        chain_outcome(leaf, pems, fingerprints) == Err::<Seq<Seq<char>>, ErrorView>(
            ErrorView::Certificate("certificate chain could not be parsed"@),
        ),
{
}

/// No chain is accepted without a trusted fingerprint.
pub proof fn law_nothing_is_trusted_by_default(leaf: Seq<u8>, pems: Seq<Seq<char>>)
    ensures
        chain_outcome(leaf, pems, Seq::empty()) is Err,
{
    if chain_outcome(leaf, pems, Seq::empty()) is Ok {
        law_accepted_chains_end_at_a_trusted_root(leaf, pems, Seq::empty());
        let entries = chain_entries(pems, Seq::empty());
        let path = choose|path: Seq<int>| #[trigger]
            is_anchored_path(
                leaf,
                entries,
                path,
                chain_outcome(leaf, pems, Seq::empty())->Ok_0,
            );
        law_trust_is_by_fingerprint(pems, Seq::empty(), path.last());
    }
}

spec fn unused(used: Seq<bool>) -> nat
    decreases used.len(),
{
    if used.len() == 0 {
        0
    } else {
        unused(used.drop_last()) + if used.last() {
            0nat
        } else {
            1nat
        }
    }
}

proof fn lemma_unused_update(used: Seq<bool>, i: int)
    requires
        0 <= i < used.len(),
        !used[i],
    ensures
        unused(used.update(i, true)) + 1 == unused(used),
    decreases used.len(),
{
    let after = used.update(i, true);
    if i < used.len() - 1 {
        lemma_unused_update(used.drop_last(), i);
        assert(after.drop_last() =~= used.drop_last().update(i, true));
    } else {
        assert(after.drop_last() =~= used.drop_last());
    }
}

proof fn lemma_unused_all(used: Seq<bool>)
    requires
        forall|i: int| 0 <= i < used.len() ==> !#[trigger] used[i],
    ensures
        unused(used) == used.len(),
    decreases used.len(),
{
    if used.len() > 0 {
        lemma_unused_all(used.drop_last());
    }
}

proof fn lemma_climb_ends(
    child: Seq<u8>,
    entries: Seq<EntryView>,
    used: Seq<bool>,
    between: Seq<Seq<char>>,
    steps: nat,
)
    requires
        used.len() == entries.len(),
        unused(used) < steps,
    ensures
        climb(child, entries, used, between, steps) != chain_error(
            "the signed certificate chain contains a loop"@,
        ),
    decreases steps,
{
    reveal_strlit("the signed certificate chain contains a loop");
    reveal_strlit("certificate chain could not be parsed");
    reveal_strlit("the signed certificate does not chain to an embedded root");
    reveal_strlit("the signed certificate chain ends at an untrusted root");
    assert("the signed certificate chain contains a loop"@.len() == 44);
    assert("certificate chain could not be parsed"@.len() == 37);
    assert("the signed certificate does not chain to an embedded root"@.len() == 57);
    assert("the signed certificate chain ends at an untrusted root"@.len() == 54);
    lemma_first_unused(signers(child, entries), used, 0);
    if let Some(i) = first_parent(child, entries, used) {
        lemma_unused_update(used, i);
        if certificate(child) is Some && !is_self_issued(entries[i].der) {
            lemma_climb_ends(
                entries[i].der,
                entries,
                used.update(i, true),
                between.push(entries[i].pem),
                (steps - 1) as nat,
            );
        }
    }
}

/// The climb never goes in a circle: each certificate is used once.
pub proof fn law_chains_do_not_loop(
    leaf: Seq<u8>,
    pems: Seq<Seq<char>>,
    fingerprints: Seq<Seq<char>>,
)
    ensures
        chain_outcome(leaf, pems, fingerprints) != chain_error(
            "the signed certificate chain contains a loop"@,
        ),
{
    let entries = chain_entries(pems, fingerprints);
    let used = Seq::new(entries.len(), |i: int| false);
    lemma_unused_all(used);
    lemma_climb_ends(leaf, entries, used, Seq::empty(), entries.len() + 1);
}

// ---------------------------------------------------------------------------
// Execution
// ---------------------------------------------------------------------------

/// Looks a fingerprint up in a list, in whatever case.
pub fn listed(fingerprint: &str, fingerprints: &[String]) -> (r: bool)
    ensures
        r == is_listed(fingerprint@, view_all(fingerprints@)),
{
    let mut i: usize = 0;
    while i < fingerprints.len()
        invariant
            0 <= i <= fingerprints@.len(),
            forall|k: int|
                0 <= k < i ==> !same_ignoring_case(
                    #[trigger] view_all(fingerprints@)[k],
                    fingerprint@,
                ),
        decreases fingerprints@.len() - i,
    {
        if eq_ignoring_case(fingerprints[i].as_str(), fingerprint) {
            assert(same_ignoring_case(view_all(fingerprints@)[i as int], fingerprint@));
            return true;
        }
        i += 1;
    }
    false
}

pub open spec fn view_entry(entry: Option<ChainEntry>) -> Option<EntryView> {
    match entry {
        Some(entry) => Some(entry@),
        None => None,
    }
}

/// The entry for a text that holds `block`, reads `pem` when it is written out
/// again, and has the fingerprint.
pub fn entry_from(
    block: Option<PemBlock>,
    pem: Option<String>,
    fingerprint: &str,
    fingerprints: &[String],
) -> (r: Option<ChainEntry>)
    ensures
        view_entry(r) == entry_for(
            view_block(block),
            view_option(pem),
            fingerprint@,
            view_all(fingerprints@),
        ),
{
    match (block, pem) {
        (Some(block), Some(pem)) => if text_eq(block.tag.as_str(), "CERTIFICATE") {
            Some(
                ChainEntry {
                    pem,
                    der: block.contents,
                    trusted_root: listed(fingerprint, fingerprints),
                },
            )
        } else {
            None
        },
        _ => None,
    }
}

fn entries_of(pems: &[String], fingerprints: &[String]) -> (r: Vec<ChainEntry>)
    ensures
        view_entries(r@) == chain_entries(view_all(pems@), view_all(fingerprints@)),
{
    let ghost all = view_all(pems@);
    let ghost prints = view_all(fingerprints@);
    let mut r: Vec<ChainEntry> = Vec::new();
    let mut i: usize = 0;
    assert(view_entries(r@) =~= chain_entries(all.take(0), prints));
    while i < pems.len()
        invariant
            0 <= i <= pems@.len(),
            all == view_all(pems@),
            prints == view_all(fingerprints@),
            view_entries(r@) == chain_entries(all.take(i as int), prints),
        decreases pems@.len() - i,
    {
        let ghost before = view_entries(r@);
        proof {
            assert(all.take(i + 1).drop_last() =~= all.take(i as int));
            assert(all.take(i + 1).last() == all[i as int]);
        }
        let text: &str = pems[i].as_str();
        let block: Option<PemBlock> = parse_pem(text);
        let fingerprint: String = match &block {
            Some(block) => fingerprint_of(block.contents.as_slice()),
            None => "".to_owned(),
        };
        let ghost found = parsed_pem(all[i as int]);
        assert(view_block(block) == found);
        if let Some(entry) = entry_from(
            block,
            rewrite_pem(text),
            fingerprint.as_str(),
            fingerprints,
        ) {
            let ghost added = entry@;
            r.push(entry);
            assert(view_entries(r@) =~= before.push(added));
        }
        i += 1;
    }
    assert(all.take(i as int) =~= all);
    r
}

fn signed(child: &[u8], issuer: &[u8], parent: &[u8]) -> (r: bool)
    requires
        certificate(child@) is Some,
        issuer@ == certificate(child@)->Some_0.issuer.raw,
    ensures
        r == is_parent(child@, parent@),
{
    match read_certificate(parent) {
        Some(candidate) => same_bytes(issuer, &candidate.subject.raw) && signature_verifies(
            child,
            Some(parent),
        ),
        None => false,
    }
}

fn signers_of(child: &[u8], issuer: &[u8], entries: &[ChainEntry]) -> (r: Vec<bool>)
    requires
        certificate(child@) is Some,
        issuer@ == certificate(child@)->Some_0.issuer.raw,
    ensures
        r@ == signers(child@, view_entries(entries@)),
{
    let ghost all = signers(child@, view_entries(entries@));
    let mut r: Vec<bool> = Vec::new();
    let mut i: usize = 0;
    assert(r@ =~= all.take(0));
    while i < entries.len()
        invariant
            0 <= i <= entries@.len(),
            certificate(child@) is Some,
            issuer@ == certificate(child@)->Some_0.issuer.raw,
            all == signers(child@, view_entries(entries@)),
            r@ == all.take(i as int),
        decreases entries@.len() - i,
    {
        r.push(signed(child, issuer, &entries[i].der));
        i += 1;
        assert(r@ =~= all.take(i as int));
    }
    assert(all.take(i as int) =~= all);
    r
}

/// The first signer that was not used yet.
pub fn choose_signer(signed: &[bool], used: &[bool]) -> (r: Option<usize>)
    requires
        used@.len() == signed@.len(),
    ensures
        match r {
            Some(i) => i < signed@.len() && first_unused(signed@, used@, 0) == Some(i as int),
            None => first_unused(signed@, used@, 0) is None,
        },
{
    let mut i: usize = 0;
    while i < signed.len()
        invariant
            0 <= i <= signed@.len(),
            used@.len() == signed@.len(),
            first_unused(signed@, used@, 0) == first_unused(signed@, used@, i as int),
        decreases signed@.len() - i,
    {
        if signed[i] && !used[i] {
            return Some(i);
        }
        i += 1;
    }
    None
}

pub open spec fn view_ending(r: Option<AppResult<()>>) -> Option<Result<(), ErrorView>> {
    match r {
        Some(r) => Some(outcome(r)),
        None => None,
    }
}

/// What a signer means for the climb; nothing where the climb goes on.
pub fn judge_signer(self_issued: bool, trusted_root: bool, self_signed: bool) -> (r: Option<
    AppResult<()>,
>)
    ensures
        view_ending(r) == ending(self_issued, trusted_root, self_signed),
{
    if !self_issued {
        None
    } else if trusted_root && self_signed {
        Some(Ok(()))
    } else {
        Some(Err(certificate_error("the signed certificate chain ends at an untrusted root")))
    }
}

fn self_issued(der: &[u8]) -> (r: bool)
    ensures
        r == is_self_issued(der@),
{
    match read_certificate(der) {
        Some(cert) => same_bytes(&cert.subject.raw, &cert.issuer.raw),
        None => false,
    }
}

fn no_entries_used(n: usize) -> (r: Vec<bool>)
    ensures
        r@ == Seq::new(n as nat, |i: int| false),
{
    let mut r: Vec<bool> = Vec::new();
    let mut i: usize = 0;
    while i < n
        invariant
            0 <= i <= n,
            r@ == Seq::new(i as nat, |k: int| false),
        decreases n - i,
    {
        r.push(false);
        i += 1;
        assert(r@ =~= Seq::new(i as nat, |k: int| false));
    }
    r
}

/// The certificates between the leaf and a trusted root, in PEM.
pub fn validate_chain(leaf: &Certificate, chain_pems: &[String], fingerprints: &[String]) -> (r:
    AppResult<Vec<String>>)
    ensures
        match r {
            Ok(between) => chain_outcome(
                leaf@.raw,
                view_all(chain_pems@),
                view_all(fingerprints@),
            ) == Ok::<Seq<Seq<char>>, ErrorView>(view_all(between@)),
            Err(e) => chain_outcome(leaf@.raw, view_all(chain_pems@), view_all(fingerprints@))
                == Err::<Seq<Seq<char>>, ErrorView>(e@),
        },
{
    let entries: Vec<ChainEntry> = entries_of(chain_pems, fingerprints);
    let ghost views = view_entries(entries@);
    let ghost expected = chain_outcome(
        leaf@.raw,
        view_all(chain_pems@),
        view_all(fingerprints@),
    );
    let mut used: Vec<bool> = no_entries_used(entries.len());
    let mut between: Vec<String> = Vec::new();
    let mut child: Vec<u8> = leaf.raw.clone();
    let mut taken: usize = 0;
    proof {
        assert(child@ =~= leaf@.raw);
        assert(view_all(between@) =~= Seq::empty());
    }
    loop
        invariant
            views == view_entries(entries@),
            used@.len() == entries@.len(),
            expected == chain_outcome(
                leaf@.raw,
                view_all(chain_pems@),
                view_all(fingerprints@),
            ),
            0 <= taken <= entries@.len(),
            expected == climb(
                child@,
                views,
                used@,
                view_all(between@),
                (entries@.len() + 1 - taken) as nat,
            ),
        decreases entries@.len() + 1 - taken,
    {
        let current: Certificate = match read_certificate(child.as_slice()) {
            Some(current) => current,
            None => return Err(certificate_error("certificate chain could not be parsed")),
        };
        let signed: Vec<bool> = signers_of(&child, &current.issuer.raw, &entries);
        let index: usize = match choose_signer(&signed, &used) {
            Some(index) => index,
            None => return Err(
                certificate_error("the signed certificate does not chain to an embedded root"),
            ),
        };
        let parent: &ChainEntry = &entries[index];
        match judge_signer(
            self_issued(&parent.der),
            parent.trusted_root,
            signature_verifies(parent.der.as_slice(), None),
        ) {
            Some(Ok(())) => return Ok(between),
            Some(Err(e)) => return Err(e),
            None => {},
        }
        let ghost before = view_all(between@);
        used.set(index, true);
        between.push(entries[index].pem.clone());
        child = entries[index].der.clone();
        proof {
            assert(view_all(between@) =~= before.push(views[index as int].pem));
            assert(child@ =~= views[index as int].der);
        }
        if taken == entries.len() {
            proof {
                reveal_with_fuel(climb, 2);
            }
            return Err(certificate_error("the signed certificate chain contains a loop"));
        }
        taken += 1;
    }
}

} // verus!
