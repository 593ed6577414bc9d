//! Secrets taken out of text that is logged or shown.

use vstd::prelude::*;

use crate::text::{
    chars_of, concat2, is_whitespace, lower, lower_char, occurs_at, stands_at, text_of, to_lower,
    whitespace,
};

verus! {

/// The names after which a secret stands.
pub open spec fn secret_keys() -> Seq<Seq<char>> {
    seq![
        "token"@,
        "client_token"@,
        "access_token"@,
        "refresh_token"@,
        "id_token"@,
        "client_nonce"@,
        "state"@,
        "code"@,
        "csr"@,
        "pin"@,
        "management_key"@,
        "private_key"@,
    ]
}

/// What stands between a name and its secret: a query string's equals sign, or
/// the quotes and the colon of JSON.
pub open spec fn separators() -> Seq<Seq<char>> {
    seq!["="@, "\":\""@, "\": \""@]
}

/// Every name with every separator.
pub open spec fn markers() -> Seq<Seq<char>> {
    Seq::new(36, |k: int| secret_keys()[k / 3] + separators()[k % 3])
}

pub open spec fn mask() -> Seq<char> {
    "[REDACTED]"@
}

/// A character that ends a secret.
pub open spec fn is_terminator(c: char) -> bool {
    c == '&' || c == ',' || c == '"' || is_whitespace(c)
}

/// The length of the secret that a text begins with.
pub open spec fn secret_len(s: Seq<char>) -> int
    decreases s.len(),
{
    if s.len() == 0 || is_terminator(s[0]) {
        0
    } else {
        1 + secret_len(s.drop_first())
    }
}

/// The first position of `pattern` in `s`, or -1.
pub open spec fn first_at(s: Seq<char>, pattern: Seq<char>) -> int
    decreases s.len(),
{
    if occurs_at(s, pattern, 0) {
        0
    } else if s.len() == 0 {
        -1
    } else {
        let rest = first_at(s.drop_first(), pattern);
        if rest < 0 {
            -1
        } else {
            rest + 1
        }
    }
}

/// The text with the secret after each occurrence of `marker`, in whatever
/// case, replaced by the mask.
pub open spec fn masked(s: Seq<char>, marker: Seq<char>) -> Seq<char>
    decreases s.len(),
{
    let i = first_at(lower(s), marker);
    let start = i + marker.len();
    let end = start + secret_len(s.skip(start));
    if 0 <= i && 0 < start <= end <= s.len() {
        s.take(start) + mask() + masked(s.skip(end), marker)
    } else {
        s
    }
}

/// The secrets after the first `n` markers hidden, one marker after the other.
pub open spec fn masked_first(s: Seq<char>, n: nat) -> Seq<char>
    decreases n,
{
    if n == 0 {
        s
    } else {
        masked(masked_first(s, (n - 1) as nat), markers()[n - 1])
    }
}

/// The text with every secret replaced by the mask.
pub open spec fn redacted(s: Seq<char>) -> Seq<char> {
    masked_first(s, 36)
}

/// At position `i` the mask stands, and there the secret ends.
pub open spec fn masked_at(s: Seq<char>, i: int) -> bool {
    &&& occurs_at(s, mask(), i)
    &&& i + mask().len() == s.len() || is_terminator(s[i + mask().len()])
}

/// After every occurrence of `marker`, in whatever case, the mask stands.
pub open spec fn is_clean(s: Seq<char>, marker: Seq<char>) -> bool {
    forall|p: int|
        #![trigger occurs_at(lower(s), marker, p)]
        occurs_at(lower(s), marker, p) ==> masked_at(s, p + marker.len())
}

// ---------------------------------------------------------------------------
// Proofs
// ---------------------------------------------------------------------------

/// A marker ends in an equals sign or a quote and holds no bracket, so that it
/// can neither end in the mask nor reach over its end.
spec fn is_marker(m: Seq<char>) -> bool {
    &&& m.len() > 0
    &&& m.last() == '=' || m.last() == '"'
    &&& forall|k: int| 0 <= k < m.len() ==> #[trigger] m[k] != ']'
}

proof fn lemma_first_at(s: Seq<char>, pattern: Seq<char>)
    ensures
        -1 <= first_at(s, pattern) <= s.len(),
        first_at(s, pattern) >= 0 ==> occurs_at(s, pattern, first_at(s, pattern)),
        forall|j: int|
            #![trigger occurs_at(s, pattern, j)]
            occurs_at(s, pattern, j) ==> 0 <= first_at(s, pattern) <= j,
    decreases s.len(),
{
    if !occurs_at(s, pattern, 0) && s.len() > 0 {
        let t = s.drop_first();
        lemma_first_at(t, pattern);
        let r = first_at(t, pattern);
        if r >= 0 {
            assert(t.subrange(r, r + pattern.len()) =~= s.subrange(r + 1, r + 1 + pattern.len()));
        }
        assert forall|j: int| #![trigger occurs_at(s, pattern, j)] occurs_at(s, pattern, j) implies 0
            <= first_at(s, pattern) <= j by {
            assert(j > 0);
            assert(s.subrange(j, j + pattern.len()) =~= t.subrange(j - 1, j - 1 + pattern.len()));
            assert(occurs_at(t, pattern, j - 1));
        }
    }
}

proof fn lemma_secret_len(s: Seq<char>)
    ensures
        0 <= secret_len(s) <= s.len(),
        secret_len(s) < s.len() ==> is_terminator(s[secret_len(s)]),
    decreases s.len(),
{
    if s.len() > 0 && !is_terminator(s[0]) {
        lemma_secret_len(s.drop_first());
    }
}

proof fn lemma_mask()
    ensures
        mask().len() == 10,
        mask()[9] == ']',
        forall|k: int|
            0 <= k < 10 ==> {
                &&& #[trigger] mask()[k] != '='
                &&& mask()[k] != '"'
                &&& !is_terminator(mask()[k])
            },
{
    reveal_strlit("[REDACTED]");
}

/// Where a text begins with a terminator, so does what is left of it.
proof fn lemma_masked_head(s: Seq<char>, m: Seq<char>)
    requires
        m.len() > 0,
    ensures
        s.len() == 0 ==> masked(s, m).len() == 0,
        s.len() > 0 ==> masked(s, m).len() > 0 && masked(s, m)[0] == s[0],
{
    lemma_first_at(lower(s), m);
}

/// Where an occurrence of a marker can lie in a text that was just masked: in
/// the part before the mask, or in the part behind it.
proof fn lemma_occurrence_place(pre: Seq<char>, rest: Seq<char>, m: Seq<char>, p: int)
    requires
        is_marker(m),
        occurs_at(lower(pre + mask() + rest), m, p),
    ensures
        p + m.len() <= pre.len() || p >= pre.len() + 10,
        p + m.len() <= pre.len() ==> occurs_at(lower(pre), m, p),
        p >= pre.len() + 10 ==> occurs_at(lower(rest), m, p - pre.len() - 10),
{
    lemma_mask();
    let t = pre + mask() + rest;
    let lt = lower(t);
    let e = p + m.len();
    assert(forall|k: int| 0 <= k < m.len() ==> lt[p + k] == #[trigger] m[k]) by {
        assert forall|k: int| 0 <= k < m.len() implies lt[p + k] == #[trigger] m[k] by {
            assert(lt.subrange(p, p + m.len())[k] == m[k]);
        }
    }
    assert(lt[e - 1] == m.last());
    assert(t[e - 1] == m.last());
    if e > pre.len() && p < pre.len() + 10 {
        if e <= pre.len() + 10 {
            assert(t[e - 1] == mask()[e - 1 - pre.len()]);
        } else {
            let k: int = pre.len() + 9 - p;
            assert(t[p + k] == mask()[9]);
            assert(lt[p + k] == ']');
            assert(m[k] == ']');
        }
        assert(false);
    }
    if e <= pre.len() {
        assert(lower(pre).subrange(p, e) =~= lt.subrange(p, e));
    }
    if p >= pre.len() + 10 {
        let q = p - pre.len() - 10;
        assert(lower(rest).subrange(q, q + m.len()) =~= lt.subrange(p, e));
    }
}

proof fn lemma_masked_behind(pre: Seq<char>, rest: Seq<char>, i: int)
    requires
        masked_at(rest, i),
    ensures
        masked_at(pre + mask() + rest, pre.len() + 10 + i),
{
    lemma_mask();
    let t = pre + mask() + rest;
    let j = pre.len() + 10 + i;
    assert(t.subrange(j, j + 10) =~= rest.subrange(i, i + 10));
}

/// Right after the kept part the mask stands, and there the secret ends.
proof fn lemma_masked_here(s: Seq<char>, m: Seq<char>, start: int)
    requires
        m.len() > 0,
        0 <= start <= s.len(),
    ensures
        ({
            let end = start + secret_len(s.skip(start));
            masked_at(s.take(start) + mask() + masked(s.skip(end), m), start)
        }),
{
    lemma_mask();
    lemma_secret_len(s.skip(start));
    let end = start + secret_len(s.skip(start));
    let rest = masked(s.skip(end), m);
    let t = s.take(start) + mask() + rest;
    lemma_masked_head(s.skip(end), m);
    assert(t.subrange(start, start + 10) =~= mask());
    if end < s.len() {
        assert(s.skip(end)[0] == s.skip(start)[end - start]);
        assert(t[start + 10] == rest[0]);
    }
}

proof fn lemma_masked_cleans(s: Seq<char>, m: Seq<char>)
    requires
        is_marker(m),
    ensures
        is_clean(masked(s, m), m),
    decreases s.len(),
{
    lemma_first_at(lower(s), m);
    let i = first_at(lower(s), m);
    let start = i + m.len();
    if i >= 0 {
        lemma_secret_len(s.skip(start));
        let end = start + secret_len(s.skip(start));
        let pre = s.take(start);
        let rest = masked(s.skip(end), m);
        lemma_masked_cleans(s.skip(end), m);
        lemma_masked_here(s, m, start);
        let t = pre + mask() + rest;
        assert forall|p: int| #![trigger occurs_at(lower(t), m, p)] occurs_at(
            lower(t),
            m,
            p,
        ) implies masked_at(t, p + m.len()) by {
            lemma_occurrence_place(pre, rest, m, p);
            if p + m.len() <= pre.len() {
                assert(lower(s).subrange(p, p + m.len()) =~= lower(pre).subrange(p, p + m.len()));
                assert(occurs_at(lower(s), m, p));
            } else {
                lemma_masked_behind(pre, rest, p - pre.len() - 10 + m.len());
            }
        }
    }
}

proof fn lemma_clean_suffix(s: Seq<char>, m: Seq<char>, k: int)
    requires
        is_clean(s, m),
        0 <= k <= s.len(),
    ensures
        is_clean(s.skip(k), m),
{
    lemma_mask();
    let u = s.skip(k);
    assert forall|p: int| #![trigger occurs_at(lower(u), m, p)] occurs_at(
        lower(u),
        m,
        p,
    ) implies masked_at(u, p + m.len()) by {
        assert(lower(s).subrange(p + k, p + k + m.len()) =~= lower(u).subrange(p, p + m.len()));
        assert(occurs_at(lower(s), m, p + k));
        let q = p + m.len();
        assert(masked_at(s, q + k));
        assert(u.subrange(q, q + 10) =~= s.subrange(q + k, q + k + 10));
    }
}

/// Hiding what follows one marker leaves hidden what follows another.
proof fn lemma_masked_keeps_clean(s: Seq<char>, a: Seq<char>, b: Seq<char>)
    requires
        is_marker(a),
        is_marker(b),
        is_clean(s, a),
    ensures
        is_clean(masked(s, b), a),
    decreases s.len(),
{
    lemma_mask();
    lemma_first_at(lower(s), b);
    let i = first_at(lower(s), b);
    let start = i + b.len();
    if i >= 0 {
        lemma_secret_len(s.skip(start));
        let end = start + secret_len(s.skip(start));
        let pre = s.take(start);
        let rest = masked(s.skip(end), b);
        lemma_clean_suffix(s, a, end);
        lemma_masked_keeps_clean(s.skip(end), a, b);
        lemma_masked_here(s, b, start);
        let t = pre + mask() + rest;
        assert forall|p: int| #![trigger occurs_at(lower(t), a, p)] occurs_at(
            lower(t),
            a,
            p,
        ) implies masked_at(t, p + a.len()) by {
            lemma_occurrence_place(pre, rest, a, p);
            let q = p + a.len();
            if q <= pre.len() {
                assert(lower(s).subrange(p, q) =~= lower(pre).subrange(p, q));
                assert(occurs_at(lower(s), a, p));
                assert(masked_at(s, q));
                if q < start {
                    assert(lower(s).subrange(i, start)[b.len() - 1] == b.last());
                    assert(s[start - 1] == b.last());
                    if start - 1 < q + 10 {
                        assert(s.subrange(q, q + 10)[start - 1 - q] == mask()[start - 1 - q]);
                        assert(false);
                    }
                    assert(t.subrange(q, q + 10) =~= s.subrange(q, q + 10));
                    assert(t[q + 10] == s[q + 10]);
                }
            } else {
                lemma_masked_behind(pre, rest, p - pre.len() - 10 + a.len());
            }
        }
    }
}

proof fn lemma_secret_len_of_mask(s: Seq<char>, k: int)
    requires
        masked_at(s, 0),
        0 <= k <= 10,
    ensures
        secret_len(s.skip(k)) == 10 - k,
    decreases 10 - k,
{
    lemma_mask();
    if k < 10 {
        assert(s.subrange(0, 10)[k] == mask()[k]);
        lemma_secret_len_of_mask(s, k + 1);
        assert(s.skip(k).drop_first() =~= s.skip(k + 1));
    }
}

proof fn lemma_masked_clean_is_same(s: Seq<char>, m: Seq<char>)
    requires
        is_marker(m),
        is_clean(s, m),
    ensures
        masked(s, m) == s,
    decreases s.len(),
{
    lemma_mask();
    lemma_first_at(lower(s), m);
    let i = first_at(lower(s), m);
    let start = i + m.len();
    if i >= 0 {
        assert(masked_at(s, start));
        let u = s.skip(start);
        assert(u.subrange(0, 10) =~= s.subrange(start, start + 10));
        lemma_secret_len_of_mask(u, 0);
        assert(u.skip(0) =~= u);
        lemma_clean_suffix(s, m, start + 10);
        lemma_masked_clean_is_same(s.skip(start + 10), m);
        assert(s.subrange(start, start + 10) == mask());
        assert(masked(s, m) =~= s);
    }
}

proof fn lemma_markers(k: int)
    requires
        0 <= k < 36,
    ensures
        is_marker(markers()[k]),
{
    reveal_strlit("token");
    reveal_strlit("client_token");
    reveal_strlit("access_token");
    reveal_strlit("refresh_token");
    reveal_strlit("id_token");
    reveal_strlit("client_nonce");
    reveal_strlit("state");
    reveal_strlit("code");
    reveal_strlit("csr");
    reveal_strlit("pin");
    reveal_strlit("management_key");
    reveal_strlit("private_key");
    reveal_strlit("=");
    reveal_strlit("\":\"");
    reveal_strlit("\": \"");
    let key = secret_keys()[k / 3];
    let separator = separators()[k % 3];
    assert(0 <= k / 3 < 12 && 0 <= k % 3 < 3);
    assert(forall|j: int| 0 <= j < key.len() ==> #[trigger] key[j] != ']');
    assert(forall|j: int| 0 <= j < separator.len() ==> #[trigger] separator[j] != ']');
    assert(separator.len() > 0 && (separator.last() == '=' || separator.last() == '"'));
}

/// Every marker ends in an equals sign or a quote.
pub proof fn lemma_marker_end(k: int)
    requires
        0 <= k < markers().len(),
    ensures
        markers()[k].len() > 0,
        markers()[k].last() == '=' || markers()[k].last() == '"',
{
    lemma_markers(k);
}

proof fn lemma_masked_first_clean(s: Seq<char>, n: nat, k: int)
    requires
        0 <= k < n <= 36,
    ensures
        is_clean(masked_first(s, n), markers()[k]),
    decreases n,
{
    let t = masked_first(s, (n - 1) as nat);
    lemma_markers(n - 1);
    lemma_markers(k);
    if k == n - 1 {
        lemma_masked_cleans(t, markers()[n - 1]);
    } else {
        lemma_masked_first_clean(s, (n - 1) as nat, k);
        lemma_masked_keeps_clean(t, markers()[k], markers()[n - 1]);
    }
}

/// No secret survives: in redacted text the mask follows every occurrence of
/// every marker, in whatever case, and nothing of the secret follows the mask.
pub proof fn law_no_secret_survives(s: Seq<char>, k: int, p: int)
    requires
        0 <= k < markers().len(),
        occurs_at(lower(redacted(s)), markers()[k], p),
    ensures
        masked_at(redacted(s), p + markers()[k].len()),
{
    lemma_masked_first_clean(s, 36, k);
}

proof fn lemma_masked_first_of_clean(s: Seq<char>, n: nat)
    requires
        n <= 36,
        forall|k: int| 0 <= k < 36 ==> #[trigger] is_clean(s, markers()[k]),
    ensures
        masked_first(s, n) == s,
    decreases n,
{
    if n > 0 {
        lemma_masked_first_of_clean(s, (n - 1) as nat);
        lemma_markers(n - 1);
        assert(is_clean(s, markers()[n - 1]));
        lemma_masked_clean_is_same(s, markers()[n - 1]);
    }
}

/// Redacting what was redacted changes nothing.
pub proof fn law_redaction_is_idempotent(s: Seq<char>)
    ensures
        redacted(redacted(s)) == redacted(s),
{
    assert forall|k: int| 0 <= k < 36 implies #[trigger] is_clean(redacted(s), markers()[k]) by {
        lemma_masked_first_clean(s, 36, k);
    }
    lemma_masked_first_of_clean(redacted(s), 36);
}

proof fn lemma_masked_first_without_markers(s: Seq<char>, n: nat)
    requires
        n <= 36,
        forall|k: int, p: int|
            0 <= k < 36 ==> !#[trigger] occurs_at(lower(s), markers()[k], p),
    ensures
        masked_first(s, n) == s,
    decreases n,
{
    if n > 0 {
        lemma_masked_first_without_markers(s, (n - 1) as nat);
        lemma_first_at(lower(s), markers()[n - 1]);
        let i = first_at(lower(s), markers()[n - 1]);
        assert(!occurs_at(lower(s), markers()[n - 1], i));
    }
}

/// Text without a marker stays as it is.
pub proof fn law_text_without_markers_is_kept(s: Seq<char>)
    requires
        forall|k: int, p: int|
            0 <= k < markers().len() ==> !#[trigger] occurs_at(lower(s), markers()[k], p),
    ensures
        redacted(s) == s,
{
    lemma_masked_first_without_markers(s, 36);
}

// ---------------------------------------------------------------------------
// Execution
// ---------------------------------------------------------------------------

fn terminator(c: char) -> (r: bool)
    ensures
        r == is_terminator(c),
{
    c == '&' || c == ',' || c == '"' || whitespace(c)
}

fn lower_chars(v: &Vec<char>) -> (r: Vec<char>)
    ensures
        r@ == lower(v@),
{
    let mut r: Vec<char> = Vec::new();
    let mut i: usize = 0;
    while i < v.len()
        invariant
            0 <= i <= v@.len(),
            r@ == lower(v@.take(i as int)),
        decreases v@.len() - i,
    {
        r.push(lower_char(v[i]));
        i += 1;
        assert(lower(v@.take(i as int)) =~= lower(v@.take(i - 1)).push(to_lower(v@[i - 1])));
    }
    assert(v@.take(i as int) =~= v@);
    r
}

/// The first position of `pattern` in `v` at or after `from`.
fn find_from(v: &Vec<char>, pattern: &Vec<char>, from: usize) -> (r: Option<usize>)
    requires
        from <= v@.len(),
    ensures
        match r {
            Some(i) => from <= i <= v@.len() && first_at(v@.skip(from as int), pattern@) == i
                - from && occurs_at(v@, pattern@, i as int),
            None => first_at(v@.skip(from as int), pattern@) < 0,
        },
{
    let ghost rest = v@.skip(from as int);
    proof {
        lemma_first_at(rest, pattern@);
    }
    let mut i: usize = from;
    loop
        invariant
            from <= i <= v@.len(),
            rest == v@.skip(from as int),
            -1 <= first_at(rest, pattern@) <= rest.len(),
            first_at(rest, pattern@) >= 0 ==> occurs_at(
                rest,
                pattern@,
                first_at(rest, pattern@),
            ),
            forall|j: int|
                #![trigger occurs_at(rest, pattern@, j)]
                occurs_at(rest, pattern@, j) ==> 0 <= first_at(rest, pattern@) <= j,
            forall|j: int| 0 <= j < i - from ==> !#[trigger] occurs_at(rest, pattern@, j),
        decreases v@.len() - i,
    {
        let ghost k = i - from;
        proof {
            if occurs_at(v@, pattern@, i as int) {
                assert(rest.subrange(k, k + pattern@.len()) =~= v@.subrange(
                    i as int,
                    i + pattern@.len(),
                ));
                assert(occurs_at(rest, pattern@, k));
            }
            if occurs_at(rest, pattern@, k) {
                assert(rest.subrange(k, k + pattern@.len()) =~= v@.subrange(
                    i as int,
                    i + pattern@.len(),
                ));
            }
        }
        if stands_at(v, pattern, i) {
            return Some(i);
        }
        if i == v.len() {
            return None;
        }
        i += 1;
    }
}

fn append_range(out: &mut Vec<char>, v: &Vec<char>, from: usize, to: usize)
    requires
        from <= to <= v@.len(),
    ensures
        final(out)@ == old(out)@ + v@.subrange(from as int, to as int),
{
    let ghost before = out@;
    let mut i: usize = from;
    assert(out@ =~= before + v@.subrange(from as int, from as int));
    while i < to
        invariant
            from <= i <= to <= v@.len(),
            out@ == before + v@.subrange(from as int, i as int),
        decreases to - i,
    {
        out.push(v[i]);
        i += 1;
        assert(out@ =~= before + v@.subrange(from as int, i as int));
    }
}

/// The end of the secret that begins at `from`.
fn secret_end(v: &Vec<char>, from: usize) -> (r: usize)
    requires
        from <= v@.len(),
    ensures
        from <= r <= v@.len(),
        r - from == secret_len(v@.skip(from as int)),
{
    let mut i: usize = from;
    while i < v.len() && !terminator(v[i])
        invariant
            from <= i <= v@.len(),
            secret_len(v@.skip(from as int)) == (i - from) + secret_len(v@.skip(i as int)),
        decreases v@.len() - i,
    {
        proof {
            assert(v@.skip(i as int).drop_first() =~= v@.skip(i + 1));
        }
        i += 1;
    }
    i
}

proof fn lemma_masked_step(s: Seq<char>, m: Seq<char>, at: int, i: int, end: int)
    requires
        m.len() > 0,
        0 <= at <= i,
        i + m.len() <= end <= s.len(),
        first_at(lower(s.skip(at)), m) == i - at,
        end - (i + m.len()) == secret_len(s.skip((i + m.len()) as int)),
    ensures
        masked(s.skip(at), m) == s.subrange(at, (i + m.len()) as int) + mask() + masked(
            s.skip(end),
            m,
        ),
{
    let rest = s.skip(at);
    let start: int = i + m.len();
    assert(rest.take(start - at) =~= s.subrange(at, start));
    assert(rest.skip(start - at) =~= s.skip(start));
    assert(rest.skip(end - at) =~= s.skip(end));
}

proof fn lemma_concat(a: Seq<char>, b: Seq<char>, c: Seq<char>, d: Seq<char>)
    ensures
        a + (b + c + d) == a + b + c + d,
{
    assert(a + (b + c + d) =~= a + b + c + d);
}

fn mask_marker(v: &Vec<char>, marker: &Vec<char>) -> (r: Vec<char>)
    requires
        marker@.len() > 0,
    ensures
        r@ == masked(v@, marker@),
{
    let lowered: Vec<char> = lower_chars(v);
    let hidden: Vec<char> = chars_of("[REDACTED]");
    let mut out: Vec<char> = Vec::new();
    let mut at: usize = 0;
    proof {
        assert(v@.skip(0) =~= v@);
        assert(out@ + masked(v@, marker@) =~= masked(v@, marker@));
    }
    loop
        invariant
            0 <= at <= v@.len(),
            marker@.len() > 0,
            lowered@ == lower(v@),
            hidden@ == mask(),
            out@ + masked(v@.skip(at as int), marker@) == masked(v@, marker@),
        decreases v@.len() - at,
    {
        let ghost rest = v@.skip(at as int);
        proof {
            assert(lowered@.skip(at as int) =~= lower(rest));
        }
        let total: usize = v.len();
        match find_from(&lowered, marker, at) {
            None => {
                append_range(&mut out, v, at, total);
                assert(v@.subrange(at as int, v@.len() as int) =~= rest);
                return out;
            },
            Some(i) => {
                let start: usize = i + marker.len();
                let end: usize = secret_end(v, start);
                proof {
                    lemma_masked_step(v@, marker@, at as int, i as int, end as int);
                    assert(hidden@.subrange(0, hidden@.len() as int) =~= mask());
                }
                let ghost before = out@;
                append_range(&mut out, v, at, start);
                append_range(&mut out, &hidden, 0, hidden.len());
                proof {
                    lemma_concat(
                        before,
                        v@.subrange(at as int, start as int),
                        mask(),
                        masked(v@.skip(end as int), marker@),
                    );
                }
                at = end;
            },
        }
    }
}

/// The text with every secret replaced by `[REDACTED]`.
pub fn redact(input: &str) -> (r: String)
    ensures
        r@ == redacted(input@),
{
    let keys: [&str; 12] = [
        "token",
        "client_token",
        "access_token",
        "refresh_token",
        "id_token",
        "client_nonce",
        "state",
        "code",
        "csr",
        "pin",
        "management_key",
        "private_key",
    ];
    let between: [&str; 3] = ["=", "\":\"", "\": \""];
    let mut output: Vec<char> = chars_of(input);
    let mut k: usize = 0;
    while k < 36
        invariant
            0 <= k <= 36,
            forall|j: int| 0 <= j < 12 ==> (#[trigger] keys@[j])@ == secret_keys()[j],
            forall|j: int| 0 <= j < 3 ==> (#[trigger] between@[j])@ == separators()[j],
            output@ == masked_first(input@, k as nat),
        decreases 36 - k,
    {
        let marker: String = concat2(keys[k / 3], between[k % 3]);
        proof {
            lemma_markers(k as int);
        }
        output = mask_marker(&output, &chars_of(marker.as_str()));
        k += 1;
    }
    text_of(&output)
}

// ---------------------------------------------------------------------------
// What is hidden, and what is kept
// ---------------------------------------------------------------------------

/// A secret may be called by one of these names.
pub open spec fn names_secret(key: Seq<char>) -> bool {
    ||| key == "token"@
    ||| key == "client_token"@
    ||| key == "access_token"@
    ||| key == "refresh_token"@
    ||| key == "id_token"@
    ||| key == "client_nonce"@
    ||| key == "state"@
    ||| key == "code"@
    ||| key == "csr"@
    ||| key == "pin"@
    ||| key == "management_key"@
    ||| key == "private_key"@
}

/// A secret is parted from its name by one of these.
pub open spec fn parts_secret(separator: Seq<char>) -> bool {
    separator == "="@ || separator == "\":\""@ || separator == "\": \""@
}

/// A secret runs on over this character.
pub open spec fn belongs_to_secret(c: char) -> bool {
    c != '&' && c != ',' && c != '"' && !is_whitespace(c)
}

/// Secrets are looked for behind each name with each separator, and nowhere
/// else.
pub proof fn law_secrets_stand_behind_their_names(key: Seq<char>, separator: Seq<char>, k: int)
    ensures
        names_secret(key) && parts_secret(separator) ==> markers().contains(key + separator),
        0 <= k < markers().len() ==> exists|name: Seq<char>, between: Seq<char>|
            names_secret(name) && parts_secret(between) && markers()[k] == #[trigger] (name
                + between),
{
    if names_secret(key) && parts_secret(separator) {
        let i: int = if key == "token"@ {
            0
        } else if key == "client_token"@ {
            1
        } else if key == "access_token"@ {
            2
        } else if key == "refresh_token"@ {
            3
        } else if key == "id_token"@ {
            4
        } else if key == "client_nonce"@ {
            5
        } else if key == "state"@ {
            6
        } else if key == "code"@ {
            7
        } else if key == "csr"@ {
            8
        } else if key == "pin"@ {
            9
        } else if key == "management_key"@ {
            10
        } else {
            11
        };
        let j: int = if separator == "="@ {
            0
        } else if separator == "\":\""@ {
            1
        } else {
            2
        };
        assert(secret_keys()[i] == key);
        assert(separators()[j] == separator);
        let n = 3 * i + j;
        assert(n / 3 == i && n % 3 == j);
        assert(markers()[n] == key + separator);
    }
    if 0 <= k < markers().len() {
        let name = secret_keys()[k / 3];
        let between = separators()[k % 3];
        assert(0 <= k / 3 < 12 && 0 <= k % 3 < 3);
        assert(names_secret(name));
        assert(parts_secret(between));
        assert(markers()[k] == name + between);
    }
}

proof fn lemma_secret_runs_to_its_end(secret: Seq<char>, after: Seq<char>)
    requires
        forall|i: int| 0 <= i < secret.len() ==> belongs_to_secret(#[trigger] secret[i]),
        after.len() > 0 ==> !belongs_to_secret(after[0]),
    ensures
        secret_len(secret + after) == secret.len(),
    decreases secret.len(),
{
    let s = secret + after;
    if secret.len() > 0 {
        assert(s[0] == secret[0]);
        lemma_secret_runs_to_its_end(secret.drop_first(), after);
        assert(s.drop_first() =~= secret.drop_first() + after);
    } else if after.len() > 0 {
        assert(s[0] == after[0]);
    }
}

/// Of a text whose first marker is `name`, in whatever case, the part up to the
/// marker and the marker stay, the secret is replaced by the mask, and the rest
/// is masked on its own.
pub proof fn law_secrets_are_masked_one_by_one(
    before: Seq<char>,
    name: Seq<char>,
    secret: Seq<char>,
    after: Seq<char>,
)
    requires
        name.len() > 0,
        forall|q: int|
            #![trigger occurs_at(lower(before + name + secret + after), lower(name), q)]
            q < before.len() ==> !occurs_at(
                lower(before + name + secret + after),
                lower(name),
                q,
            ),
        forall|i: int| 0 <= i < secret.len() ==> belongs_to_secret(#[trigger] secret[i]),
        after.len() > 0 ==> !belongs_to_secret(after[0]),
    ensures
        masked(before + name + secret + after, lower(name)) == before + name + "[REDACTED]"@
            + masked(after, lower(name)),
{
    let s = before + name + secret + after;
    let m = lower(name);
    let at: int = before.len() as int;
    let start: int = at + name.len();
    let end: int = start + secret.len();
    assert(lower(s).subrange(at, start) =~= m);
    assert(occurs_at(lower(s), m, at));
    lemma_first_at(lower(s), m);
    assert(first_at(lower(s), m) == at);
    lemma_secret_runs_to_its_end(secret, after);
    assert(s.skip(start) =~= secret + after);
    assert(s.skip(end) =~= after);
    assert(s.take(start) =~= before + name);
}

proof fn lemma_only_secret(s: Seq<char>, start: int, n: nat)
    requires
        n <= 36,
        0 < start <= s.len(),
        forall|k: int, q: int|
            0 <= k < 36 && #[trigger] occurs_at(lower(s), markers()[k], q) ==> q
                + markers()[k].len() == start,
    ensures
        ({
            let hidden = s.take(start) + mask() + s.skip(start + secret_len(s.skip(start)));
            &&& masked_first(s, n) == s || masked_first(s, n) == hidden
            &&& (exists|k: int, q: int|
                0 <= k < n && #[trigger] occurs_at(lower(s), markers()[k], q))
                ==> masked_first(s, n) == hidden
        }),
    decreases n,
{
    let end = start + secret_len(s.skip(start));
    lemma_secret_len(s.skip(start));
    let hidden = s.take(start) + mask() + s.skip(end);
    if n > 0 {
        let earlier = masked_first(s, (n - 1) as nat);
        let m = markers()[n - 1];
        lemma_only_secret(s, start, (n - 1) as nat);
        lemma_markers(n - 1);
        lemma_mask();
        if earlier == hidden {
            assert forall|p: int| #![trigger occurs_at(lower(hidden), m, p)] occurs_at(
                lower(hidden),
                m,
                p,
            ) implies masked_at(hidden, p + m.len()) by {
                lemma_occurrence_place(s.take(start), s.skip(end), m, p);
                if p + m.len() <= start {
                    assert(lower(s).subrange(p, p + m.len()) =~= lower(s.take(start)).subrange(
                        p,
                        p + m.len(),
                    ));
                    assert(occurs_at(lower(s), markers()[n - 1], p));
                    assert(hidden.subrange(start, start + 10) =~= mask());
                    if start + 10 < hidden.len() {
                        assert(hidden[start + 10] == s[end]);
                        assert(s[end] == s.skip(start)[end - start]);
                    }
                } else {
                    let q = p - start - 10;
                    assert(lower(s).subrange(end + q, end + q + m.len()) =~= lower(
                        s.skip(end),
                    ).subrange(q, q + m.len()));
                    assert(occurs_at(lower(s), markers()[n - 1], end + q));
                    assert(false);
                }
            }
            lemma_masked_clean_is_same(hidden, m);
        } else {
            lemma_first_at(lower(s), m);
            let i = first_at(lower(s), m);
            if i >= 0 {
                assert(occurs_at(lower(s), markers()[n - 1], i));
                assert(i + m.len() == start);
                let rest = s.skip(end);
                lemma_first_at(lower(rest), m);
                let j = first_at(lower(rest), m);
                if j >= 0 {
                    assert(lower(s).subrange(end + j, end + j + m.len()) =~= lower(rest).subrange(
                        j,
                        j + m.len(),
                    ));
                    assert(occurs_at(lower(s), markers()[n - 1], end + j));
                    assert(false);
                }
                assert(masked(rest, m) == rest);
            } else {
                assert forall|q: int| !#[trigger] occurs_at(lower(s), markers()[n - 1], q) by {}
            }
        }
    }
}

/// A text with one secret keeps all but the secret: what stands before the name,
/// the name as it was written, the separator, and what stands behind the secret.
pub proof fn law_only_the_secret_is_hidden(
    before: Seq<char>,
    name: Seq<char>,
    key: Seq<char>,
    separator: Seq<char>,
    secret: Seq<char>,
    after: Seq<char>,
)
    requires
        names_secret(key),
        parts_secret(separator),
        lower(name) == key + separator,
        forall|i: int| 0 <= i < secret.len() ==> belongs_to_secret(#[trigger] secret[i]),
        after.len() > 0 ==> !belongs_to_secret(after[0]),
        forall|k: int, q: int|
            0 <= k < markers().len() && #[trigger] occurs_at(
                lower(before + name + secret + after),
                markers()[k],
                q,
            ) ==> q + markers()[k].len() == before.len() + name.len(),
    ensures
        redacted(before + name + secret + after) == before + name + "[REDACTED]"@ + after,
{
    let s = before + name + secret + after;
    let at: int = before.len() as int;
    let start: int = at + name.len();
    law_secrets_stand_behind_their_names(key, separator, 0);
    let k = choose|k: int| 0 <= k < markers().len() && markers()[k] == key + separator;
    lemma_markers(k);
    assert(lower(s).subrange(at, start) =~= lower(name));
    assert(lower(name).len() == name.len());
    assert(occurs_at(lower(s), markers()[k], at));
    lemma_secret_runs_to_its_end(secret, after);
    assert(s.skip(start) =~= secret + after);
    assert(s.skip(start + secret.len() as int) =~= after);
    assert(s.take(start) =~= before + name);
    lemma_only_secret(s, start, 36);
}

} // verus!
