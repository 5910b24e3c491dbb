//! Feature strings: `,`-separated tokens, `+name` to enable a feature and
//! `-name` to disable it.
use vstd::prelude::*;
use vstd::utf8::encode_utf8;

verus! {

/// A token begins at `i`.
pub open spec fn token_start(s: Seq<u8>, i: int) -> bool {
    0 <= i < s.len() && (i == 0 || s[i - 1] == 44)
}

/// The first `,` at or after `i`, or the end of `s`.
pub open spec fn token_end(s: Seq<u8>, i: int) -> int
    decreases s.len() - i,
{
    if i < 0 || i >= s.len() || s[i] == 44 {
        i
    } else {
        token_end(s, i + 1)
    }
}

/// The feature name of the token that starts at `i`, without its sign.
pub open spec fn token_name(s: Seq<u8>, i: int) -> Seq<u8> {
    s.subrange(i + 1, token_end(s, i + 1))
}

/// The token at `i` enables a feature that the token at `j` disables.
pub open spec fn enable_disable(s: Seq<u8>, i: int, j: int) -> bool {
    token_start(s, i) && token_start(s, j) && s[i] == 43 && s[j] == 45 && token_name(s, i)
        == token_name(s, j)
}

/// Some feature is both enabled and disabled in `s`.
pub open spec fn has_feature_conflict(s: Seq<u8>) -> bool {
    exists|i: int, j: int| #[trigger] enable_disable(s, i, j)
}

proof fn lemma_token_end(s: Seq<u8>, i: int)
    requires
        0 <= i <= s.len(),
    ensures
        i <= token_end(s, i) <= s.len(),
    decreases s.len() - i,
{
    if i < s.len() && s[i] != 44 {
        lemma_token_end(s, i + 1);
    }
}

/// The end of the token from `i`.
fn scan_token(s: &[u8], i: usize) -> (r: usize)
    requires
        i <= s@.len(),
    ensures
        r == token_end(s@, i as int),
        i <= r <= s@.len(),
{
    proof {
        lemma_token_end(s@, i as int);
    }
    let mut k: usize = i;
    while k < s.len() && s[k] != 44
        invariant
            i <= k <= s@.len(),
            token_end(s@, i as int) == token_end(s@, k as int),
        decreases s@.len() - k,
    {
        k = k + 1;
    }
    k
}

/// `s[a..ea]` and `s[b..eb]` hold the same bytes.
fn same_bytes(s: &[u8], a: usize, ea: usize, b: usize, eb: usize) -> (r: bool)
    requires
        a <= ea <= s@.len(),
        b <= eb <= s@.len(),
    ensures
        r == (s@.subrange(a as int, ea as int) == s@.subrange(b as int, eb as int)),
{
    if ea - a != eb - b {
        assert(s@.subrange(a as int, ea as int).len() != s@.subrange(b as int, eb as int).len());
        return false;
    }
    let n = ea - a;
    let mut k: usize = 0;
    while k < n
        invariant
            k <= n,
            n == ea - a,
            n == eb - b,
            a <= ea <= s@.len(),
            b <= eb <= s@.len(),
            forall|m: int| 0 <= m < k ==> s@.subrange(a as int, ea as int)[m] == #[trigger] s@.subrange(b as int, eb as int)[m],
        decreases n - k,
    {
        if s[a + k] != s[b + k] {
            assert(s@.subrange(a as int, ea as int)[k as int] != s@.subrange(b as int, eb as int)[k as int]);
            return false;
        }
        k = k + 1;
    }
    assert(s@.subrange(a as int, ea as int) =~= s@.subrange(b as int, eb as int));
    true
}

/// Some token of `s` disables the feature that the token at `i` enables.
fn disabled_later(s: &[u8], i: usize) -> (r: bool)
    requires
        token_start(s@, i as int),
        s@[i as int] == 43,
    ensures
        r == exists|j: int| #[trigger] enable_disable(s@, i as int, j),
{
    let len = s.len();
    assert(i < len);
    let ei = scan_token(s, i + 1);
    let mut j: usize = 0;
    while j < s.len()
        invariant
            j <= s@.len(),
            token_start(s@, i as int),
            s@[i as int] == 43,
            ei == token_end(s@, i + 1),
            i + 1 <= ei <= s@.len(),
            forall|m: int| 0 <= m < j ==> !#[trigger] enable_disable(s@, i as int, m),
        decreases s@.len() - j,
    {
        if (j == 0 || s[j - 1] == 44) && s[j] == 45 {
            let ej = scan_token(s, j + 1);
            if same_bytes(s, i + 1, ei, j + 1, ej) {
                assert(enable_disable(s@, i as int, j as int));
                return true;
            }
        }
        j = j + 1;
    }
    false
}

/// Whether `features` both enables and disables some feature.
pub fn conflicting_features(features: &str) -> (r: bool)
    ensures
        r == has_feature_conflict(encode_utf8(features@)),
{
    let s = features.as_bytes();
    let mut i: usize = 0;
    while i < s.len()
        invariant
            i <= s@.len(),
            s@ == encode_utf8(features@),
            forall|m: int, j: int| 0 <= m < i ==> !#[trigger] enable_disable(s@, m, j),
        decreases s@.len() - i,
    {
        if (i == 0 || s[i - 1] == 44) && s[i] == 43 {
            if disabled_later(s, i) {
                return true;
            }
        }
        i = i + 1;
    }
    false
}

} // verus!
