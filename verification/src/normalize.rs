//! Normalization of a raw input string into a well-formed STUN URI.
//!
//! A string that does not begin with the literal `stun` is taken as a bare
//! `host[:port]` and given the default scheme. The RFC 7064 shorthand
//! separator (`stun:host` rather than `stun://host`) is rewritten, anchored
//! at the start of the string, into the double-slash form that the generic
//! URI grammar expects.

use vstd::prelude::*;

verus! {

/// The normalized form of a raw input string: `stun://` is prepended to a
/// string lacking the `stun` prefix, and an anchored `stun:`/`stuns:`
/// shorthand separator is rewritten to `stun://`/`stuns://`.
pub open spec fn spec_normalize(s: Seq<char>) -> Seq<char> {
    if !"stun"@.is_prefix_of(s) {
        "stun://"@ + s
    } else if "stuns:"@.is_prefix_of(s) && !"stuns://"@.is_prefix_of(s) {
        "stuns://"@ + s.skip(6)
    } else if "stun:"@.is_prefix_of(s) && !"stun://"@.is_prefix_of(s) {
        "stun://"@ + s.skip(5)
    } else {
        s
    }
}

/// Whether `p` is a prefix of `s`.
pub fn str_starts_with(s: &str, p: &str) -> (r: bool)
    ensures
        r == p@.is_prefix_of(s@),
{
    let sl = s.unicode_len();
    let pl = p.unicode_len();
    if pl > sl {
        return false;
    }
    let mut i: usize = 0;
    while i < pl
        invariant
            0 <= i <= pl,
            pl == p@.len(),
            sl == s@.len(),
            pl <= sl,
            forall|j: int| 0 <= j < i ==> s@[j] == p@[j],
        decreases pl - i,
    {
        if s.get_char(i) != p.get_char(i) {
            assert(!p@.is_prefix_of(s@)) by {
                assert(s@.subrange(0, pl as int)[i as int] == s@[i as int]);
            }
            return false;
        }
        i += 1;
    }
    assert(p@ =~= s@.subrange(0, pl as int));
    true
}

/// Whether the two strings hold the same characters.
pub fn str_eq(a: &str, b: &str) -> (r: bool)
    ensures
        r == (a@ == b@),
{
    if a.unicode_len() != b.unicode_len() {
        return false;
    }
    let r = str_starts_with(a, b);
    proof {
        if r {
            assert(a@.subrange(0, b@.len() as int) =~= a@);
        } else if a@ == b@ {
            assert(b@ =~= a@.subrange(0, b@.len() as int));
        }
    }
    r
}

/// Returns the normalized form of the raw input string.
pub fn normalize(s: &str) -> (r: String)
    ensures
        r@ == spec_normalize(s@),
{
    if !str_starts_with(s, "stun") {
        String::from_str("stun://").concat(s)
    } else if str_starts_with(s, "stuns:") && !str_starts_with(s, "stuns://") {
        proof {
            reveal_strlit("stuns:");
        }
        let rest = s.substring_char(6, s.unicode_len());
        proof {
            assert(rest@ =~= s@.skip(6));
        }
        String::from_str("stuns://").concat(rest)
    } else if str_starts_with(s, "stun:") && !str_starts_with(s, "stun://") {
        proof {
            reveal_strlit("stun:");
        }
        let rest = s.substring_char(5, s.unicode_len());
        proof {
            assert(rest@ =~= s@.skip(5));
        }
        String::from_str("stun://").concat(rest)
    } else {
        s.to_owned()
    }
}

/// Normalization is idempotent: normalizing a string a second time changes
/// nothing.
pub proof fn lemma_normalize_idempotent(s: Seq<char>)
    ensures
        spec_normalize(spec_normalize(s)) == spec_normalize(s),
{
    reveal_strlit("stun");
    reveal_strlit("stun:");
    reveal_strlit("stun://");
    reveal_strlit("stuns:");
    reveal_strlit("stuns://");
    let n = spec_normalize(s);
    if !"stun"@.is_prefix_of(s) {
        assert(n == "stun://"@ + s);
        assert("stun"@.is_prefix_of(n)) by {
            assert("stun"@ =~= n.subrange(0, 4));
        }
        assert(!"stuns:"@.is_prefix_of(n)) by {
            assert(n[4] == ':');
            if "stuns:"@.is_prefix_of(n) {
                assert(n.subrange(0, 6)[4] == n[4]);
            }
        }
        assert("stun://"@.is_prefix_of(n)) by {
            assert("stun://"@ =~= n.subrange(0, 7));
        }
    } else if "stuns:"@.is_prefix_of(s) && !"stuns://"@.is_prefix_of(s) {
        assert(n == "stuns://"@ + s.skip(6));
        assert("stun"@.is_prefix_of(n)) by {
            assert("stun"@ =~= n.subrange(0, 4));
        }
        assert("stuns:"@.is_prefix_of(n)) by {
            assert("stuns:"@ =~= n.subrange(0, 6));
        }
        assert("stuns://"@.is_prefix_of(n)) by {
            assert("stuns://"@ =~= n.subrange(0, 8));
        }
        assert(!"stun:"@.is_prefix_of(n)) by {
            assert(n[4] == 's');
            if "stun:"@.is_prefix_of(n) {
                assert(n.subrange(0, 5)[4] == n[4]);
            }
        }
    } else if "stun:"@.is_prefix_of(s) && !"stun://"@.is_prefix_of(s) {
        assert(n == "stun://"@ + s.skip(5));
        assert("stun"@.is_prefix_of(n)) by {
            assert("stun"@ =~= n.subrange(0, 4));
        }
        assert(!"stuns:"@.is_prefix_of(n)) by {
            assert(n[4] == ':');
            if "stuns:"@.is_prefix_of(n) {
                assert(n.subrange(0, 6)[4] == n[4]);
            }
        }
        assert("stun://"@.is_prefix_of(n)) by {
            assert("stun://"@ =~= n.subrange(0, 7));
        }
    }
}

/// The anchored shorthand rewriting agrees with the already-normalized
/// form: `stun:` followed by anything that does not itself begin with `//`
/// normalizes to the same string as `stun://` followed by the same text,
/// and likewise for `stuns:`.
pub proof fn lemma_normalize_shorthand_agrees(rest: Seq<char>)
    requires
        !"//"@.is_prefix_of(rest),
    ensures
        spec_normalize("stun:"@ + rest) == "stun://"@ + rest,
        spec_normalize("stun://"@ + rest) == "stun://"@ + rest,
        spec_normalize("stuns:"@ + rest) == "stuns://"@ + rest,
        spec_normalize("stuns://"@ + rest) == "stuns://"@ + rest,
{
    reveal_strlit("stun");
    reveal_strlit("//");
    reveal_strlit("stun:");
    reveal_strlit("stun://");
    reveal_strlit("stuns:");
    reveal_strlit("stuns://");
    let a = "stun:"@ + rest;
    let b = "stun://"@ + rest;
    assert("stun"@.is_prefix_of(a)) by {
        assert("stun"@ =~= a.subrange(0, 4));
    }
    assert(!"stuns:"@.is_prefix_of(a)) by {
        assert(a[4] == ':');
        if "stuns:"@.is_prefix_of(a) {
            assert(a.subrange(0, 6)[4] == a[4]);
        }
    }
    assert("stun:"@.is_prefix_of(a)) by {
        assert("stun:"@ =~= a.subrange(0, 5));
    }
    assert(!"stun://"@.is_prefix_of(a)) by {
        if "stun://"@.is_prefix_of(a) {
            assert(a.subrange(0, 7)[5] == '/');
            assert(a.subrange(0, 7)[6] == '/');
            assert(rest[0] == '/' && rest[1] == '/');
            assert("//"@ =~= rest.subrange(0, 2));
        }
    }
    assert(spec_normalize(a) == "stun://"@ + a.skip(5));
    assert(a.skip(5) =~= rest);
    assert("stun"@.is_prefix_of(b)) by {
        assert("stun"@ =~= b.subrange(0, 4));
    }
    assert(!"stuns:"@.is_prefix_of(b)) by {
        assert(b[4] == ':');
        if "stuns:"@.is_prefix_of(b) {
            assert(b.subrange(0, 6)[4] == b[4]);
        }
    }
    assert("stun://"@.is_prefix_of(b)) by {
        assert("stun://"@ =~= b.subrange(0, 7));
    }
    assert(spec_normalize(b) == b);

    let c = "stuns:"@ + rest;
    let d = "stuns://"@ + rest;
    assert("stun"@.is_prefix_of(c)) by {
        assert("stun"@ =~= c.subrange(0, 4));
    }
    assert("stuns:"@.is_prefix_of(c)) by {
        assert("stuns:"@ =~= c.subrange(0, 6));
    }
    assert(!"stuns://"@.is_prefix_of(c)) by {
        if "stuns://"@.is_prefix_of(c) {
            assert(c.subrange(0, 8)[6] == '/');
            assert(c.subrange(0, 8)[7] == '/');
            assert(rest[0] == '/' && rest[1] == '/');
            assert("//"@ =~= rest.subrange(0, 2));
        }
    }
    assert(spec_normalize(c) == "stuns://"@ + c.skip(6));
    assert(c.skip(6) =~= rest);
    assert("stun"@.is_prefix_of(d)) by {
        assert("stun"@ =~= d.subrange(0, 4));
    }
    assert("stuns:"@.is_prefix_of(d)) by {
        assert("stuns:"@ =~= d.subrange(0, 6));
    }
    assert("stuns://"@.is_prefix_of(d)) by {
        assert("stuns://"@ =~= d.subrange(0, 8));
    }
    assert(!"stun:"@.is_prefix_of(d)) by {
        assert(d[4] == 's');
        if "stun:"@.is_prefix_of(d) {
            assert(d.subrange(0, 5)[4] == d[4]);
        }
    }
    assert(spec_normalize(d) == d);
}

} // verus!
