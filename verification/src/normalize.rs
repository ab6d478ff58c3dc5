//! Wire-format normalization of record contents, per DNS record type.
//!
//! The backend requires every name-valued record content (CNAME, MX, NS, ...)
//! to carry a trailing dot; A/AAAA/TXT contents pass through unchanged; and
//! HTTPS/SVCB contents are normalized to `<priority> <target> [params]`, with
//! a numeric SvcPriority made explicit and the target name fully qualified.

use crate::strutil::{
    find_char, find_char_spec, is_space_char, is_u16_numeral, is_u16_numeral_str,
    lemma_find_char, lemma_find_char_is_first, lemma_find_char_none, lemma_numeral_no_ws,
    lemma_one_is_numeral, lemma_trim_id, lemma_trim_props, str_eq, trim, trim_spec,
};
use vstd::prelude::*;
use vstd::string::*;

verus! {

/// True if the name already ends with a trailing dot.
pub open spec fn ends_with_dot(s: Seq<char>) -> bool {
    s.len() > 0 && s.last() == '.'
}

/// A fully-qualified form of a name: the name itself if it already ends with
/// a dot, otherwise the name with a dot appended.
pub open spec fn ensure_fqdn_spec(s: Seq<char>) -> Seq<char> {
    if ends_with_dot(s) {
        s
    } else {
        s.push('.')
    }
}

/// Append a trailing dot unless the name already ends with one.
pub fn ensure_fqdn(name: &str) -> (r: String)
    ensures
        r@ == ensure_fqdn_spec(name@),
{
    let n = name.unicode_len();
    if n > 0 && name.get_char(n - 1) == '.' {
        String::from_str(name)
    } else {
        proof {
            reveal_strlit(".");
        }
        let r = String::from_str(name).concat(".");
        proof {
            assert(r@ =~= name@.push('.'));
        }
        r
    }
}

/// A fully-qualified name always ends with a dot.
pub proof fn lemma_fqdn_ends_with_dot(s: Seq<char>)
    ensures
        ends_with_dot(ensure_fqdn_spec(s)),
{
    if !ends_with_dot(s) {
        assert(s.push('.').last() == '.');
    }
}

/// Qualifying a name twice is the same as qualifying it once.
pub proof fn lemma_fqdn_idempotent(s: Seq<char>)
    ensures
        ensure_fqdn_spec(ensure_fqdn_spec(s)) == ensure_fqdn_spec(s),
{
    lemma_fqdn_ends_with_dot(s);
}

/// Qualifying a name without spaces yields a name without spaces.
pub proof fn lemma_fqdn_no_space(s: Seq<char>)
    requires
        forall|j: int| 0 <= j < s.len() ==> s[j] != ' ',
    ensures
        forall|j: int|
            0 <= j < ensure_fqdn_spec(s).len() ==> ensure_fqdn_spec(s)[j] != ' ',
{
    if !ends_with_dot(s) {
        assert forall|j: int| 0 <= j < s.push('.').len() implies s.push('.')[j] != ' ' by {
            if j < s.len() {
                assert(s.push('.')[j] == s[j]);
            } else {
                assert(s.push('.')[j] == '.');
            }
        }
    }
}

// ─── HTTPS / SVCB normalization ──────────────────────────────────────────────

/// Does the (already trimmed) content start with a `u16` SvcPriority followed
/// by a space? This mirrors splitting into at most three space-separated
/// fields and parsing the first as a `u16`: a second field exists exactly when
/// the string contains a space.
pub open spec fn https_has_priority(s: Seq<char>) -> bool {
    match find_char_spec(s, ' ') {
        None => false,
        Some(i) => is_u16_numeral(s.take(i)),
    }
}

/// Rebuild `<priority> <target> [params]` from a content whose first field is
/// the priority: the target (second field) is fully qualified, and any
/// remaining text is kept verbatim.
pub open spec fn https_rebuild(s: Seq<char>) -> Seq<char>
    recommends
        find_char_spec(s, ' ') is Some,
{
    match find_char_spec(s, ' ') {
        None => s,
        Some(i) => {
            let p = s.take(i);
            let r = s.skip(i + 1);
            match find_char_spec(r, ' ') {
                None => p + seq![' '] + ensure_fqdn_spec(r),
                Some(j) => p + seq![' '] + ensure_fqdn_spec(r.take(j)) + seq![' '] + r.skip(j + 1),
            }
        },
    }
}

/// The normalized form of an HTTPS/SVCB record content: trim it, prepend
/// priority `1` if the first space-separated field is not a `u16`, then
/// rebuild with the target name fully qualified.
pub open spec fn normalise_https_target_spec(t: Seq<char>) -> Seq<char> {
    let s = trim_spec(t);
    if https_has_priority(s) {
        https_rebuild(s)
    } else {
        https_rebuild(seq!['1', ' '] + s)
    }
}

/// Normalize an HTTPS/SVCB record content to `<priority> <target> [params]`.
pub fn normalise_https_target(target: &str) -> (r: String)
    ensures
        r@ == normalise_https_target_spec(target@),
{
    let t = trim(target);
    let pri_opt = find_char(t, ' ');
    let has_pri: bool = match pri_opt {
        None => false,
        Some(i) => {
            proof {
                lemma_find_char(t@, ' ');
            }
            let field = t.substring_char(0, i);
            proof {
                assert(field@ =~= t@.take(i as int));
            }
            is_u16_numeral_str(field)
        },
    };
    let s: String = if has_pri {
        String::from_str(t)
    } else {
        proof {
            reveal_strlit("1 ");
        }
        let s = String::from_str("1 ").concat(t);
        proof {
            assert(s@ =~= seq!['1', ' '] + t@);
        }
        s
    };
    let i: usize = if has_pri {
        match pri_opt {
            Some(i) => i,
            None => 1,
        }
    } else {
        proof {
            assert(s@[0] == '1');
            assert(s@[1] == ' ');
            lemma_find_char_is_first(s@, ' ', 1);
        }
        1
    };
    proof {
        assert(find_char_spec(s@, ' ') == Some(i as int));
        lemma_find_char(s@, ' ');
    }
    let sref = s.as_str();
    let n = sref.unicode_len();
    let p = sref.substring_char(0, i);
    let rr = sref.substring_char(i + 1, n);
    proof {
        assert(p@ =~= s@.take(i as int));
        assert(rr@ =~= s@.skip(i as int + 1));
    }
    let result: String = match find_char(rr, ' ') {
        None => {
            let fq = ensure_fqdn(rr);
            proof {
                reveal_strlit(" ");
            }
            let out = String::from_str(p).concat(" ").concat(fq.as_str());
            proof {
                assert(out@ =~= p@ + seq![' '] + fq@);
            }
            out
        },
        Some(j) => {
            proof {
                lemma_find_char(rr@, ' ');
            }
            let m = rr.unicode_len();
            let nm = rr.substring_char(0, j);
            let rest = rr.substring_char(j + 1, m);
            proof {
                assert(nm@ =~= rr@.take(j as int));
                assert(rest@ =~= rr@.skip(j as int + 1));
            }
            let fq = ensure_fqdn(nm);
            proof {
                reveal_strlit(" ");
            }
            let out = String::from_str(p).concat(" ").concat(fq.as_str()).concat(" ").concat(rest);
            proof {
                assert(out@ =~= p@ + seq![' '] + fq@ + seq![' '] + rest@);
            }
            out
        },
    };
    result
}

// ─── dispatch per record type ────────────────────────────────────────────────

/// The normalized content for a record of type `rt`: A/AAAA/TXT contents pass
/// through, HTTPS contents get the SVCB normalization, and every other type
/// is name-valued and gets a trailing dot.
pub open spec fn normalise_target_spec(rt: Seq<char>, t: Seq<char>) -> Seq<char> {
    if rt == "A"@ || rt == "AAAA"@ || rt == "TXT"@ {
        t
    } else if rt == "HTTPS"@ {
        normalise_https_target_spec(t)
    } else {
        ensure_fqdn_spec(t)
    }
}

/// Normalize a record content value for the backend's wire format, keyed on
/// the record type.
pub fn normalise_target(record_type: &str, target: &str) -> (r: String)
    ensures
        r@ == normalise_target_spec(record_type@, target@),
{
    if str_eq(record_type, "A") || str_eq(record_type, "AAAA") || str_eq(record_type, "TXT") {
        String::from_str(target)
    } else if str_eq(record_type, "HTTPS") {
        normalise_https_target(target)
    } else {
        ensure_fqdn(target)
    }
}

// ─── laws ────────────────────────────────────────────────────────────────────

/// For A, AAAA and TXT records, normalization is the identity.
pub proof fn lemma_normalise_identity_types(rt: Seq<char>, t: Seq<char>)
    requires
        rt == "A"@ || rt == "AAAA"@ || rt == "TXT"@,
    ensures
        normalise_target_spec(rt, t) == t,
{
}

/// For every name-valued record type (anything but A, AAAA, TXT and HTTPS),
/// the normalized content ends with a trailing dot.
pub proof fn lemma_normalise_name_valued_fqdn(rt: Seq<char>, t: Seq<char>)
    requires
        rt != "A"@,
        rt != "AAAA"@,
        rt != "TXT"@,
        rt != "HTTPS"@,
    ensures
        ends_with_dot(normalise_target_spec(rt, t)),
{
    lemma_fqdn_ends_with_dot(t);
}

/// HTTPS/SVCB normalization is idempotent: normalizing an already-normalized
/// content returns it unchanged.
pub proof fn lemma_https_normalise_idempotent(t: Seq<char>)
    ensures
        normalise_https_target_spec(normalise_https_target_spec(t))
            == normalise_https_target_spec(t),
{
    let tr = trim_spec(t);
    lemma_trim_props(t);
    let s: Seq<char> = if https_has_priority(tr) {
        tr
    } else {
        seq!['1', ' '] + tr
    };
    let i: int;
    if https_has_priority(tr) {
        i = find_char_spec(tr, ' ')->Some_0;
        lemma_find_char(tr, ' ');
    } else {
        assert(s[0] == '1');
        assert(s[1] == ' ');
        lemma_find_char_is_first(s, ' ', 1);
        i = 1;
        lemma_one_is_numeral();
        assert(s.take(1) =~= seq!['1']);
    }
    assert(find_char_spec(s, ' ') == Some(i));
    let p = s.take(i);
    assert(is_u16_numeral(p));
    lemma_numeral_no_ws(p);
    let r0 = s.skip(i + 1);
    // r0 is empty or ends with a non-whitespace character
    assert(r0.len() == 0 || !is_space_char(r0.last())) by {
        if https_has_priority(tr) {
            assert(tr[i] == ' ');
            assert(tr.len() > 0);
            assert(!is_space_char(tr.last()));
            assert(i < tr.len() - 1) by {
                if i == tr.len() - 1 {
                    assert(tr.last() == ' ');
                }
            }
            if r0.len() > 0 {
                assert(r0.last() == tr.last());
            }
        } else {
            if tr.len() > 0 {
                assert(r0 =~= tr);
            }
        }
    }
    let out = https_rebuild(s);
    assert(out == normalise_https_target_spec(t));
    lemma_find_char(r0, ' ');
    match find_char_spec(r0, ' ') {
        None => {
            let f = ensure_fqdn_spec(r0);
            assert(out == p + seq![' '] + f);
            lemma_fqdn_ends_with_dot(r0);
            lemma_fqdn_no_space(r0);
            lemma_fqdn_idempotent(r0);
            lemma_rebuild_form(p, f, Seq::empty(), false);
        },
        Some(j) => {
            let nm = r0.take(j);
            let rest = r0.skip(j + 1);
            let f = ensure_fqdn_spec(nm);
            assert(out == p + seq![' '] + f + seq![' '] + rest);
            assert(out =~= p + seq![' '] + f + (seq![' '] + rest));
            lemma_fqdn_ends_with_dot(nm);
            lemma_fqdn_no_space(nm);
            lemma_fqdn_idempotent(nm);
            // rest is nonempty and ends with the non-whitespace last char of r0
            assert(rest.len() > 0) by {
                assert(r0[j] == ' ');
                if j == r0.len() - 1 {
                    assert(is_space_char(r0.last()));
                }
            }
            assert(rest.last() == r0.last());
            lemma_rebuild_form(p, f, rest, true);
        },
    }
}

/// A content of the shape `p + " " + f` (or `p + " " + f + " " + rest`) where
/// `p` is a `u16` numeral without whitespace, `f` is a space-free name ending
/// in a dot, and `rest` is empty or ends in non-whitespace, re-normalizes to
/// itself.
proof fn lemma_rebuild_form(p: Seq<char>, f: Seq<char>, rest: Seq<char>, with_rest: bool)
    requires
        is_u16_numeral(p),
        forall|k: int| 0 <= k < f.len() ==> f[k] != ' ',
        ends_with_dot(f),
        ensure_fqdn_spec(f) == f,
        !with_rest ==> rest.len() == 0,
        with_rest ==> rest.len() > 0 && !is_space_char(rest.last()),
    ensures
        normalise_https_target_spec(
            if with_rest {
                p + seq![' '] + f + (seq![' '] + rest)
            } else {
                p + seq![' '] + f
            },
        ) == if with_rest {
            p + seq![' '] + f + (seq![' '] + rest)
        } else {
            p + seq![' '] + f
        },
{
    lemma_numeral_no_ws(p);
    let out: Seq<char> = if with_rest {
        p + seq![' '] + f + (seq![' '] + rest)
    } else {
        p + seq![' '] + f
    };
    // out is already trimmed: first char from p, last char '.' or rest's last
    assert(out[0] == p[0]);
    assert(!is_space_char(out[0]));
    if with_rest {
        assert(out.last() == rest.last());
    } else {
        assert(out.last() == f.last());
        assert(out.last() == '.');
    }
    lemma_trim_id(out);
    // the first space of out sits right after p
    assert(out[p.len() as int] == ' ');
    assert forall|k: int| 0 <= k < p.len() implies out[k] != ' ' by {
        assert(out[k] == p[k]);
    }
    lemma_find_char_is_first(out, ' ', p.len() as int);
    assert(out.take(p.len() as int) =~= p);
    assert(https_has_priority(out));
    // rebuilding out reproduces it
    let r = out.skip(p.len() as int + 1);
    if with_rest {
        assert(r =~= f + (seq![' '] + rest));
        assert(r[f.len() as int] == ' ');
        assert forall|k: int| 0 <= k < f.len() implies r[k] != ' ' by {
            assert(r[k] == f[k]);
        }
        lemma_find_char_is_first(r, ' ', f.len() as int);
        assert(r.take(f.len() as int) =~= f);
        assert(r.skip(f.len() as int + 1) =~= rest);
        assert(https_rebuild(out) == p + seq![' '] + ensure_fqdn_spec(f) + seq![' '] + rest);
        assert(https_rebuild(out) =~= out);
    } else {
        assert(r =~= f);
        assert forall|k: int| 0 <= k < r.len() implies r[k] != ' ' by {
            assert(r[k] == f[k]);
        }
        lemma_find_char_none(r, ' ');
        assert(https_rebuild(out) == p + seq![' '] + ensure_fqdn_spec(r));
        assert(ensure_fqdn_spec(r) == r);
        assert(https_rebuild(out) =~= out);
    }
    assert(normalise_https_target_spec(out) == https_rebuild(out));
}

/// Normalization is idempotent for every record type.
pub proof fn lemma_normalise_target_idempotent(rt: Seq<char>, t: Seq<char>)
    ensures
        normalise_target_spec(rt, normalise_target_spec(rt, t)) == normalise_target_spec(rt, t),
{
    if rt == "A"@ || rt == "AAAA"@ || rt == "TXT"@ {
    } else if rt == "HTTPS"@ {
        lemma_https_normalise_idempotent(t);
    } else {
        lemma_fqdn_idempotent(t);
    }
}

} // verus!
