//! Destination-number normalization and the credential probe.
//!
//! A raw candidate number is cleansed of blanks and hyphens, matched against
//! the accepted shapes (local `0XXXXXXXXX`, bare international
//! `XXXYYYYYYYYY`, or `+XXXYYYYYYYYY`), and canonicalized: a leading `0`
//! becomes the country prefix `256`, a leading `+` is dropped. Rejected
//! entries produce one advisory diagnostic each and are never sent.

use vstd::prelude::*;
use vstd::string::*;

use crate::models::{ApiRequest, Diagnostic, DiagnosticKind, DiagnosticV};
use crate::text::{
    ascii_digit, blank_char, blank_str, is_ascii_digit, is_blank_char, is_blank_seq, push_char,
};
use crate::transport::Transport;
use crate::wire::{parse_api_response, render_request};
use crate::{probe_unchanged, CommsSDK, SdkError};

verus! {

/// A character the cleansing step keeps: anything but a blank or a hyphen.
pub open spec fn kept_char(c: char) -> bool {
    !is_blank_char(c) && c != '-'
}

/// `s` with every blank and hyphen removed, order kept.
pub open spec fn stripped(s: Seq<char>) -> Seq<char>
    decreases s.len(),
{
    if s.len() == 0 {
        Seq::empty()
    } else if kept_char(s.last()) {
        stripped(s.drop_last()).push(s.last())
    } else {
        stripped(s.drop_last())
    }
}

/// The part of a cleansed candidate after an optional leading `+`.
pub open spec fn body_of(s: Seq<char>) -> Seq<char> {
    if s.len() > 0 && s[0] == '+' {
        s.drop_first()
    } else {
        s
    }
}

/// The accepted shape of a cleansed candidate: an optional leading `+`,
/// then either a single `0` or exactly 3 digits, followed by exactly 9 more
/// digits.
pub open spec fn matches_shape(s: Seq<char>) -> bool {
    let b = body_of(s);
    crate::text::all_digits(b) && ((b.len() == 10 && b[0] == '0') || b.len() == 12)
}

/// Whether a raw candidate is accepted at all.
pub open spec fn accepts(raw: Seq<char>) -> bool {
    matches_shape(stripped(raw))
}

/// Canonical form of a cleansed, accepted candidate: a leading `0` is
/// replaced by the country prefix `256`; a leading `+` is dropped; a bare
/// international number stays as it is.
pub open spec fn canon_of_clean(s: Seq<char>) -> Seq<char> {
    if s.len() > 0 && s[0] == '0' {
        "256"@ + s.drop_first()
    } else if s.len() > 0 && s[0] == '+' {
        s.drop_first()
    } else {
        s
    }
}

/// Canonical form of a raw candidate.
pub open spec fn canon_of(raw: Seq<char>) -> Seq<char> {
    canon_of_clean(stripped(raw))
}

/// The set of canonical numbers a list of raw candidates normalizes to.
pub open spec fn normalize_set(inputs: Seq<Seq<char>>) -> Set<Seq<char>> {
    Set::new(
        |c: Seq<char>|
            exists|i: int|
                0 <= i < inputs.len() && accepts(inputs[i]) && c == #[trigger] canon_of(inputs[i]),
    )
}

/// The diagnostic a single raw candidate provokes, if any: blank candidates
/// are reported as blank, non-matching ones as invalid (carrying the
/// cleansed text, which is what was actually judged).
pub open spec fn diag_of(raw: Seq<char>) -> Option<DiagnosticV> {
    if is_blank_seq(raw) {
        Some(DiagnosticV { kind: DiagnosticKind::BlankNumber, value: raw })
    } else if !matches_shape(stripped(raw)) {
        Some(DiagnosticV { kind: DiagnosticKind::InvalidNumber, value: stripped(raw) })
    } else {
        None
    }
}

/// The diagnostics a list of raw candidates provokes, one per rejected
/// entry, in input order.
pub open spec fn diags_of(inputs: Seq<Seq<char>>) -> Seq<DiagnosticV>
    decreases inputs.len(),
{
    if inputs.len() == 0 {
        Seq::empty()
    } else {
        diags_of(inputs.drop_last()) + match diag_of(inputs.last()) {
            Some(d) => seq![d],
            None => Seq::<DiagnosticV>::empty(),
        }
    }
}

/// The full report for a list: an empty list provokes a single
/// empty-input diagnostic, any other list the per-entry diagnostics.
pub open spec fn report_of(inputs: Seq<Seq<char>>) -> Seq<DiagnosticV> {
    if inputs.len() == 0 {
        seq![DiagnosticV { kind: DiagnosticKind::EmptyInput, value: Seq::empty() }]
    } else {
        diags_of(inputs)
    }
}

/// Views of a sequence of strings.
pub open spec fn string_views(v: Seq<String>) -> Seq<Seq<char>> {
    v.map_values(|s: String| s@)
}

/// Views of a sequence of diagnostics.
pub open spec fn diag_views(v: Seq<Diagnostic>) -> Seq<DiagnosticV> {
    v.map_values(|d: Diagnostic| d@)
}

/// Cleansing keeps a string that has nothing to strip.
pub proof fn lemma_stripped_id(s: Seq<char>)
    requires
        forall|i: int| 0 <= i < s.len() ==> kept_char(#[trigger] s[i]),
    ensures
        stripped(s) == s,
    decreases s.len(),
{
    if s.len() > 0 {
        lemma_stripped_id(s.drop_last());
        assert(stripped(s) =~= s);
    } else {
        assert(stripped(s) =~= s);
    }
}

/// Cleansing a fully blank string leaves nothing.
pub proof fn lemma_stripped_blank(s: Seq<char>)
    requires
        is_blank_seq(s),
    ensures
        stripped(s) == Seq::<char>::empty(),
    decreases s.len(),
{
    if s.len() > 0 {
        assert(is_blank_seq(s.drop_last()));
        lemma_stripped_blank(s.drop_last());
    }
    assert(stripped(s) =~= Seq::<char>::empty());
}

/// The corner in which canonicalization is not idempotent: a cleansed
/// candidate whose body starts with `0` while it also carries a `+` or is
/// already 12 characters long. Its canonical form starts with `0` or grows
/// past 12 digits, so a second normalization treats it differently.
pub open spec fn zero_body_corner(s: Seq<char>) -> bool {
    (s.len() > 1 && s[0] == '+' && s[1] == '0') || (s.len() == 12 && s[0] == '0')
}

/// Away from the corner, the canonical form of an accepted candidate is
/// itself accepted and is its own canonical form.
pub proof fn lemma_canon_fixedpoint(raw: Seq<char>)
    requires
        accepts(raw),
        !zero_body_corner(stripped(raw)),
    ensures
        accepts(canon_of(raw)),
        canon_of(canon_of(raw)) == canon_of(raw),
{
    reveal_strlit("256");
    let s = stripped(raw);
    let c = canon_of_clean(s);
    let b = body_of(s);
    if s[0] == '0' {
        // local form: s is 0XXXXXXXXX, c is 256XXXXXXXXX
        assert(b =~= s);
        assert(c =~= "256"@ + s.drop_first());
        assert(c.len() == 12);
        assert(c[0] == '2' && c[1] == '5' && c[2] == '6');
        assert(forall|i: int| 0 <= i < c.len() ==> is_ascii_digit(#[trigger] c[i]));
        assert(forall|i: int| 0 <= i < c.len() ==> kept_char(#[trigger] c[i]));
        lemma_stripped_id(c);
        assert(body_of(c) =~= c);
        assert(matches_shape(c));
        assert(canon_of_clean(c) =~= c);
    } else if s[0] == '+' {
        // international form with +: c is the 12-digit body
        assert(b =~= s.drop_first());
        assert(c =~= b);
        assert(b.len() == 12);
        assert(b[0] != '0');
        assert(forall|i: int| 0 <= i < c.len() ==> kept_char(#[trigger] c[i]));
        lemma_stripped_id(c);
        assert(body_of(c) =~= c);
        assert(matches_shape(c));
        assert(canon_of_clean(c) =~= c);
    } else {
        // bare international form: c is s itself
        assert(b =~= s);
        assert(c =~= s);
        assert(s.len() == 12);
        assert(forall|i: int| 0 <= i < c.len() ==> kept_char(#[trigger] c[i]));
        lemma_stripped_id(c);
        assert(body_of(c) =~= c);
        assert(matches_shape(c));
        assert(canon_of_clean(c) =~= c);
    }
}

/// Normalization is idempotent: feeding any enumeration of its result back
/// in yields the same set again, provided no accepted input fell in the
/// `zero_body_corner`.
pub proof fn lemma_normalize_idempotent(inputs: Seq<Seq<char>>, outs: Seq<Seq<char>>)
    requires
        outs.to_set() == normalize_set(inputs),
        forall|i: int|
            0 <= i < inputs.len() && accepts(#[trigger] inputs[i]) ==> !zero_body_corner(
                stripped(inputs[i]),
            ),
    ensures
        normalize_set(outs) == normalize_set(inputs),
{
    assert forall|c: Seq<char>| normalize_set(outs).contains(c) implies normalize_set(
        inputs,
    ).contains(c) by {
        let j = choose|j: int|
            0 <= j < outs.len() && accepts(outs[j]) && c == #[trigger] canon_of(outs[j]);
        assert(outs.to_set().contains(outs[j]));
        assert(normalize_set(inputs).contains(outs[j]));
        let i = choose|i: int|
            0 <= i < inputs.len() && accepts(inputs[i]) && outs[j] == #[trigger] canon_of(
                inputs[i],
            );
        lemma_canon_fixedpoint(inputs[i]);
        assert(canon_of(outs[j]) == outs[j]);
    };
    assert forall|c: Seq<char>| normalize_set(inputs).contains(c) implies normalize_set(
        outs,
    ).contains(c) by {
        let i = choose|i: int|
            0 <= i < inputs.len() && accepts(inputs[i]) && c == #[trigger] canon_of(inputs[i]);
        lemma_canon_fixedpoint(inputs[i]);
        assert(outs.to_set().contains(c));
        let j = choose|j: int| 0 <= j < outs.len() && outs[j] == c;
        assert(accepts(outs[j]) && canon_of(outs[j]) == c);
    };
    assert(normalize_set(outs) =~= normalize_set(inputs));
}

/// Cleanse one candidate: drop every blank and hyphen.
fn strip_string(s: &str) -> (r: String)
    ensures
        r@ == stripped(s@),
{
    let n: usize = s.unicode_len();
    let mut out: String = String::new();
    let mut i: usize = 0;
    while i < n
        invariant
            n == s@.len(),
            i <= n,
            out@ == stripped(s@.take(i as int)),
        decreases n - i,
    {
        let c: char = s.get_char(i);
        proof {
            assert(s@.take(i as int + 1).drop_last() =~= s@.take(i as int));
            assert(s@.take(i as int + 1).last() == s@[i as int]);
        }
        if !blank_char(c) && c != '-' {
            push_char(&mut out, c);
        }
        i = i + 1;
    }
    proof {
        assert(s@.take(n as int) =~= s@);
    }
    out
}

/// Decide whether a cleansed candidate has the accepted shape.
fn shape_ok(s: &str) -> (r: bool)
    ensures
        r == matches_shape(s@),
{
    let n: usize = s.unicode_len();
    let start: usize = if n > 0 && s.get_char(0) == '+' {
        1
    } else {
        0
    };
    proof {
        assert(body_of(s@) =~= s@.subrange(start as int, n as int));
    }
    let blen: usize = n - start;
    if !(blen == 10 || blen == 12) {
        return false;
    }
    let mut i: usize = start;
    while i < n
        invariant
            n == s@.len(),
            start <= i <= n,
            start <= 1,
            body_of(s@) == s@.subrange(start as int, n as int),
            forall|j: int| start <= j < i ==> is_ascii_digit(#[trigger] s@[j]),
        decreases n - i,
    {
        if !ascii_digit(s.get_char(i)) {
            proof {
                assert(!is_ascii_digit(body_of(s@)[i - start]));
            }
            return false;
        }
        i = i + 1;
    }
    assert(forall|j: int|
        0 <= j < body_of(s@).len() ==> is_ascii_digit(#[trigger] body_of(s@)[j]));
    if blen == 10 {
        let c0: char = s.get_char(start);
        proof {
            assert(body_of(s@)[0] == s@[start as int]);
        }
        c0 == '0'
    } else {
        true
    }
}

/// Canonicalize a cleansed, accepted candidate.
fn canonicalize(clean: &str) -> (r: String)
    ensures
        r@ == canon_of_clean(clean@),
{
    let n: usize = clean.unicode_len();
    if n > 0 && clean.get_char(0) == '0' {
        let mut out: String = String::from_str("256");
        let rest: &str = clean.substring_char(1, n);
        out.append(rest);
        proof {
            assert(clean@.drop_first() =~= clean@.subrange(1, n as int));
        }
        out
    } else if n > 0 && clean.get_char(0) == '+' {
        let rest: &str = clean.substring_char(1, n);
        proof {
            assert(clean@.drop_first() =~= clean@.subrange(1, n as int));
        }
        rest.to_owned()
    } else {
        clean.to_owned()
    }
}

/// Whether some element of `v` has the same text as `x`.
fn vec_contains_str(v: &Vec<String>, x: &String) -> (r: bool)
    ensures
        r == (exists|i: int| 0 <= i < v@.len() && (#[trigger] v@[i])@ == x@),
{
    let n: usize = v.len();
    let mut i: usize = 0;
    while i < n
        invariant
            n == v@.len(),
            i <= n,
            forall|j: int| 0 <= j < i ==> (#[trigger] v@[j])@ != x@,
        decreases n - i,
    {
        if v[i].eq(x) {
            return true;
        }
        i = i + 1;
    }
    false
}

/// Normalize a list of raw candidate numbers and report on the rejects.
///
/// The first component enumerates, without duplicates, exactly the set
/// `normalize_set` of the inputs; the second carries one diagnostic per
/// rejected entry (or a single empty-input diagnostic for an empty list).
/// No input, however ill-formed, makes this fail.
pub fn normalize_report(numbers: &Vec<String>) -> (r: (Vec<String>, Vec<Diagnostic>))
    ensures
        string_views(r.0@).to_set() == normalize_set(string_views(numbers@)),
        forall|a: int, b: int|
            0 <= a < b < r.0@.len() ==> (#[trigger] r.0@[a])@ != (#[trigger] r.0@[b])@,
        diag_views(r.1@) == report_of(string_views(numbers@)),
{
    let ghost inputs = string_views(numbers@);
    let n: usize = numbers.len();
    let mut out: Vec<String> = Vec::new();
    let mut diags: Vec<Diagnostic> = Vec::new();
    if n == 0 {
        diags.push(
            Diagnostic { kind: DiagnosticKind::EmptyInput, value: String::new() },
        );
        proof {
            assert(diag_views(diags@) =~= report_of(inputs));
            assert(string_views(out@).to_set() =~= normalize_set(inputs));
        }
        return (out, diags);
    }
    let mut k: usize = 0;
    while k < n
        invariant
            n == numbers@.len(),
            n > 0,
            k <= n,
            inputs == string_views(numbers@),
            diag_views(diags@) == diags_of(inputs.take(k as int)),
            forall|a: int, b: int|
                0 <= a < b < out@.len() ==> (#[trigger] out@[a])@ != (#[trigger] out@[b])@,
            forall|a: int|
                0 <= a < out@.len() ==> exists|i: int|
                    0 <= i < k && accepts(inputs[i]) && (#[trigger] out@[a])@ == canon_of(
                        inputs[i],
                    ),
            forall|i: int|
                0 <= i < k && accepts(#[trigger] inputs[i]) ==> exists|a: int|
                    0 <= a < out@.len() && (#[trigger] out@[a])@ == canon_of(inputs[i]),
        decreases n - k,
    {
        let ghost prev_diags = diags@;
        let ghost prev_out = out@;
        let raw: &String = &numbers[k];
        proof {
            assert(inputs[k as int] == raw@);
            assert(inputs.take(k as int + 1).drop_last() =~= inputs.take(k as int));
            assert(inputs.take(k as int + 1).last() == inputs[k as int]);
        }
        if blank_str(raw.as_str()) {
            proof {
                lemma_stripped_blank(raw@);
                assert(!accepts(inputs[k as int]));
            }
            diags.push(Diagnostic { kind: DiagnosticKind::BlankNumber, value: raw.clone() });
            proof {
                assert(diag_views(diags@) =~= diags_of(inputs.take(k as int + 1)));
            }
        } else {
            let clean: String = strip_string(raw.as_str());
            if shape_ok(clean.as_str()) {
                let canon: String = canonicalize(clean.as_str());
                proof {
                    assert(accepts(inputs[k as int]));
                    assert(canon@ == canon_of(inputs[k as int]));
                    assert(diag_views(diags@) =~= diags_of(inputs.take(k as int + 1)));
                }
                if !vec_contains_str(&out, &canon) {
                    out.push(canon);
                    proof {
                        assert(forall|a: int|
                            0 <= a < prev_out.len() ==> out@[a] == prev_out[a]);
                        assert((out@[out@.len() - 1])@ == canon_of(inputs[k as int]));
                    }
                }
            } else {
                proof {
                    assert(!accepts(inputs[k as int]));
                    assert(!is_blank_seq(inputs[k as int]));
                }
                diags.push(Diagnostic { kind: DiagnosticKind::InvalidNumber, value: clean });
                proof {
                    assert(diag_views(diags@) =~= diags_of(inputs.take(k as int + 1)));
                }
            }
        }
        k = k + 1;
    }
    proof {
        assert(inputs.take(n as int) =~= inputs);
        assert(string_views(out@).to_set() =~= normalize_set(inputs)) by {
            assert forall|c: Seq<char>| string_views(out@).to_set().contains(c) implies
                normalize_set(inputs).contains(c) by {
                let a = choose|a: int| 0 <= a < string_views(out@).len() && string_views(out@)[a] == c;
                assert((out@[a])@ == c);
            };
            assert forall|c: Seq<char>| normalize_set(inputs).contains(c) implies string_views(
                out@,
            ).to_set().contains(c) by {
                let i = choose|i: int|
                    0 <= i < inputs.len() && accepts(inputs[i]) && c == #[trigger] canon_of(
                        inputs[i],
                    );
                let a = choose|a: int|
                    0 <= a < out@.len() && (#[trigger] out@[a])@ == canon_of(inputs[i]);
                assert(string_views(out@)[a] == c);
                assert(string_views(out@).contains(c));
            };
        };
    }
    (out, diags)
}

/// Normalize a list of raw candidate numbers, dropping the report.
///
/// This is the bare set: callers that want the per-entry diagnostics use
/// [`normalize_report`]; the session records them itself.
pub fn validate_numbers(numbers: Vec<String>) -> (r: Vec<String>)
    ensures
        string_views(r@).to_set() == normalize_set(string_views(numbers@)),
        forall|a: int, b: int|
            0 <= a < b < r@.len() ==> (#[trigger] r@[a])@ != (#[trigger] r@[b])@,
{
    let pair = normalize_report(&numbers);
    pair.0
}

/// Decide whether the session's credentials pass the gateway's probe.
///
/// Blank credentials (username or API key empty after trimming) are the
/// one hard error, found before any network attempt. Every other outcome
/// is a plain answer: `Ok(true)` only for a reply that parses with status
/// `OK`; a refusing, unreachable or unintelligible gateway is `Ok(false)`,
/// so that a caller can tell bad input from bad connectivity.
pub fn validate_credentials<T: Transport>(sdk: &mut CommsSDK<T>) -> (r: Result<bool, SdkError>)
    ensures
        (r matches Err(_)) <==> (is_blank_seq(old(sdk)@.user_name) || is_blank_seq(
            old(sdk)@.api_key,
        )),
        r matches Err(e) ==> e == SdkError::Config && *final(sdk) == *old(sdk),
        r matches Ok(b) ==> probe_unchanged(old(sdk)@, final(sdk)@),
{
    if blank_str(sdk.api_key.as_str()) || blank_str(sdk.user_name.as_str()) {
        return Err(SdkError::Config);
    }
    Ok(is_valid_credential(sdk))
}

/// The probe itself: a deliberate reuse of the `Balance` method, since the
/// protocol has no dedicated authentication endpoint. True exactly when
/// the reply parses and reports status `OK`.
fn is_valid_credential<T: Transport>(sdk: &mut CommsSDK<T>) -> (r: bool)
    ensures
        probe_unchanged(old(sdk)@, final(sdk)@),
{
    let request: ApiRequest = ApiRequest::balance_request(
        sdk.user_name.as_str(),
        sdk.api_key.as_str(),
    );
    let body = render_request(&request);
    let url = sdk.api_url.clone();
    match sdk.transport.post_json(url.as_str(), body.as_str()) {
        Err(_) => false,
        Ok(reply) => match parse_api_response(reply.as_str()) {
            Ok(resp) => resp.status.is_ok(),
            Err(_) => false,
        },
    }
}

} // verus!
