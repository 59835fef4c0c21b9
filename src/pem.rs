//! PEM envelopes: the base64 body between the first `-----BEGIN` line and
//! the next `-----END` line. Only that first block is read; anything after
//! its `-----END` line is ignored.

use crate::encoding::{base64_std_of, decode_base64_std, lemma_base64_injective};
use crate::error::PolishApiError;
use crate::text::chars_of;
use vstd::prelude::*;

verus! {

broadcast use Seq::lemma_flatten_push;

/// The pieces of `t` between line feeds, as `t.split('\n')` yields them.
pub open spec fn split_lines(t: Seq<char>) -> Seq<Seq<char>>
    decreases t.len(),
{
    if t.len() == 0 {
        seq![Seq::empty()]
    } else {
        let p = split_lines(t.drop_last());
        if t.last() == '\n' {
            p.push(Seq::empty())
        } else {
            p.update(p.len() - 1, p.last().push(t.last()))
        }
    }
}

/// A line without the carriage return of a CRLF line ending.
pub open spec fn strip_cr(l: Seq<char>) -> Seq<char> {
    if l.len() > 0 && l.last() == '\r' {
        l.drop_last()
    } else {
        l
    }
}

pub open spec fn starts_with(l: Seq<char>, p: Seq<char>) -> bool {
    p.len() <= l.len() && l.subrange(0, p.len() as int) == p
}

pub open spec fn begin_marker() -> Seq<char> {
    seq!['-', '-', '-', '-', '-', 'B', 'E', 'G', 'I', 'N']
}

pub open spec fn end_marker() -> Seq<char> {
    seq!['-', '-', '-', '-', '-', 'E', 'N', 'D']
}

/// The index of the first line at or after `from` that starts with `m`, or
/// the number of lines where there is none.
pub open spec fn first_line_with(ls: Seq<Seq<char>>, from: int, m: Seq<char>) -> int
    decreases ls.len() - from,
{
    if from < 0 || from >= ls.len() {
        ls.len() as int
    } else if starts_with(ls[from], m) {
        from
    } else {
        first_line_with(ls, from + 1, m)
    }
}

/// The body of the first PEM block of `t`: the lines strictly between the
/// first line starting with `-----BEGIN` and the next line starting with
/// `-----END`, joined without their line endings. `None` where either
/// delimiter is missing.
pub open spec fn pem_body_of(t: Seq<char>) -> Option<Seq<char>> {
    let ls = split_lines(t);
    let b = first_line_with(ls, 0, begin_marker());
    let e = first_line_with(ls, b + 1, end_marker());
    if b < ls.len() && e < ls.len() {
        Some(ls.subrange(b + 1, e).map_values(|l: Seq<char>| strip_cr(l)).flatten())
    } else {
        None
    }
}

/// The DER bytes of the first PEM block of `t`: its body, base64-decoded.
/// `None` where a delimiter is missing or the body is not base64.
pub open spec fn pem_der_of(t: Seq<char>) -> Option<Seq<u8>> {
    match pem_body_of(t) {
        Some(body) => if exists|b: Seq<u8>| base64_std_of(b) == body {
            Some(choose|b: Seq<u8>| base64_std_of(b) == body)
        } else {
            None
        },
        None => None,
    }
}

/// The PEM text that wraps `der`: a `-----BEGIN` line, the base64 body,
/// and an `-----END` line yield `der` back, whatever the labels and however
/// the body is broken into lines.
pub proof fn law_pem_reencoding(t: Seq<char>, der: Seq<u8>)
    requires
        pem_body_of(t) == Some(base64_std_of(der)),
    ensures
        pem_der_of(t) == Some(der),
{
    let c = choose|b: Seq<u8>| base64_std_of(b) == base64_std_of(der);
    lemma_base64_injective(c, der, false, true);
}

proof fn lemma_no_line_with(ls: Seq<Seq<char>>, from: int, m: Seq<char>)
    requires
        0 <= from,
        forall|i: int| from <= i < ls.len() ==> !starts_with(#[trigger] ls[i], m),
    ensures
        first_line_with(ls, from, m) == ls.len(),
    decreases ls.len() - from,
{
    if from < ls.len() {
        lemma_no_line_with(ls, from + 1, m);
    }
}

/// A text with no line starting with `-----BEGIN`, or whose PEM body is not
/// base64, yields no DER bytes.
pub proof fn law_pem_rejections(t: Seq<char>)
    ensures
        (forall|i: int| 0 <= i < split_lines(t).len() ==> !starts_with(#[trigger] split_lines(t)[i], begin_marker()))
            ==> pem_der_of(t) is None,
        (pem_body_of(t) matches Some(body) && !exists|b: Seq<u8>| base64_std_of(b) == body)
            ==> pem_der_of(t) is None,
{
    let ls = split_lines(t);
    if forall|i: int| 0 <= i < ls.len() ==> !starts_with(#[trigger] ls[i], begin_marker()) {
        lemma_no_line_with(ls, 0, begin_marker());
    }
}

/// The pieces of `t` between line feeds.
fn lines_of(t: &str) -> (ls: Vec<Vec<char>>)
    ensures
        ls.deep_view() == split_lines(t@),
{
    let cs = chars_of(t);
    let n = cs.len();
    let mut done: Vec<Vec<char>> = Vec::new();
    let mut cur: Vec<char> = Vec::new();
    let mut i: usize = 0;
    while i < n
        invariant
            n == cs@.len(),
            cs@ == t@,
            i <= n,
            split_lines(cs@.subrange(0, i as int)) == done.deep_view().push(cur@),
        decreases n - i,
    {
        let c = cs[i];
        let ghost prev = done.deep_view().push(cur@);
        proof {
            let pre = cs@.subrange(0, i + 1);
            assert(pre.drop_last() =~= cs@.subrange(0, i as int));
            assert(pre.last() == c);
        }
        if c == '\n' {
            let finished = cur;
            assert(finished.deep_view() =~= finished@);
            done.push(finished);
            assert(done.deep_view() =~= prev);
            cur = Vec::new();
            assert(done.deep_view().push(cur@) =~= prev.push(Seq::empty()));
        } else {
            cur.push(c);
            assert(done.deep_view().push(cur@) =~= prev.update(prev.len() - 1, prev.last().push(c)));
        }
        i += 1;
    }
    assert(cs@.subrange(0, n as int) =~= cs@);
    let ghost prev = done.deep_view().push(cur@);
    assert(cur.deep_view() =~= cur@);
    done.push(cur);
    assert(done.deep_view() =~= prev);
    done
}


fn has_prefix(l: &Vec<char>, p: &Vec<char>) -> (r: bool)
    ensures
        r == starts_with(l@, p@),
{
    if p.len() > l.len() {
        return false;
    }
    let mut k: usize = 0;
    while k < p.len()
        invariant
            p.len() <= l.len(),
            k <= p.len(),
            forall|j: int| 0 <= j < k ==> l@[j] == p@[j],
        decreases p.len() - k,
    {
        if l[k] != p[k] {
            assert(l@.subrange(0, p.len() as int)[k as int] != p@[k as int]);
            return false;
        }
        k += 1;
    }
    assert(l@.subrange(0, p.len() as int) =~= p@);
    true
}

/// The index of the first line at or after `from` that starts with `m`.
fn find_line(ls: &Vec<Vec<char>>, from: usize, m: &Vec<char>) -> (r: usize)
    requires
        from <= ls.len(),
    ensures
        r == first_line_with(ls.deep_view(), from as int, m@),
        from <= r <= ls.len(),
{
    let ghost dv = ls.deep_view();
    let mut k: usize = from;
    while k < ls.len()
        invariant
            from <= k <= ls.len(),
            dv == ls.deep_view(),
            first_line_with(dv, from as int, m@) == first_line_with(dv, k as int, m@),
        decreases ls.len() - k,
    {
        assert(dv[k as int] == ls[k as int]@) by {
            assert(ls[k as int].deep_view() =~= ls[k as int]@);
        }
        if has_prefix(&ls[k], m) {
            return k;
        }
        k += 1;
    }
    k
}

/// Appends `l` to `acc` without the carriage return of a CRLF ending.
fn push_stripped(acc: &mut Vec<char>, l: &Vec<char>)
    ensures
        final(acc)@ == old(acc)@ + strip_cr(l@),
{
    let mut end: usize = l.len();
    if end > 0 && l[end - 1] == '\r' {
        end = end - 1;
    }
    assert(strip_cr(l@) =~= l@.subrange(0, end as int));
    let mut k: usize = 0;
    while k < end
        invariant
            end <= l.len(),
            k <= end,
            acc@ == old(acc)@ + l@.subrange(0, k as int),
        decreases end - k,
    {
        acc.push(l[k]);
        assert(l@.subrange(0, k + 1) =~= l@.subrange(0, k as int).push(l@[k as int]));
        k += 1;
    }
}

/// The body of the first PEM block of `t`; `None` where the `-----BEGIN`
/// line or the `-----END` line after it is missing.
pub fn pem_body(t: &str) -> (r: Option<Vec<char>>)
    ensures
        r is Some <==> pem_body_of(t@) is Some,
        r matches Some(v) ==> pem_body_of(t@) == Some(v@),
{
    let ls = lines_of(t);
    let ghost dv = ls.deep_view();
    let begin: Vec<char> = vec!['-', '-', '-', '-', '-', 'B', 'E', 'G', 'I', 'N'];
    let end: Vec<char> = vec!['-', '-', '-', '-', '-', 'E', 'N', 'D'];
    assert(begin@ =~= begin_marker());
    assert(end@ =~= end_marker());
    let b = find_line(&ls, 0, &begin);
    if b == ls.len() {
        return None;
    }
    let e = find_line(&ls, b + 1, &end);
    if e == ls.len() {
        return None;
    }
    assert(b < e) by {
        assert(first_line_with(dv, b + 1, end_marker()) >= b + 1) by {
            lemma_first_line_with_bounds(dv, b + 1, end_marker());
        }
    }
    let mut body: Vec<char> = Vec::new();
    let mut k: usize = b + 1;
    while k < e
        invariant
            b < e < ls.len(),
            b + 1 <= k <= e,
            dv == ls.deep_view(),
            body@ == dv.subrange(b + 1, k as int).map_values(|l: Seq<char>| strip_cr(l)).flatten(),
        decreases e - k,
    {
        push_stripped(&mut body, &ls[k]);
        proof {
            assert(ls[k as int].deep_view() =~= ls[k as int]@);
            let f = |l: Seq<char>| strip_cr(l);
            assert(dv.subrange(b + 1, k + 1).map_values(f) =~= dv.subrange(b + 1, k as int).map_values(f).push(strip_cr(dv[k as int])));
        }
        k += 1;
    }
    Some(body)
}

proof fn lemma_first_line_with_bounds(ls: Seq<Seq<char>>, from: int, m: Seq<char>)
    requires
        0 <= from <= ls.len(),
    ensures
        from <= first_line_with(ls, from, m) <= ls.len(),
    decreases ls.len() - from,
{
    if from < ls.len() && !starts_with(ls[from], m) {
        lemma_first_line_with_bounds(ls, from + 1, m);
    }
}

/// The DER bytes in the first PEM block of `pem`. Fails with `KeyFormat`
/// where the `-----BEGIN` or `-----END` line is missing or the body is not
/// base64.
pub fn pem_to_der(pem: &str) -> (r: Result<Vec<u8>, PolishApiError>)
    ensures
        r is Ok <==> pem_der_of(pem@) is Some,
        r matches Ok(d) ==> pem_der_of(pem@) == Some(d@),
        r matches Err(e) ==> e matches PolishApiError::KeyFormat(m) && (m@ == "missing PEM delimiters"@
            || m@ == "invalid base64 in PEM body"@),
{
    let body = match pem_body(pem) {
        Some(body) => body,
        None => {
            return Err(PolishApiError::KeyFormat("missing PEM delimiters".to_owned()));
        },
    };
    match decode_base64_std(&body) {
        Some(der) => {
            proof {
                let c = choose|b: Seq<u8>| base64_std_of(b) == body@;
                lemma_base64_injective(c, der@, false, true);
            }
            Ok(der)
        },
        None => Err(PolishApiError::KeyFormat("invalid base64 in PEM body".to_owned())),
    }
}

} // verus!
