//! Gerrit REST response bodies.
//!
//! Every JSON endpoint prefixes its body with a `)]}'` guard line, which makes
//! the response invalid as a `<script>` source. It comes off before the JSON is
//! read; a body without it is not the JSON API at all.

use vstd::prelude::*;
use vstd::string::*;
use crate::text::{lemma_trim_within, leading_ws, push_char, chars_of, is_control, is_control_exec, spec_trim, trim_bounds, string_of_range, starts_with, starts_with_exec, occurs_at};
use crate::gerrit::error::GerritError;

verus! {

/// How much of an unexpected body is quoted back in an error: enough to
/// recognise an HTML login page, short enough not to flood a terminal.
pub const PREVIEW_LEN: usize = 120;

/// Control characters become spaces, so a preview stays on one line.
pub open spec fn flatten(s: Seq<char>) -> Seq<char> {
    s.map_values(|c: char| if is_control(c) { ' ' } else { c })
}

/// The first `PREVIEW_LEN` characters of `body`, on one line and trimmed,
/// with an ellipsis when the body was longer.
pub open spec fn spec_preview(body: Seq<char>) -> Seq<char> {
    let flat = spec_trim(flatten(body).take(if body.len() < PREVIEW_LEN { body.len() as int } else { PREVIEW_LEN as int }));
    if body.len() > PREVIEW_LEN {
        flat.push('…')
    } else {
        flat
    }
}

/// The body after the guard and the line break that ends it (LF or CRLF); a
/// body that is only the guard leaves nothing.
pub open spec fn after_guard(body: Seq<char>) -> Seq<char> {
    let rest = body.skip(")]}'"@.len() as int);
    if starts_with(rest, "\r\n"@) {
        rest.skip("\r\n"@.len() as int)
    } else if starts_with(rest, "\n"@) {
        rest.skip("\n"@.len() as int)
    } else {
        rest
    }
}

/// The preview of a body quoted in an error.
pub fn preview_of(body: &str) -> (r: String)
    ensures
        r@ == spec_preview(body@),
{
    let v = chars_of(body);
    let n: usize = if v.len() < PREVIEW_LEN { v.len() } else { PREVIEW_LEN };
    let mut flat: Vec<char> = Vec::new();
    let mut i: usize = 0;
    while i < n
        invariant
            n <= v@.len(),
            v@ == body@,
            i <= n,
            flat@ == flatten(v@).take(i as int),
        decreases n - i,
    {
        let c = v[i];
        if is_control_exec(c) {
            flat.push(' ');
        } else {
            flat.push(c);
        }
        assert(flatten(v@).take(i + 1) =~= flatten(v@).take(i as int).push(if is_control(c) { ' ' } else { c }));
        i = i + 1;
    }
    let (start, end) = trim_bounds(flat.as_slice());
    let mut r = string_of_range(flat.as_slice(), start, end);
    if v.len() > PREVIEW_LEN {
        push_char(&mut r, '…');
    }
    r
}

/// A preview is one short line: no control character survives, and it is
/// never longer than `PREVIEW_LEN` characters and the ellipsis.
pub proof fn lemma_preview_is_one_short_line(body: Seq<char>)
    ensures
        spec_preview(body).len() <= PREVIEW_LEN + 1,
        forall|k: int| 0 <= k < spec_preview(body).len() ==> !is_control(#[trigger] spec_preview(body)[k]),
{
    let n: int = if body.len() < PREVIEW_LEN { body.len() as int } else { PREVIEW_LEN as int };
    let f = flatten(body).take(n);
    lemma_trim_within(f);
    let t = spec_trim(f);
    assert forall|k: int| 0 <= k < t.len() implies !is_control(#[trigger] t[k]) by {
        let j = k + leading_ws(f);
        assert(t[k] == f[j]);
        assert(f[j] == flatten(body)[j]);
    }
    assert(!is_control('…'));
    if body.len() > PREVIEW_LEN {
        assert forall|k: int| 0 <= k < spec_preview(body).len() implies !is_control(#[trigger] spec_preview(body)[k]) by {
            if k < t.len() {
                assert(spec_preview(body)[k] == t[k]);
            }
        }
    }
}

/// Strip the XSSI guard line from a response body.
///
/// A body that does not carry the guard is an error rather than a
/// pass-through: Gerrit always emits it on the JSON API, so its absence means
/// an HTML login or SSO page served because authentication failed.
pub fn strip_xssi_guard(body: &str) -> (r: Result<&str, GerritError>)
    ensures
        match r {
            Ok(rest) => starts_with(body@, ")]}'"@) && rest@ == after_guard(body@),
            Err(e) => !starts_with(body@, ")]}'"@) && (e matches GerritError::NotJsonApi { preview } && preview@ == spec_preview(body@)),
        },
{
    let v = chars_of(body);
    let guard = chars_of(")]}'");
    if !starts_with_exec(v.as_slice(), guard.as_slice()) {
        return Err(GerritError::NotJsonApi { preview: preview_of(body) });
    }
    let g = guard.len();
    let n = body.unicode_len();
    let rest = body.substring_char(g, n);
    let rv = chars_of(rest);
    let crlf = chars_of("\r\n");
    let lf = chars_of("\n");
    if starts_with_exec(rv.as_slice(), crlf.as_slice()) {
        let m = rest.unicode_len();
        assert(occurs_at(rv@, crlf@, 0));
        Ok(rest.substring_char(crlf.len(), m))
    } else if starts_with_exec(rv.as_slice(), lf.as_slice()) {
        let m = rest.unicode_len();
        assert(occurs_at(rv@, lf@, 0));
        Ok(rest.substring_char(lf.len(), m))
    } else {
        Ok(rest)
    }
}

} // verus!
