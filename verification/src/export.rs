//! Hand-rolled JSON export for trace spans.
//!
//! Each span becomes an object with `trace_id`, `span_id`,
//! `parent_span_id`, `name`, `module`, `start_tsc`, `end_tsc`, `status`,
//! `pid` and `depth` fields; identifiers are written as decimal strings.

use crate::ids::SpanStatus;
use crate::span::Span;
use vstd::prelude::*;
use vstd::string::StringSliceAdditionalSpecFns;

verus! {

/// The decimal digits of `n`, most significant first.
pub open spec fn decimal(n: nat) -> Seq<u8>
    decreases n,
{
    if n < 10 {
        seq![(48 + n) as u8]
    } else {
        decimal(n / 10).push((48 + n % 10) as u8)
    }
}

/// One byte of text as it appears inside a JSON string: `"` and `\` get a
/// backslash in front, everything else is copied.
pub open spec fn escape_byte(c: u8) -> Seq<u8> {
    if c == 34 {
        seq![92u8, 34u8]
    } else if c == 92 {
        seq![92u8, 92u8]
    } else {
        seq![c]
    }
}

/// `b` with JSON escaping of `"` and `\`.
pub open spec fn escape_bytes(b: Seq<u8>) -> Seq<u8>
    decreases b.len(),
{
    if b.len() == 0 {
        Seq::empty()
    } else {
        escape_bytes(b.drop_last()) + escape_byte(b.last())
    }
}

/// The JSON name of a status.
pub open spec fn status_text(s: SpanStatus) -> Seq<u8> {
    match s {
        SpanStatus::Success => "ok".spec_bytes(),
        SpanStatus::Error => "error".spec_bytes(),
        SpanStatus::InProgress => "in_progress".spec_bytes(),
    }
}

/// The `parent_span_id` member, with its leading comma.
pub open spec fn parent_json(sp: Span) -> Seq<u8> {
    match sp.parent_span_id {
        Some(p) => ",\"parent_span_id\":\"".spec_bytes() + decimal(p.0 as nat) + "\"".spec_bytes(),
        None => ",\"parent_span_id\":null".spec_bytes(),
    }
}

/// The JSON object for one span.
pub open spec fn span_json(sp: Span) -> Seq<u8> {
    "{".spec_bytes() + "\"trace_id\":\"".spec_bytes() + decimal(sp.trace_id.0 as nat)
        + "\"".spec_bytes() + ",\"span_id\":\"".spec_bytes() + decimal(sp.span_id.0 as nat)
        + "\"".spec_bytes() + parent_json(sp) + ",\"name\":\"".spec_bytes() + escape_bytes(
        sp.name_text(),
    ) + "\"".spec_bytes() + ",\"module\":\"".spec_bytes() + escape_bytes(sp.module_text())
        + "\"".spec_bytes() + ",\"start_tsc\":".spec_bytes() + decimal(sp.start_tsc as nat)
        + ",\"end_tsc\":".spec_bytes() + decimal(sp.end_tsc as nat) + ",\"status\":\"".spec_bytes()
        + status_text(sp.status) + "\"".spec_bytes() + ",\"pid\":".spec_bytes() + decimal(
        sp.pid as nat,
    ) + ",\"depth\":".spec_bytes() + decimal(sp.depth as nat) + "}".spec_bytes()
}

/// The span objects of `spans`, separated by commas.
pub open spec fn spans_json(spans: Seq<Span>) -> Seq<u8>
    decreases spans.len(),
{
    if spans.len() == 0 {
        Seq::empty()
    } else if spans.len() == 1 {
        span_json(spans[0])
    } else {
        spans_json(spans.drop_last()) + ",".spec_bytes() + span_json(spans.last())
    }
}

/// The JSON array of `spans`.
pub open spec fn json_array(spans: Seq<Span>) -> Seq<u8> {
    "[".spec_bytes() + spans_json(spans) + "]".spec_bytes()
}

/// Appends the bytes of `s`.
fn push_str(out: &mut Vec<u8>, s: &str)
    ensures
        final(out)@ == old(out)@ + s.spec_bytes(),
{
    let b = s.as_bytes();
    let mut i: usize = 0;
    while i < b.len()
        invariant
            b@ == s.spec_bytes(),
            0 <= i <= b@.len(),
            out@ == old(out)@ + b@.take(i as int),
        decreases b@.len() - i,
    {
        out.push(b[i]);
        assert(b@.take(i + 1) =~= b@.take(i as int).push(b@[i as int]));
        i = i + 1;
    }
    assert(b@.take(b@.len() as int) =~= b@);
}

/// Appends the decimal digits of `n`.
fn push_decimal(out: &mut Vec<u8>, n: u64)
    ensures
        final(out)@ == old(out)@ + decimal(n as nat),
    decreases n,
{
    if n >= 10 {
        push_decimal(out, n / 10);
    }
    out.push(48 + (n % 10) as u8);
    assert(out@ =~= old(out)@ + decimal(n as nat));
}

/// Writes a string with JSON-required escaping for `"` and `\`.
pub fn write_escaped(out: &mut Vec<u8>, s: &str)
    ensures
        final(out)@ == old(out)@ + escape_bytes(s.spec_bytes()),
{
    let b = s.as_bytes();
    let mut i: usize = 0;
    while i < b.len()
        invariant
            b@ == s.spec_bytes(),
            0 <= i <= b@.len(),
            out@ == old(out)@ + escape_bytes(b@.take(i as int)),
        decreases b@.len() - i,
    {
        let c = b[i];
        assert(b@.take(i + 1).drop_last() =~= b@.take(i as int));
        if c == 34 {
            out.push(92);
            out.push(34);
        } else if c == 92 {
            out.push(92);
            out.push(92);
        } else {
            out.push(c);
        }
        assert(out@ =~= old(out)@ + escape_bytes(b@.take(i + 1)));
        i = i + 1;
    }
    assert(b@.take(b@.len() as int) =~= b@);
}

/// Maps a [`SpanStatus`] to its JSON string representation.
pub fn status_str(s: SpanStatus) -> (r: &'static str)
    ensures
        r.spec_bytes() == status_text(s),
{
    match s {
        SpanStatus::Success => "ok",
        SpanStatus::Error => "error",
        SpanStatus::InProgress => "in_progress",
    }
}

/// Serialises a single [`Span`] as a JSON object.
fn write_span_json(out: &mut Vec<u8>, span: &Span)
    requires
        span.well_formed(),
    ensures
        final(out)@ == old(out)@ + span_json(*span),
{
    let mut v: Vec<u8> = Vec::new();
    push_str(&mut v, "{");
    push_str(&mut v, "\"trace_id\":\"");
    push_decimal(&mut v, span.trace_id.0);
    push_str(&mut v, "\"");
    push_str(&mut v, ",\"span_id\":\"");
    push_decimal(&mut v, span.span_id.0);
    push_str(&mut v, "\"");
    let ghost before_parent = v@;
    match span.parent_span_id {
        Some(p) => {
            push_str(&mut v, ",\"parent_span_id\":\"");
            push_decimal(&mut v, p.0);
            push_str(&mut v, "\"");
        },
        None => {
            push_str(&mut v, ",\"parent_span_id\":null");
        },
    }
    assert(v@ =~= before_parent + parent_json(*span));
    push_str(&mut v, ",\"name\":\"");
    write_escaped(&mut v, span.name_str());
    push_str(&mut v, "\"");
    push_str(&mut v, ",\"module\":\"");
    write_escaped(&mut v, span.module_str());
    push_str(&mut v, "\"");
    push_str(&mut v, ",\"start_tsc\":");
    push_decimal(&mut v, span.start_tsc);
    push_str(&mut v, ",\"end_tsc\":");
    push_decimal(&mut v, span.end_tsc);
    push_str(&mut v, ",\"status\":\"");
    push_str(&mut v, status_str(span.status));
    push_str(&mut v, "\"");
    push_str(&mut v, ",\"pid\":");
    push_decimal(&mut v, span.pid as u64);
    push_str(&mut v, ",\"depth\":");
    push_decimal(&mut v, span.depth as u64);
    push_str(&mut v, "}");
    assert(v@ =~= span_json(*span));
    let mut i: usize = 0;
    let ghost start = out@;
    while i < v.len()
        invariant
            0 <= i <= v@.len(),
            out@ == start + v@.take(i as int),
        decreases v@.len() - i,
    {
        out.push(v[i]);
        assert(v@.take(i + 1) =~= v@.take(i as int).push(v@[i as int]));
        i = i + 1;
    }
    assert(v@.take(v@.len() as int) =~= v@);
}

/// Writes an array of spans as a JSON array.
pub fn export_json(spans: &[Span]) -> (r: Vec<u8>)
    requires
        forall|i: int| 0 <= i < spans@.len() ==> (#[trigger] spans@[i]).well_formed(),
    ensures
        r@ == json_array(spans@),
{
    let mut out: Vec<u8> = Vec::new();
    push_str(&mut out, "[");
    let mut i: usize = 0;
    while i < spans.len()
        invariant
            0 <= i <= spans@.len(),
            forall|k: int| 0 <= k < spans@.len() ==> (#[trigger] spans@[k]).well_formed(),
            out@ == "[".spec_bytes() + spans_json(spans@.take(i as int)),
        decreases spans@.len() - i,
    {
        assert(spans@.take(i + 1).drop_last() =~= spans@.take(i as int));
        assert(spans@.take(i + 1).last() == spans@[i as int]);
        if i > 0 {
            push_str(&mut out, ",");
        }
        write_span_json(&mut out, &spans[i]);
        if i == 0 {
            assert(spans@.take(1)[0] == spans@[0]);
        }
        assert(out@ =~= "[".spec_bytes() + spans_json(spans@.take(i + 1)));
        i = i + 1;
    }
    push_str(&mut out, "]");
    assert(spans@.take(spans@.len() as int) =~= spans@);
    out
}

/// The digits written for a number are digits, and reading them back
/// (as the shell's decimal parsers do) gives the number.
pub proof fn law_decimal_reads_back(n: nat)
    ensures
        crate::numparse::all_digits(decimal(n)),
        crate::numparse::decimal_value(decimal(n)) == n,
    decreases n,
{
    if n >= 10 {
        law_decimal_reads_back(n / 10);
        let d = decimal(n);
        assert(d.drop_last() =~= decimal(n / 10));
        assert forall|i: int| 0 <= i < d.len() implies crate::numparse::is_digit_byte(#[trigger] d[i]) by {
            if i < d.len() - 1 {
                assert(d[i] == decimal(n / 10)[i]);
            }
        }
        assert(d.last() == (48 + n % 10) as u8);
        assert(d.last() as int == 48 + n % 10);
        assert(crate::numparse::decimal_value(d) == crate::numparse::decimal_value(decimal(n / 10))
            * 10 + (n % 10));
        assert((n / 10) * 10 + n % 10 == n);
    } else {
        let d = decimal(n);
        assert(d.drop_last() =~= Seq::<u8>::empty());
        assert(d.last() == (48 + n) as u8);
        assert(d.last() as int == 48 + n);
        assert(crate::numparse::decimal_value(d) == crate::numparse::decimal_value(d.drop_last()) * 10
            + (d.last() - 48) as nat);
    }
}

/// Text without quotes or backslashes is written unchanged.
pub proof fn law_plain_text_unescaped(b: Seq<u8>)
    requires
        forall|i: int| 0 <= i < b.len() ==> #[trigger] b[i] != 34 && b[i] != 92,
    ensures
        escape_bytes(b) == b,
    decreases b.len(),
{
    if b.len() > 0 {
        law_plain_text_unescaped(b.drop_last());
        assert(b.drop_last().push(b.last()) =~= b);
        assert(escape_byte(b.last()) =~= seq![b.last()]);
    }
}

} // verus!
