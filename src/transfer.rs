//! The bytes each transfer hands to the clipboard or to standard output.
use vstd::prelude::*;
use crate::envelope::{envelope, html_envelope, MAX_FRAGMENT};
use crate::text::{ascii, digits_of, push_ascii, push_bytes, push_decimal};

verus! {

/// A clipboard format that the tool reads or writes.
#[derive(Clone, Copy, Debug, PartialEq, Eq, Structural)]
pub enum ClipFormat {
    /// The platform's Unicode text format.
    UnicodeText,
    /// The registered `text/html` format: the bare fragment.
    TextHtml,
    /// The registered `HTML Format` format: the fragment in its envelope.
    HtmlFormat,
}

/// One format set on the clipboard, with its data.
#[derive(Debug)]
pub struct ClipWrite {
    pub format: ClipFormat,
    pub data: Vec<u8>,
}

/// A sequence of clipboard writes as formats and data.
pub open spec fn writes_view(s: Seq<ClipWrite>) -> Seq<(ClipFormat, Seq<u8>)> {
    s.map_values(|w: ClipWrite| (w.format, w.data@))
}

/// The writes of a copy of `payload`: the text format alone, or the bare
/// fragment followed by its envelope.
pub open spec fn copy_plan(html: bool, payload: Seq<u8>) -> Seq<(ClipFormat, Seq<u8>)> {
    if html {
        seq![(ClipFormat::TextHtml, payload), (ClipFormat::HtmlFormat, envelope(payload))]
    } else {
        seq![(ClipFormat::UnicodeText, payload)]
    }
}

/// What format `f` holds after `writes`, when nothing else wrote to it: the
/// data of the last write to `f`.
pub open spec fn held_after(writes: Seq<(ClipFormat, Seq<u8>)>, f: ClipFormat) -> Option<Seq<u8>>
    decreases writes.len(),
{
    if writes.len() == 0 {
        None
    } else if writes.last().0 == f {
        Some(writes.last().1)
    } else {
        held_after(writes.drop_last(), f)
    }
}

/// The format a paste reads.
pub open spec fn paste_format(html: bool) -> ClipFormat {
    if html {
        ClipFormat::HtmlFormat
    } else {
        ClipFormat::UnicodeText
    }
}

/// The confirmation line of an HTML copy.
pub open spec fn report(payload_len: nat, envelope_len: nat) -> Seq<u8> {
    digits_of(payload_len) + ascii(" bytes copied to clipboard!, HTML Format binary size: "@)
        + digits_of(envelope_len)
}

/// The formats and data that a copy of `payload` sets on the clipboard, in order.
pub fn copy_writes(html: bool, payload: Vec<u8>) -> (r: Vec<ClipWrite>)
    requires
        payload@.len() <= MAX_FRAGMENT,
    ensures
        writes_view(r@) == copy_plan(html, payload@),
{
    let ghost p = payload@;
    let mut r: Vec<ClipWrite> = Vec::new();
    if html {
        let wrapped = html_envelope(payload.as_slice());
        r.push(ClipWrite { format: ClipFormat::TextHtml, data: payload });
        r.push(ClipWrite { format: ClipFormat::HtmlFormat, data: wrapped });
    } else {
        r.push(ClipWrite { format: ClipFormat::UnicodeText, data: payload });
    }
    assert(writes_view(r@) =~= copy_plan(html, p));
    r
}

/// What a paste prints for the data `fetched` from the clipboard's format:
/// all of it, unchanged, whether text or HTML.
pub fn paste_output(fetched: Vec<u8>) -> (r: Vec<u8>)
    ensures
        r@ == fetched@,
{
    fetched
}

/// The confirmation line of an HTML copy: the payload's and the envelope's
/// sizes in bytes.
pub fn copy_report(payload_len: usize, envelope_len: usize) -> (r: Vec<u8>)
    ensures
        r@ == report(payload_len as nat, envelope_len as nat),
{
    let mut out: Vec<u8> = Vec::new();
    push_decimal(&mut out, payload_len);
    proof {
        reveal_strlit(" bytes copied to clipboard!, HTML Format binary size: ");
    }
    push_ascii(&mut out, " bytes copied to clipboard!, HTML Format binary size: ");
    push_decimal(&mut out, envelope_len);
    assert(out@ =~= report(payload_len as nat, envelope_len as nat));
    out
}

/// A plain-text copy followed by a plain-text paste prints the payload
/// exactly, when nothing else writes to the clipboard in between.
pub proof fn lemma_text_round_trip(payload: Seq<u8>)
    ensures
        held_after(copy_plan(false, payload), paste_format(false)) == Some(payload),
{
    let w = copy_plan(false, payload);
    assert(w.last() == (ClipFormat::UnicodeText, payload));
}

/// An HTML copy followed by an HTML paste prints the whole envelope of the
/// payload, when nothing else writes to the clipboard in between.
pub proof fn lemma_html_round_trip(payload: Seq<u8>)
    ensures
        held_after(copy_plan(true, payload), paste_format(true)) == Some(envelope(payload)),
{
    let w = copy_plan(true, payload);
    assert(w.last() == (ClipFormat::HtmlFormat, envelope(payload)));
}

} // verus!
