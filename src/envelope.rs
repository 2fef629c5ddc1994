//! The "HTML Format" clipboard envelope: a header of four byte offsets
//! followed by the fragment wrapped in an HTML body.
//!
//! The header holds its own length (the first offset), and that length grows
//! with the width of the numbers it holds. The offsets are therefore found as
//! the least header length that agrees with the header it produces.
use vstd::prelude::*;
use crate::text::{
    ascii, zero_padded, all_digits, digits_of, decimal_len, lemma_digits_monotone,
    lemma_eight_digits, lemma_padded_digits, lemma_usize_digits, push_ascii, push_bytes,
    push_padded,
};

verus! {

/// Header bytes other than the four numbers: the version line and the four
/// field names with their line breaks.
pub const HEADER_TEXT_LEN: usize = 65;

/// Bytes between the header and the fragment: the opening body line and the start marker.
pub const OPENING_LEN: usize = 34;

/// Bytes after the fragment: the end marker, a line break and the closing tags.
pub const TRAILER_LEN: usize = 34;

/// The longest fragment that an envelope is built for; the rest of `usize`
/// leaves room for the header and the framing.
pub const MAX_FRAGMENT: usize = usize::MAX - 256;

/// The four offsets written into the envelope's header.
#[derive(Clone, Copy, Debug, PartialEq, Eq, Structural)]
pub struct HtmlOffsets {
    pub start_html: usize,
    pub end_html: usize,
    pub start_fragment: usize,
    pub end_fragment: usize,
}

impl HtmlOffsets {
    /// The offsets in header order.
    pub open spec fn view(&self) -> (nat, nat, nat, nat) {
        (
            self.start_html as nat,
            self.end_html as nat,
            self.start_fragment as nat,
            self.end_fragment as nat,
        )
    }
}

/// The number of bytes a header field takes for `n`: eight, or more for a
/// number of more than eight digits.
pub open spec fn width(n: nat) -> nat {
    zero_padded(n, 8).len()
}

/// The offsets for a header of `h` bytes and a fragment of `len` bytes
/// (start HTML, end HTML, start fragment, end fragment).
pub open spec fn offsets_at(h: nat, len: nat) -> (nat, nat, nat, nat) {
    (h, h + 34 + len + 34, h + 34, h + 34 + len)
}

/// The length of the header that a header length of `h` produces.
pub open spec fn header_len_at(h: nat, len: nat) -> nat {
    let o = offsets_at(h, len);
    65 + width(o.0) + width(o.1) + width(o.2) + width(o.3)
}

/// Whether a header of `h` bytes declares its own length correctly.
pub open spec fn settles(h: nat, len: nat) -> bool {
    header_len_at(h, len) == h
}

/// Whether `h` is the least header length that declares itself correctly.
pub open spec fn least_settling(h: nat, len: nat) -> bool {
    &&& settles(h, len)
    &&& forall|k: nat| k < h ==> !#[trigger] settles(k, len)
}

/// The header length of the envelope of a fragment of `len` bytes.
pub open spec fn header_start(len: nat) -> nat {
    choose|h: nat| least_settling(h, len)
}

/// The offsets declared for a fragment of `len` bytes.
pub open spec fn offsets_for(len: nat) -> (nat, nat, nat, nat) {
    offsets_at(header_start(len), len)
}

/// A line break as the envelope writes it.
pub open spec fn crlf() -> Seq<u8> {
    ascii("\r\n"@)
}

/// The header lines carrying offsets `o`.
pub open spec fn header(o: (nat, nat, nat, nat)) -> Seq<u8> {
    ascii("Version:0.9\r\n"@)
        + ascii("StartHTML:"@) + zero_padded(o.0, 8) + crlf()
        + ascii("EndHTML:"@) + zero_padded(o.1, 8) + crlf()
        + ascii("StartFragment:"@) + zero_padded(o.2, 8) + crlf()
        + ascii("EndFragment:"@) + zero_padded(o.3, 8) + crlf()
}

/// Everything between the header and the fragment.
pub open spec fn body_open() -> Seq<u8> {
    ascii("<html><body>\r\n"@) + ascii("<!--StartFragment-->"@)
}

/// Everything after the fragment.
pub open spec fn body_close() -> Seq<u8> {
    ascii("<!--EndFragment-->"@) + crlf() + ascii("</body></html>"@)
}

/// The envelope with header offsets `o` around `content`.
pub open spec fn render(o: (nat, nat, nat, nat), content: Seq<u8>) -> Seq<u8> {
    header(o) + body_open() + content + body_close()
}

/// The "HTML Format" envelope of `content`.
pub open spec fn envelope(content: Seq<u8>) -> Seq<u8> {
    render(offsets_for(content.len()), content)
}

/// The header is its fixed text plus the widths of its four numbers, and the
/// framing around the fragment has the lengths the constants give.
pub proof fn lemma_piece_lengths(o: (nat, nat, nat, nat))
    ensures
        header(o).len() == HEADER_TEXT_LEN + width(o.0) + width(o.1) + width(o.2) + width(o.3),
        body_open().len() == OPENING_LEN,
        body_close().len() == TRAILER_LEN,
{
    reveal_strlit("Version:0.9\r\n");
    reveal_strlit("StartHTML:");
    reveal_strlit("EndHTML:");
    reveal_strlit("StartFragment:");
    reveal_strlit("EndFragment:");
    reveal_strlit("\r\n");
    reveal_strlit("<html><body>\r\n");
    reveal_strlit("<!--StartFragment-->");
    reveal_strlit("<!--EndFragment-->");
    reveal_strlit("</body></html>");
}

proof fn lemma_width_monotone(m: nat, n: nat)
    requires
        m <= n,
    ensures
        8 <= width(m) <= width(n),
{
    lemma_digits_monotone(m, n);
}

proof fn lemma_header_len_monotone(a: nat, b: nat, len: nat)
    requires
        a <= b,
    ensures
        header_len_at(a, len) <= header_len_at(b, len),
        header_len_at(a, len) >= 97,
{
    let x = offsets_at(a, len);
    let y = offsets_at(b, len);
    lemma_width_monotone(x.0, y.0);
    lemma_width_monotone(x.1, y.1);
    lemma_width_monotone(x.2, y.2);
    lemma_width_monotone(x.3, y.3);
}

proof fn lemma_header_len_bound(h: nat, len: nat)
    requires
        h <= 145,
        len <= MAX_FRAGMENT,
    ensures
        header_len_at(h, len) <= 145,
{
    let o = offsets_at(h, len);
    lemma_usize_digits(o.0);
    lemma_usize_digits(o.1);
    lemma_usize_digits(o.2);
    lemma_usize_digits(o.3);
}

proof fn lemma_settle_from(h: nat, len: nat)
    requires
        len <= MAX_FRAGMENT,
        h <= 145,
        h <= header_len_at(h, len),
        forall|k: nat| k < h ==> !#[trigger] settles(k, len),
    ensures
        least_settling(header_start(len), len),
        97 <= header_start(len) <= 145,
    decreases 146 - h,
{
    let n = header_len_at(h, len);
    lemma_header_len_bound(h, len);
    if n == h {
        assert(least_settling(h, len));
        let s = header_start(len);
        assert(least_settling(s, len));
        if s > h {
            assert(settles(h, len));
        }
        lemma_header_len_monotone(s, s, len);
    } else {
        assert forall|k: nat| k < n implies !#[trigger] settles(k, len) by {
            if k >= h {
                lemma_header_len_monotone(h, k, len);
            }
        }
        lemma_header_len_monotone(h, n, len);
        lemma_settle_from(n, len);
    }
}

/// Every fragment that fits has a least self-consistent header length, and
/// it lies between 97 and 145 bytes.
pub proof fn lemma_header_start(len: nat)
    requires
        len <= MAX_FRAGMENT,
    ensures
        least_settling(header_start(len), len),
        97 <= header_start(len) <= 145,
{
    assert forall|k: nat| k < 97 implies !#[trigger] settles(k, len) by {
        lemma_header_len_monotone(k, k, len);
    }
    lemma_header_len_monotone(97, 97, len);
    lemma_settle_from(97, len);
}

/// The width of a header field for `n`.
pub fn field_width(n: usize) -> (r: usize)
    ensures
        r == width(n as nat),
        8 <= r <= 20,
{
    let d = decimal_len(n);
    if d < 8 {
        8
    } else {
        d
    }
}

/// The offsets that the envelope declares for a fragment of `len` bytes:
/// the header is as long as the first offset says, the fragment starts after
/// the opening framing, and the envelope ends after the trailer.
pub fn html_offsets(len: usize) -> (r: HtmlOffsets)
    requires
        len <= MAX_FRAGMENT,
    ensures
        r.view() == offsets_for(len as nat),
{
    proof {
        lemma_header_start(len as nat);
        assert forall|k: nat| k < 97 implies !#[trigger] settles(k, len as nat) by {
            lemma_header_len_monotone(k, k, len as nat);
        }
        lemma_header_len_monotone(97, 97, len as nat);
    }
    let mut h: usize = 97;
    let mut done = false;
    while !done
        invariant
            len <= MAX_FRAGMENT,
            97 <= h <= 145,
            h <= header_len_at(h as nat, len as nat),
            forall|k: nat| k < h ==> !#[trigger] settles(k, len as nat),
            done ==> settles(h as nat, len as nat),
        decreases 146 - h + (if done { 0int } else { 1int }),
    {
        let next = HEADER_TEXT_LEN + field_width(h) + field_width(h + OPENING_LEN + len + TRAILER_LEN)
            + field_width(h + OPENING_LEN) + field_width(h + OPENING_LEN + len);
        proof {
            lemma_header_len_bound(h as nat, len as nat);
        }
        if next == h {
            done = true;
        } else {
            proof {
                assert forall|k: nat| k < next implies !#[trigger] settles(k, len as nat) by {
                    if k >= h {
                        lemma_header_len_monotone(h as nat, k, len as nat);
                    }
                }
                lemma_header_len_monotone(h as nat, next as nat, len as nat);
            }
            h = next;
        }
    }
    proof {
        let s = header_start(len as nat);
        assert(least_settling(h as nat, len as nat));
        if s < h {
            assert(settles(s, len as nat));
        }
        if h < s {
            assert(settles(h as nat, len as nat));
        }
    }
    HtmlOffsets {
        start_html: h,
        end_html: h + OPENING_LEN + len + TRAILER_LEN,
        start_fragment: h + OPENING_LEN,
        end_fragment: h + OPENING_LEN + len,
    }
}

/// Builds the "HTML Format" envelope around `content`.
pub fn html_envelope(content: &[u8]) -> (r: Vec<u8>)
    requires
        content@.len() <= MAX_FRAGMENT,
    ensures
        r@ == envelope(content@),
{
    let o = html_offsets(content.len());
    proof {
        reveal_strlit("Version:0.9\r\n");
        reveal_strlit("StartHTML:");
        reveal_strlit("EndHTML:");
        reveal_strlit("StartFragment:");
        reveal_strlit("EndFragment:");
        reveal_strlit("\r\n");
        reveal_strlit("<html><body>\r\n");
        reveal_strlit("<!--StartFragment-->");
        reveal_strlit("<!--EndFragment-->");
        reveal_strlit("</body></html>");
    }
    let mut out: Vec<u8> = Vec::new();
    push_ascii(&mut out, "Version:0.9\r\n");
    push_ascii(&mut out, "StartHTML:");
    push_padded(&mut out, o.start_html, 8);
    push_ascii(&mut out, "\r\n");
    push_ascii(&mut out, "EndHTML:");
    push_padded(&mut out, o.end_html, 8);
    push_ascii(&mut out, "\r\n");
    push_ascii(&mut out, "StartFragment:");
    push_padded(&mut out, o.start_fragment, 8);
    push_ascii(&mut out, "\r\n");
    push_ascii(&mut out, "EndFragment:");
    push_padded(&mut out, o.end_fragment, 8);
    push_ascii(&mut out, "\r\n");
    let ghost h = out@;
    push_ascii(&mut out, "<html><body>\r\n");
    push_ascii(&mut out, "<!--StartFragment-->");
    push_bytes(&mut out, content);
    push_ascii(&mut out, "<!--EndFragment-->");
    push_ascii(&mut out, "\r\n");
    push_ascii(&mut out, "</body></html>");
    assert(h =~= header(o.view()));
    assert(out@ =~= envelope(content@));
    out
}

/// For every fragment, the envelope declares an end of fragment that lies the
/// fragment's length past its start, an end of HTML that lies the trailer's
/// length past the end of fragment, and a fragment that starts right after
/// the opening framing.
pub proof fn lemma_offset_relations(content: Seq<u8>)
    ensures
        ({
            let o = offsets_for(content.len());
            &&& envelope(content) == render(o, content)
            &&& o.3 == o.2 + content.len()
            &&& o.1 == o.3 + TRAILER_LEN
            &&& o.2 == o.0 + OPENING_LEN
        }),
{
}

/// For every fragment that fits, the offsets point where they claim: the
/// header is exactly as long as the first offset, the `<html>` tag starts
/// there, the fragment lies between its two offsets, and the envelope ends
/// at the declared end. Every header field is at least eight decimal digits.
pub proof fn lemma_offsets_locate(content: Seq<u8>)
    requires
        content.len() <= MAX_FRAGMENT,
    ensures
        ({
            let o = offsets_for(content.len());
            let e = envelope(content);
            &&& header(o).len() == o.0
            &&& e.len() == o.1
            &&& e.subrange(0, o.0 as int) == header(o)
            &&& e.subrange(o.0 as int, o.2 as int) == body_open()
            &&& e.subrange(o.2 as int, o.3 as int) == content
            &&& e.subrange(o.3 as int, o.1 as int) == body_close()
            &&& zero_padded(o.0, 8).len() >= 8 && all_digits(zero_padded(o.0, 8))
            &&& zero_padded(o.1, 8).len() >= 8 && all_digits(zero_padded(o.1, 8))
            &&& zero_padded(o.2, 8).len() >= 8 && all_digits(zero_padded(o.2, 8))
            &&& zero_padded(o.3, 8).len() >= 8 && all_digits(zero_padded(o.3, 8))
        }),
{
    let o = offsets_for(content.len());
    lemma_header_start(content.len());
    lemma_piece_lengths(o);
    lemma_padded_digits(o.0);
    lemma_padded_digits(o.1);
    lemma_padded_digits(o.2);
    lemma_padded_digits(o.3);
    let e = envelope(content);
    let h = header(o);
    assert(e == h + body_open() + content + body_close());
    assert(e.subrange(0, o.0 as int) =~= h);
    assert(e.subrange(o.0 as int, o.2 as int) =~= body_open());
    assert(e.subrange(o.2 as int, o.3 as int) =~= content);
    assert(e.subrange(o.3 as int, o.1 as int) =~= body_close());
}

/// While the envelope stays under `10^8` bytes, every field is eight digits
/// wide, the header is 97 bytes, and the fragment starts at byte 131.
pub proof fn lemma_small_offsets(len: nat)
    requires
        len + 165 < 100_000_000,
    ensures
        offsets_for(len) == (97nat, len + 165, 131nat, len + 131),
        width(97) == 8 && width(len + 165) == 8 && width(131) == 8 && width(len + 131) == 8,
{
    lemma_eight_digits(97);
    lemma_eight_digits(len + 165);
    lemma_eight_digits(131);
    lemma_eight_digits(len + 131);
    lemma_header_start(len);
    assert(settles(97, len));
    let s = header_start(len);
    if s > 97 {
        assert(settles(97, len));
    }
}

} // verus!
