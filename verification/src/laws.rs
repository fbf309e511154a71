//! Laws of the escape-sequence rendering, stated and proved over the spec
//! model: the payload round trip, last-write-wins setters, call-order
//! independence, boolean rendering, uniqueness of the `size` field, field
//! presence, and the fixed field order of the output.

use vstd::prelude::*;
use crate::b64;
use crate::digits;
use crate::PendingImage;
use crate::LengthUnit;
use crate::rendered;
use crate::header_text;
use crate::flag_text;
use crate::length_text;
use crate::name_section;
use crate::width_section;
use crate::height_section;
use crate::ratio_section;
use crate::inline_section;

verus! {

/// Round-trip law: the output carries the payload between the `:` separator
/// and the BEL terminator as standard base64, and that segment decodes back
/// to exactly the payload bytes.
pub proof fn lemma_payload_round_trip(img: PendingImage)
    ensures
        rendered(img) == header_text(img) + ":"@ + b64::encoding(img.payload) + "\u{7}"@,
        b64::decoding(b64::encoding(img.payload)) == img.payload,
{
    b64::lemma_round_trip(img.payload);
}

/// Overwrite law: setting the same axis twice keeps only the second value,
/// for the width as well as for the height.
pub proof fn lemma_axis_overwrite(img: PendingImage, first: LengthUnit, second: LengthUnit)
    ensures
        (PendingImage { width: Some(second), ..(PendingImage { width: Some(first), ..img }) }
            == PendingImage { width: Some(second), ..img }),
        (PendingImage { height: Some(second), ..(PendingImage { height: Some(first), ..img }) }
            == PendingImage { height: Some(second), ..img }),
{
}

/// Order law: updates of distinct fields commute, so the accumulated state,
/// and with it the output of `build`, depends only on the last value given
/// for each field and never on the order of the setter calls; the emitted
/// field order is the fixed one of [`header_text`].
pub proof fn lemma_setter_order(
    img: PendingImage,
    n: Seq<char>,
    w: LengthUnit,
    h: LengthUnit,
    pa: bool,
    inl: bool,
)
    ensures
        (PendingImage { display_name: Some(n), ..(PendingImage { width: Some(w), ..img }) }
            == PendingImage { width: Some(w), ..(PendingImage { display_name: Some(n), ..img }) }),
        (PendingImage { display_name: Some(n), ..(PendingImage { height: Some(h), ..img }) }
            == PendingImage { height: Some(h), ..(PendingImage { display_name: Some(n), ..img }) }),
        (PendingImage {
            display_name: Some(n),
            ..(PendingImage { preserve_aspect_ratio: Some(pa), ..img })
        } == PendingImage {
            preserve_aspect_ratio: Some(pa),
            ..(PendingImage { display_name: Some(n), ..img })
        }),
        (PendingImage { display_name: Some(n), ..(PendingImage { inline_display: Some(inl), ..img }) }
            == PendingImage {
            inline_display: Some(inl),
            ..(PendingImage { display_name: Some(n), ..img })
        }),
        (PendingImage { width: Some(w), ..(PendingImage { height: Some(h), ..img }) }
            == PendingImage { height: Some(h), ..(PendingImage { width: Some(w), ..img }) }),
        (PendingImage { width: Some(w), ..(PendingImage { preserve_aspect_ratio: Some(pa), ..img }) }
            == PendingImage {
            preserve_aspect_ratio: Some(pa),
            ..(PendingImage { width: Some(w), ..img })
        }),
        (PendingImage { width: Some(w), ..(PendingImage { inline_display: Some(inl), ..img }) }
            == PendingImage { inline_display: Some(inl), ..(PendingImage { width: Some(w), ..img }) }),
        (PendingImage { height: Some(h), ..(PendingImage { preserve_aspect_ratio: Some(pa), ..img }) }
            == PendingImage {
            preserve_aspect_ratio: Some(pa),
            ..(PendingImage { height: Some(h), ..img })
        }),
        (PendingImage { height: Some(h), ..(PendingImage { inline_display: Some(inl), ..img }) }
            == PendingImage {
            inline_display: Some(inl),
            ..(PendingImage { height: Some(h), ..img })
        }),
        (PendingImage {
            preserve_aspect_ratio: Some(pa),
            ..(PendingImage { inline_display: Some(inl), ..img })
        } == PendingImage {
            inline_display: Some(inl),
            ..(PendingImage { preserve_aspect_ratio: Some(pa), ..img })
        }),
{
}

/// Boolean rendering law: a `true` flag renders as `1` and a `false` flag
/// as `0`, both for `preserve_aspect_ratio` and for `inline`.
pub proof fn lemma_boolean_rendering(b: bool)
    ensures
        flag_text(b) == if b {
            "1"@
        } else {
            "0"@
        },
        ratio_section(Some(b)) == ";preserve_aspect_ratio="@ + flag_text(b),
        inline_section(Some(b)) == ";inline="@ + flag_text(b),
{
}

/// `i` is the start of an occurrence of `needle` within `hay`.
pub open spec fn match_at(hay: Seq<char>, needle: Seq<char>, i: int) -> bool {
    0 <= i && i + needle.len() <= hay.len() && hay.subrange(i, i + needle.len()) == needle
}

/// The model of a builder fresh from `from_bytes`: the payload alone, every
/// optional field absent.
pub open spec fn bare(payload: Seq<u8>) -> PendingImage {
    PendingImage {
        payload,
        display_name: None,
        width: None,
        height: None,
        preserve_aspect_ratio: None,
        inline_display: None,
    }
}

/// Size law: for every payload, the output of a builder fresh from
/// `from_bytes` contains `size=<N>` exactly once — at the fixed position
/// just after the OSC prefix — with `N` the decimal byte count of the
/// payload.
pub proof fn lemma_size_field_unique(payload: Seq<u8>)
    ensures
        match_at(rendered(bare(payload)), "size="@ + digits::decimal(payload.len()), 12),
        forall|i: int|
            match_at(rendered(bare(payload)), "size="@ + digits::decimal(payload.len()), i) ==> i
                == 12,
{
    let out = rendered(bare(payload));
    let a = "\u{1b}]1337;File=size="@;
    let d = digits::decimal(payload.len());
    let e = b64::encoding(payload);
    let needle = "size="@ + d;
    reveal_strlit("\u{1b}]1337;File=size=");
    reveal_strlit("size=");
    reveal_strlit(":");
    reveal_strlit("\u{7}");
    digits::lemma_decimal_digits(payload.len());
    b64::lemma_encoding_padding(payload);
    assert(a.len() == 17);
    assert(out =~= a + d + ":"@ + e + "\u{7}"@);
    assert(out.len() == 19 + d.len() + e.len());
    assert(needle.len() == 5 + d.len());
    assert(out.subrange(12, 12 + needle.len() as int) =~= needle) by {
        assert forall|k: int| 0 <= k < needle.len() implies out.subrange(
            12,
            12 + needle.len() as int,
        )[k] == needle[k] by {
            if k < 5 {
                assert(out[12 + k] == a[12 + k]);
                assert(needle[k] == "size="@[k]);
            } else {
                assert(out[12 + k] == d[k - 5]);
                assert(needle[k] == d[k - 5]);
            }
        }
    }
    assert(match_at(out, needle, 12));
    assert forall|i: int| match_at(out, needle, i) implies i == 12 by {
        assert(out[i + 4] == out.subrange(i, i + needle.len() as int)[4]);
        assert(out[i + 5] == out.subrange(i, i + needle.len() as int)[5]);
        assert(out[i + 4] == '=');
        assert(out[i + 5] == d[0]);
        assert(digits::is_digit(d[0]));
        if i + 4 < 17 {
            // Inside the prefix the only `=` followed by more text are at
            // indices 11 (`File=`) and 16 (`size=`); index 11 is preceded
            // by `File`, not `size`.
            assert(out[i + 4] == a[i + 4]);
            if i + 4 == 11 {
                assert(out[i] == out.subrange(i, i + needle.len() as int)[0]);
                assert(out[i] == 'F');
                assert(needle[0] == 's');
                assert(false);
            } else {
                assert(i + 4 == 16);
            }
        } else if i + 4 < 17 + d.len() {
            assert(out[i + 4] == d[i + 4 - 17]);
            assert(digits::is_digit(d[i + 4 - 17]));
            assert(false);
        } else if i + 4 == 17 + d.len() {
            assert(out[i + 4] == ':');
            assert(false);
        } else if i + 4 < 18 + d.len() + e.len() {
            let j = i + 4 - 18 - d.len();
            assert(out[i + 4] == e[j]);
            assert(e[j] == '=');
            if j + 1 == e.len() {
                assert(i + 5 == 18 + d.len() + e.len());
                assert(out[i + 5] == '\u{7}');
                assert(false);
            } else {
                assert(out[i + 5] == e[j + 1]);
                assert(e[j + 1] == '=');
                assert(false);
            }
        } else {
            assert(i + 4 == 18 + d.len() + e.len());
            assert(out[i + 4] == '\u{7}');
            assert(false);
        }
    }
}

/// Offset of the `name` section within the rendered output.
pub open spec fn pos_name(img: PendingImage) -> int {
    17 + digits::decimal(img.payload.len()).len() as int
}

/// Offset of the `width` section within the rendered output.
pub open spec fn pos_width(img: PendingImage) -> int {
    pos_name(img) + name_section(img.display_name).len()
}

/// Offset of the `height` section within the rendered output.
pub open spec fn pos_height(img: PendingImage) -> int {
    pos_width(img) + width_section(img.width).len()
}

/// Offset of the `preserve_aspect_ratio` section within the rendered
/// output.
pub open spec fn pos_ratio(img: PendingImage) -> int {
    pos_height(img) + height_section(img.height).len()
}

/// Offset of the `inline` section within the rendered output.
pub open spec fn pos_inline(img: PendingImage) -> int {
    pos_ratio(img) + ratio_section(img.preserve_aspect_ratio).len()
}

/// Offset of the `:` separator within the rendered output.
pub open spec fn pos_colon(img: PendingImage) -> int {
    pos_inline(img) + inline_section(img.inline_display).len()
}

/// The display name, when present, contains no `;`. A name with a `;`
/// corrupts the sequence — the builder emits it verbatim — so the presence
/// law holds only without one.
pub open spec fn name_has_no_semicolon(img: PendingImage) -> bool {
    match img.display_name {
        Some(n) => forall|k: int| 0 <= k < n.len() ==> n[k] != ';',
        None => true,
    }
}

proof fn lemma_length_text_no_semicolon(l: LengthUnit)
    ensures
        forall|k: int| 0 <= k < length_text(l).len() ==> #[trigger] length_text(l)[k] != ';',
{
    reveal_strlit("px");
    reveal_strlit("%");
    reveal_strlit("auto");
    match l {
        LengthUnit::Cell(n) => {
            digits::lemma_decimal_digits(n as nat);
        },
        LengthUnit::Pixel(n) => {
            digits::lemma_decimal_digits(n as nat);
        },
        LengthUnit::Percent(n) => {
            digits::lemma_decimal_digits(n as nat);
        },
        LengthUnit::Auto => {},
    }
}

/// Every `;` of the rendered output stands either in the OSC prefix or at
/// the start of a present optional field, and each present field's label
/// stands at its section offset.
#[verifier::rlimit(80)]
proof fn lemma_semicolon_positions(img: PendingImage)
    requires
        name_has_no_semicolon(img),
    ensures
        forall|k: int|
            #![trigger rendered(img)[k]]
            0 <= k < rendered(img).len() && rendered(img)[k] == ';' ==> k == 6 || (
            img.display_name is Some && k == pos_name(img)) || (img.width is Some && k == pos_width(
                img,
            )) || (img.height is Some && k == pos_height(img)) || (img.preserve_aspect_ratio is Some
                && k == pos_ratio(img)) || (img.inline_display is Some && k == pos_inline(img)),
        rendered(img)[7] == 'F',
        img.display_name is Some ==> match_at(rendered(img), ";name="@, pos_name(img)),
        img.width is Some ==> match_at(rendered(img), ";width="@, pos_width(img)),
        img.height is Some ==> match_at(rendered(img), ";height="@, pos_height(img)),
        img.preserve_aspect_ratio is Some ==> match_at(
            rendered(img),
            ";preserve_aspect_ratio="@,
            pos_ratio(img),
        ),
        img.inline_display is Some ==> match_at(rendered(img), ";inline="@, pos_inline(img)),
{
    let out = rendered(img);
    let he = header_text(img);
    let a = "\u{1b}]1337;File=size="@;
    let d = digits::decimal(img.payload.len());
    let nn = name_section(img.display_name);
    let ww = width_section(img.width);
    let hh = height_section(img.height);
    let rr = ratio_section(img.preserve_aspect_ratio);
    let ii = inline_section(img.inline_display);
    let e = b64::encoding(img.payload);
    reveal_strlit("\u{1b}]1337;File=size=");
    reveal_strlit(";name=");
    reveal_strlit(";width=");
    reveal_strlit(";height=");
    reveal_strlit(";preserve_aspect_ratio=");
    reveal_strlit(";inline=");
    reveal_strlit(":");
    reveal_strlit("\u{7}");
    reveal_strlit("0");
    reveal_strlit("1");
    digits::lemma_decimal_digits(img.payload.len());
    b64::lemma_encoding_padding(img.payload);
    if let Some(w) = img.width {
        lemma_length_text_no_semicolon(w);
    }
    if let Some(h) = img.height {
        lemma_length_text_no_semicolon(h);
    }
    assert(a.len() == 17);
    assert(he.len() == pos_colon(img));
    assert(out.len() == pos_colon(img) + 2 + e.len());
    assert(out[7] == a[7]);
    assert forall|k: int|
        #![trigger rendered(img)[k]]
        0 <= k < out.len() && out[k] == ';' implies k == 6 || (img.display_name is Some && k
        == pos_name(img)) || (img.width is Some && k == pos_width(img)) || (img.height is Some && k
        == pos_height(img)) || (img.preserve_aspect_ratio is Some && k == pos_ratio(img)) || (
    img.inline_display is Some && k == pos_inline(img)) by {
        if k < he.len() {
            assert(out[k] == he[k]);
            if k < 17 {
                assert(he[k] == a[k]);
            } else if k < pos_name(img) {
                assert(he[k] == d[k - 17]);
                assert(digits::is_digit(d[k - 17]));
            } else if k < pos_width(img) {
                let t = k - pos_name(img);
                assert(he[k] == nn[t]);
                if let Some(n) = img.display_name {
                    assert(nn == ";name="@ + n);
                    if 0 < t < 6 {
                        assert(nn[t] == ";name="@[t]);
                        assert(nn[t] != ';');
                    } else if t >= 6 {
                        assert(nn[t] == n[t - 6]);
                        assert(nn[t] != ';');
                    }
                }
            } else if k < pos_height(img) {
                let t = k - pos_width(img);
                assert(he[k] == ww[t]);
                if let Some(w) = img.width {
                    assert(ww == ";width="@ + length_text(w));
                    if 0 < t < 7 {
                        assert(ww[t] == ";width="@[t]);
                        assert(ww[t] != ';');
                    } else if t >= 7 {
                        assert(ww[t] == length_text(w)[t - 7]);
                        assert(ww[t] != ';');
                    }
                }
            } else if k < pos_ratio(img) {
                let t = k - pos_height(img);
                assert(he[k] == hh[t]);
                if let Some(h) = img.height {
                    assert(hh == ";height="@ + length_text(h));
                    if 0 < t < 8 {
                        assert(hh[t] == ";height="@[t]);
                        assert(hh[t] != ';');
                    } else if t >= 8 {
                        assert(hh[t] == length_text(h)[t - 8]);
                        assert(hh[t] != ';');
                    }
                }
            } else if k < pos_inline(img) {
                let t = k - pos_ratio(img);
                assert(he[k] == rr[t]);
                if let Some(b) = img.preserve_aspect_ratio {
                    assert(rr == ";preserve_aspect_ratio="@ + flag_text(b));
                    if 0 < t < 23 {
                        assert(rr[t] == ";preserve_aspect_ratio="@[t]);
                        assert(rr[t] != ';');
                    } else if t >= 23 {
                        assert(rr[t] == flag_text(b)[t - 23]);
                        assert(rr[t] != ';');
                    }
                }
            } else {
                let t = k - pos_inline(img);
                assert(he[k] == ii[t]);
                if let Some(b) = img.inline_display {
                    assert(ii == ";inline="@ + flag_text(b));
                    if 0 < t < 8 {
                        assert(ii[t] == ";inline="@[t]);
                        assert(ii[t] != ';');
                    } else if t >= 8 {
                        assert(ii[t] == flag_text(b)[t - 8]);
                        assert(ii[t] != ';');
                    }
                }
            }
        } else if k == pos_colon(img) {
            assert(out[k] == ':');
        } else if k < pos_colon(img) + 1 + e.len() {
            let t = k - pos_colon(img) - 1;
            assert(out[k] == e[t]);
            assert(b64::is_b64_alpha(e[t]) || e[t] == '=');
        } else {
            assert(out[k] == '\u{7}');
        }
    }
    if img.display_name is Some {
        assert(out.subrange(pos_name(img), pos_name(img) + 6) =~= ";name="@) by {
            assert forall|t: int| 0 <= t < 6 implies out.subrange(
                pos_name(img),
                pos_name(img) + 6,
            )[t] == ";name="@[t] by {
                assert(out[pos_name(img) + t] == he[pos_name(img) + t]);
                assert(he[pos_name(img) + t] == nn[t]);
            }
        }
    }
    if img.width is Some {
        assert(out.subrange(pos_width(img), pos_width(img) + 7) =~= ";width="@) by {
            assert forall|t: int| 0 <= t < 7 implies out.subrange(
                pos_width(img),
                pos_width(img) + 7,
            )[t] == ";width="@[t] by {
                assert(out[pos_width(img) + t] == he[pos_width(img) + t]);
                assert(he[pos_width(img) + t] == ww[t]);
            }
        }
    }
    if img.height is Some {
        assert(out.subrange(pos_height(img), pos_height(img) + 8) =~= ";height="@) by {
            assert forall|t: int| 0 <= t < 8 implies out.subrange(
                pos_height(img),
                pos_height(img) + 8,
            )[t] == ";height="@[t] by {
                assert(out[pos_height(img) + t] == he[pos_height(img) + t]);
                assert(he[pos_height(img) + t] == hh[t]);
            }
        }
    }
    if img.preserve_aspect_ratio is Some {
        assert(out.subrange(pos_ratio(img), pos_ratio(img) + 23) =~= ";preserve_aspect_ratio="@)
            by {
            assert forall|t: int| 0 <= t < 23 implies out.subrange(
                pos_ratio(img),
                pos_ratio(img) + 23,
            )[t] == ";preserve_aspect_ratio="@[t] by {
                assert(out[pos_ratio(img) + t] == he[pos_ratio(img) + t]);
                assert(he[pos_ratio(img) + t] == rr[t]);
            }
        }
    }
    if img.inline_display is Some {
        assert(out.subrange(pos_inline(img), pos_inline(img) + 8) =~= ";inline="@) by {
            assert forall|t: int| 0 <= t < 8 implies out.subrange(
                pos_inline(img),
                pos_inline(img) + 8,
            )[t] == ";inline="@[t] by {
                assert(out[pos_inline(img) + t] == he[pos_inline(img) + t]);
                assert(he[pos_inline(img) + t] == ii[t]);
            }
        }
    }
}

/// Presence law: each optional field's text appears in the output if and
/// only if the corresponding setter was called — provided the display name,
/// which is emitted verbatim, does not itself contain a `;`.
pub proof fn lemma_field_presence(img: PendingImage)
    requires
        name_has_no_semicolon(img),
    ensures
        (exists|i: int| match_at(rendered(img), ";name="@, i)) <==> img.display_name is Some,
        (exists|i: int| match_at(rendered(img), ";width="@, i)) <==> img.width is Some,
        (exists|i: int| match_at(rendered(img), ";height="@, i)) <==> img.height is Some,
        (exists|i: int| match_at(rendered(img), ";preserve_aspect_ratio="@, i))
            <==> img.preserve_aspect_ratio is Some,
        (exists|i: int| match_at(rendered(img), ";inline="@, i)) <==> img.inline_display is Some,
{
    let out = rendered(img);
    lemma_semicolon_positions(img);
    reveal_strlit(";name=");
    reveal_strlit(";width=");
    reveal_strlit(";height=");
    reveal_strlit(";preserve_aspect_ratio=");
    reveal_strlit(";inline=");
    assert forall|i: int, needle: Seq<char>|
        (needle == ";name="@ || needle == ";width="@ || needle == ";height="@ || needle
            == ";preserve_aspect_ratio="@ || needle == ";inline="@) && match_at(
            out,
            needle,
            i,
        ) implies out[i] == ';' && out[i + 1] == needle[1] by {
        assert(out[i] == out.subrange(i, i + needle.len() as int)[0]);
        assert(out[i + 1] == out.subrange(i, i + needle.len() as int)[1]);
    }
    if exists|i: int| match_at(out, ";name="@, i) {
        let i = choose|i: int| match_at(out, ";name="@, i);
        assert(out[i] == ';' && out[i + 1] == 'n');
        lemma_second_chars(img, i);
        assert(img.display_name is Some);
    }
    if exists|i: int| match_at(out, ";width="@, i) {
        let i = choose|i: int| match_at(out, ";width="@, i);
        assert(out[i] == ';' && out[i + 1] == 'w');
        lemma_second_chars(img, i);
        assert(img.width is Some);
    }
    if exists|i: int| match_at(out, ";height="@, i) {
        let i = choose|i: int| match_at(out, ";height="@, i);
        assert(out[i] == ';' && out[i + 1] == 'h');
        lemma_second_chars(img, i);
        assert(img.height is Some);
    }
    if exists|i: int| match_at(out, ";preserve_aspect_ratio="@, i) {
        let i = choose|i: int| match_at(out, ";preserve_aspect_ratio="@, i);
        assert(out[i] == ';' && out[i + 1] == 'p');
        lemma_second_chars(img, i);
        assert(img.preserve_aspect_ratio is Some);
    }
    if exists|i: int| match_at(out, ";inline="@, i) {
        let i = choose|i: int| match_at(out, ";inline="@, i);
        assert(out[i] == ';' && out[i + 1] == 'i');
        lemma_second_chars(img, i);
        assert(img.inline_display is Some);
    }
}

/// Order law, on the output itself: the fields that are present stand at
/// increasing offsets, in the fixed order size, name, width, height,
/// preserve_aspect_ratio, inline — whatever the order of the setter calls
/// was. The `size` field always stands at offset 12.
pub proof fn lemma_field_order(img: PendingImage)
    requires
        name_has_no_semicolon(img),
    ensures
        12 < pos_name(img) <= pos_width(img) <= pos_height(img) <= pos_ratio(img) <= pos_inline(
            img,
        ) <= pos_colon(img),
        img.display_name is Some ==> match_at(rendered(img), ";name="@, pos_name(img)) && pos_name(
            img,
        ) < pos_width(img),
        img.width is Some ==> match_at(rendered(img), ";width="@, pos_width(img)) && pos_width(img)
            < pos_height(img),
        img.height is Some ==> match_at(rendered(img), ";height="@, pos_height(img)) && pos_height(
            img,
        ) < pos_ratio(img),
        img.preserve_aspect_ratio is Some ==> match_at(
            rendered(img),
            ";preserve_aspect_ratio="@,
            pos_ratio(img),
        ) && pos_ratio(img) < pos_inline(img),
        img.inline_display is Some ==> match_at(rendered(img), ";inline="@, pos_inline(img))
            && pos_inline(img) < pos_colon(img),
{
    lemma_semicolon_positions(img);
    reveal_strlit(";name=");
    reveal_strlit(";width=");
    reveal_strlit(";height=");
    reveal_strlit(";preserve_aspect_ratio=");
    reveal_strlit(";inline=");
}

/// The character after each possible `;` position decides which field the
/// `;` opens: `F` after the prefix `;`, then the distinct first letters of
/// the five field labels.
proof fn lemma_second_chars(img: PendingImage, i: int)
    requires
        name_has_no_semicolon(img),
        0 <= i,
        i + 2 <= rendered(img).len(),
        rendered(img)[i] == ';',
    ensures
        i == 6 ==> rendered(img)[i + 1] == 'F',
        img.display_name is Some && i == pos_name(img) ==> rendered(img)[i + 1] == 'n',
        img.width is Some && i == pos_width(img) ==> rendered(img)[i + 1] == 'w',
        img.height is Some && i == pos_height(img) ==> rendered(img)[i + 1] == 'h',
        img.preserve_aspect_ratio is Some && i == pos_ratio(img) ==> rendered(img)[i + 1] == 'p',
        img.inline_display is Some && i == pos_inline(img) ==> rendered(img)[i + 1] == 'i',
        i == 6 || (img.display_name is Some && i == pos_name(img)) || (img.width is Some && i
            == pos_width(img)) || (img.height is Some && i == pos_height(img)) || (
        img.preserve_aspect_ratio is Some && i == pos_ratio(img)) || (img.inline_display is Some
            && i == pos_inline(img)),
{
    lemma_semicolon_positions(img);
    reveal_strlit("\u{1b}]1337;File=size=");
    reveal_strlit(";name=");
    reveal_strlit(";width=");
    reveal_strlit(";height=");
    reveal_strlit(";preserve_aspect_ratio=");
    reveal_strlit(";inline=");
    let out = rendered(img);
    if img.display_name is Some && i == pos_name(img) {
        assert(out[i + 1] == out.subrange(pos_name(img), pos_name(img) + 6)[1]);
    }
    if img.width is Some && i == pos_width(img) {
        assert(out[i + 1] == out.subrange(pos_width(img), pos_width(img) + 7)[1]);
    }
    if img.height is Some && i == pos_height(img) {
        assert(out[i + 1] == out.subrange(pos_height(img), pos_height(img) + 8)[1]);
    }
    if img.preserve_aspect_ratio is Some && i == pos_ratio(img) {
        assert(out[i + 1] == out.subrange(pos_ratio(img), pos_ratio(img) + 23)[1]);
    }
    if img.inline_display is Some && i == pos_inline(img) {
        assert(out[i + 1] == out.subrange(pos_inline(img), pos_inline(img) + 8)[1]);
    }
    if i == 6 {
        assert(out[7] == 'F');
    }
}

} // verus!

