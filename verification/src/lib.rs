//! Builder for the inline-image escape sequence understood by iTerm2-style
//! terminals: an OSC `1337;File=` header carrying key/value metadata fields,
//! a `:` separator, the payload encoded in standard base64, and a BEL
//! terminator.

use vstd::prelude::*;
use vstd::string::StringExecFns;

pub mod b64;
pub mod digits;
pub mod laws;

verus! {

/// A width or height, tagged with its unit.
pub enum LengthUnit {
    /// Size in terminal character cells.
    Cell(u64),
    /// Size in pixels.
    Pixel(u64),
    /// Size as a percentage of the terminal dimension.
    Percent(u64),
    /// Let the terminal choose.
    Auto,
}

/// The mathematical model of a [`Builder`]: the payload plus the optional
/// metadata fields accumulated so far.
pub ghost struct PendingImage {
    pub payload: Seq<u8>,
    pub display_name: Option<Seq<char>>,
    pub width: Option<LengthUnit>,
    pub height: Option<LengthUnit>,
    pub preserve_aspect_ratio: Option<bool>,
    pub inline_display: Option<bool>,
}

/// The rendering of a width or height value: the bare number for cells,
/// `px` or `%` suffixes for pixels and percent, and the word `auto`.
pub open spec fn length_text(l: LengthUnit) -> Seq<char> {
    match l {
        LengthUnit::Cell(n) => digits::decimal(n as nat),
        LengthUnit::Pixel(n) => digits::decimal(n as nat) + "px"@,
        LengthUnit::Percent(n) => digits::decimal(n as nat) + "%"@,
        LengthUnit::Auto => "auto"@,
    }
}

/// The rendering of a boolean field value: `1` for true, `0` for false.
pub open spec fn flag_text(b: bool) -> Seq<char> {
    if b {
        "1"@
    } else {
        "0"@
    }
}

/// The `name` field, or nothing when the name is absent.
pub open spec fn name_section(n: Option<Seq<char>>) -> Seq<char> {
    match n {
        Some(s) => ";name="@ + s,
        None => Seq::<char>::empty(),
    }
}

/// The `width` field, or nothing when the width is absent.
pub open spec fn width_section(w: Option<LengthUnit>) -> Seq<char> {
    match w {
        Some(l) => ";width="@ + length_text(l),
        None => Seq::<char>::empty(),
    }
}

/// The `height` field, or nothing when the height is absent.
pub open spec fn height_section(h: Option<LengthUnit>) -> Seq<char> {
    match h {
        Some(l) => ";height="@ + length_text(l),
        None => Seq::<char>::empty(),
    }
}

/// The `preserve_aspect_ratio` field, or nothing when the flag is absent.
pub open spec fn ratio_section(p: Option<bool>) -> Seq<char> {
    match p {
        Some(b) => ";preserve_aspect_ratio="@ + flag_text(b),
        None => Seq::<char>::empty(),
    }
}

/// The `inline` field, or nothing when the flag is absent.
pub open spec fn inline_section(p: Option<bool>) -> Seq<char> {
    match p {
        Some(b) => ";inline="@ + flag_text(b),
        None => Seq::<char>::empty(),
    }
}

/// The header of the escape sequence for `img`: everything before the `:`
/// separator, that is the OSC prefix, the mandatory `size` field, and the
/// optional fields in their fixed order.
pub open spec fn header_text(img: PendingImage) -> Seq<char> {
    "\u{1b}]1337;File=size="@ + digits::decimal(img.payload.len()) + name_section(
        img.display_name,
    ) + width_section(img.width) + height_section(img.height) + ratio_section(
        img.preserve_aspect_ratio,
    ) + inline_section(img.inline_display)
}

/// The complete escape sequence for `img`: the header, then the base64
/// payload between `:` and BEL.
pub open spec fn rendered(img: PendingImage) -> Seq<char> {
    header_text(img) + ":"@ + b64::encoding(img.payload) + "\u{7}"@
}

/// Accumulates the payload and optional metadata of one inline image and
/// serializes them with [`Builder::build`].
pub struct Builder {
    bytes: Vec<u8>,
    name: Option<String>,
    width: Option<LengthUnit>,
    height: Option<LengthUnit>,
    preserve_aspect_ratio: Option<bool>,
    inline: Option<bool>,
}

impl View for Builder {
    type V = PendingImage;

    closed spec fn view(&self) -> PendingImage {
        PendingImage {
            payload: self.bytes@,
            display_name: match self.name {
                Some(s) => Some(s@),
                None => None,
            },
            width: self.width,
            height: self.height,
            preserve_aspect_ratio: self.preserve_aspect_ratio,
            inline_display: self.inline,
        }
    }
}

/// Returns a builder over `bytes` with every optional field absent.
pub fn from_bytes(bytes: Vec<u8>) -> (r: Builder)
    ensures
        r@ == (PendingImage {
            payload: bytes@,
            display_name: None,
            width: None,
            height: None,
            preserve_aspect_ratio: None,
            inline_display: None,
        }),
{
    Builder {
        bytes,
        name: None,
        width: None,
        height: None,
        preserve_aspect_ratio: None,
        inline: None,
    }
}

/// Appends the rendering of one width or height value to `out`.
fn append_length(out: &mut String, l: &LengthUnit)
    ensures
        final(out)@ == old(out)@ + length_text(*l),
{
    match l {
        LengthUnit::Cell(n) => {
            digits::append_decimal(out, *n);
        },
        LengthUnit::Pixel(n) => {
            digits::append_decimal(out, *n);
            out.append("px");
            proof {
                assert(out@ =~= old(out)@ + length_text(*l));
            }
        },
        LengthUnit::Percent(n) => {
            digits::append_decimal(out, *n);
            out.append("%");
            proof {
                assert(out@ =~= old(out)@ + length_text(*l));
            }
        },
        LengthUnit::Auto => {
            out.append("auto");
        },
    }
}

/// Appends the `name` field to `out`, or nothing when the name is absent.
fn append_name(out: &mut String, name: &Option<String>)
    ensures
        final(out)@ == old(out)@ + name_section(name.deep_view()),
{
    match name {
        Some(n) => {
            out.append(";name=");
            out.append(n.as_str());
            proof {
                assert(out@ =~= old(out)@ + name_section(name.deep_view()));
            }
        },
        None => {},
    }
}

/// Appends the `width` field to `out`, or nothing when the width is absent.
fn append_width(out: &mut String, w: &Option<LengthUnit>)
    ensures
        final(out)@ == old(out)@ + width_section(*w),
{
    match w {
        Some(l) => {
            out.append(";width=");
            append_length(out, l);
            proof {
                assert(out@ =~= old(out)@ + width_section(*w));
            }
        },
        None => {},
    }
}

/// Appends the `height` field to `out`, or nothing when the height is
/// absent.
fn append_height(out: &mut String, h: &Option<LengthUnit>)
    ensures
        final(out)@ == old(out)@ + height_section(*h),
{
    match h {
        Some(l) => {
            out.append(";height=");
            append_length(out, l);
            proof {
                assert(out@ =~= old(out)@ + height_section(*h));
            }
        },
        None => {},
    }
}

/// Appends the `preserve_aspect_ratio` field to `out`, or nothing when the
/// flag is absent.
fn append_ratio(out: &mut String, p: &Option<bool>)
    ensures
        final(out)@ == old(out)@ + ratio_section(*p),
{
    match p {
        Some(b) => {
            out.append(";preserve_aspect_ratio=");
            out.append(if *b { "1" } else { "0" });
            proof {
                assert(out@ =~= old(out)@ + ratio_section(*p));
            }
        },
        None => {},
    }
}

/// Appends the `inline` field to `out`, or nothing when the flag is absent.
fn append_inline(out: &mut String, p: &Option<bool>)
    ensures
        final(out)@ == old(out)@ + inline_section(*p),
{
    match p {
        Some(b) => {
            out.append(";inline=");
            out.append(if *b { "1" } else { "0" });
            proof {
                assert(out@ =~= old(out)@ + inline_section(*p));
            }
        },
        None => {},
    }
}

impl Builder {
    /// Sets the suggested filename, emitted verbatim.
    pub fn name(self, v: String) -> (r: Builder)
        ensures
            r@ == (PendingImage { display_name: Some(v@), ..self@ }),
    {
        Builder { name: Some(v), ..self }
    }

    /// Sets the width in terminal cells.
    pub fn width(self, v: u64) -> (r: Builder)
        ensures
            r@ == (PendingImage { width: Some(LengthUnit::Cell(v)), ..self@ }),
    {
        Builder { width: Some(LengthUnit::Cell(v)), ..self }
    }

    /// Sets the width in pixels.
    pub fn width_px(self, v: u64) -> (r: Builder)
        ensures
            r@ == (PendingImage { width: Some(LengthUnit::Pixel(v)), ..self@ }),
    {
        Builder { width: Some(LengthUnit::Pixel(v)), ..self }
    }

    /// Sets the width as a percentage of the terminal width.
    pub fn width_percent(self, v: u64) -> (r: Builder)
        ensures
            r@ == (PendingImage { width: Some(LengthUnit::Percent(v)), ..self@ }),
    {
        Builder { width: Some(LengthUnit::Percent(v)), ..self }
    }

    /// Lets the terminal choose the width.
    pub fn width_auto(self) -> (r: Builder)
        ensures
            r@ == (PendingImage { width: Some(LengthUnit::Auto), ..self@ }),
    {
        Builder { width: Some(LengthUnit::Auto), ..self }
    }

    /// Sets the height in terminal cells.
    pub fn height(self, v: u64) -> (r: Builder)
        ensures
            r@ == (PendingImage { height: Some(LengthUnit::Cell(v)), ..self@ }),
    {
        Builder { height: Some(LengthUnit::Cell(v)), ..self }
    }

    /// Sets the height in pixels.
    pub fn height_px(self, v: u64) -> (r: Builder)
        ensures
            r@ == (PendingImage { height: Some(LengthUnit::Pixel(v)), ..self@ }),
    {
        Builder { height: Some(LengthUnit::Pixel(v)), ..self }
    }

    /// Sets the height as a percentage of the terminal height.
    pub fn height_percent(self, v: u64) -> (r: Builder)
        ensures
            r@ == (PendingImage { height: Some(LengthUnit::Percent(v)), ..self@ }),
    {
        Builder { height: Some(LengthUnit::Percent(v)), ..self }
    }

    /// Lets the terminal choose the height.
    pub fn height_auto(self) -> (r: Builder)
        ensures
            r@ == (PendingImage { height: Some(LengthUnit::Auto), ..self@ }),
    {
        Builder { height: Some(LengthUnit::Auto), ..self }
    }

    /// Sets the aspect-ratio flag.
    pub fn preserve_aspect_ratio(self, v: bool) -> (r: Builder)
        ensures
            r@ == (PendingImage { preserve_aspect_ratio: Some(v), ..self@ }),
    {
        Builder { preserve_aspect_ratio: Some(v), ..self }
    }

    /// Sets the inline-display flag.
    pub fn inline(self, v: bool) -> (r: Builder)
        ensures
            r@ == (PendingImage { inline_display: Some(v), ..self@ }),
    {
        Builder { inline: Some(v), ..self }
    }

    /// Serializes the accumulated state into the escape-sequence string.
    /// The precondition only rules out payloads so large that the length of
    /// their base64 form cannot fit in `usize`.
    pub fn build(self) -> (r: String)
        requires
            b64::encodable(self@.payload.len()),
        ensures
            r@ == rendered(self@),
    {
        let Builder { bytes, name, width, height, preserve_aspect_ratio, inline } = self;
        let mut s = String::new();
        s.append("\u{1b}]1337;File=size=");
        digits::append_decimal_usize(&mut s, bytes.len());
        append_name(&mut s, &name);
        append_width(&mut s, &width);
        append_height(&mut s, &height);
        append_ratio(&mut s, &preserve_aspect_ratio);
        append_inline(&mut s, &inline);
        s.append(":");
        let encoded = b64::to_base64(&bytes);
        s.append(encoded.as_str());
        s.append("\u{7}");
        proof {
            assert(s@ =~= rendered(self@));
        }
        s
    }
}

} // verus!
