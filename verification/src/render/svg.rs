//! The small, static SVG dialect accepted for slide artwork: which elements
//! and attributes may appear where, and which values are allowed. Numeric
//! values (lengths, numbers, colors, transforms, path data) are checked by
//! the caller with a float parser, as the returned `ValueCheck` says.
use crate::design::texts;
use crate::text::{
    char_is_whitespace, chars_of, decimal, eq_str, extend_chars, is_whitespace, push_decimal, string_of, trim, trim_bounds,
};
use vstd::prelude::*;

verus! {

broadcast use vstd::string::group_string_axioms;

/// The only namespace an SVG document may use.
pub const SVG_NAMESPACE: &'static str = "http://www.w3.org/2000/svg";

/// Deepest element nesting accepted; the root is at depth 0.
pub const MAX_SVG_DEPTH: usize = 64;

/// Why an SVG document was refused.
#[derive(Clone, Debug, PartialEq, Eq)]
pub enum SvgError {
    /// An element outside the dialect.
    UnsupportedElement { tag: String },
    NestedSvg,
    /// A shape or group outside `svg` or `g`.
    BadParent { tag: String },
    NamespacedAttribute { name: String },
    UnsupportedAttribute { name: String, tag: String },
    InvalidId,
    /// A keyword attribute with a value outside its keywords.
    InvalidKeyword { name: String },
    /// The first attribute that `tag` requires and lacks.
    MissingRequiredAttribute { tag: String, name: String },
    RootNotSvg,
    /// The root element is not in the SVG namespace.
    RootNamespace,
    /// An element in another namespace than the root's.
    MixedNamespace,
    /// A namespace declaration of another namespace.
    NamespaceDeclaration { uri: String },
    ProcessingInstruction,
    TextContent,
    /// `width` and `height` must be given together or both omitted.
    UnpairedSize,
    /// An element at depth `asked`, deeper than `MAX_SVG_DEPTH`.
    TooDeep { asked: u64 },
    Doctype,
    /// The rendered preview has no pixel with any opacity.
    NoVisibleArtwork,
    /// The reader found malformed XML.
    InvalidXml,
    /// The tree parser refused the document (malformed, or with a document type).
    UnparsableDocument,
    /// The document is `asked` bytes long, more than the `limit` of the media input budget.
    InputTooLarge { limit: u64, asked: u64 },
    /// A `fill` or `stroke` (its trimmed `value`) that is not `none`, `currentColor` or a color.
    InvalidPaint { value: String },
    /// A `color` that is not a color.
    InvalidColor,
}

/// An error as plain values.
pub ghost enum SvgErrorView {
    UnsupportedElement { tag: Seq<char> },
    NestedSvg,
    BadParent { tag: Seq<char> },
    NamespacedAttribute { name: Seq<char> },
    UnsupportedAttribute { name: Seq<char>, tag: Seq<char> },
    InvalidId,
    InvalidKeyword { name: Seq<char> },
    MissingRequiredAttribute { tag: Seq<char>, name: Seq<char> },
    RootNotSvg,
    RootNamespace,
    MixedNamespace,
    NamespaceDeclaration { uri: Seq<char> },
    ProcessingInstruction,
    TextContent,
    UnpairedSize,
    TooDeep { asked: u64 },
    Doctype,
    NoVisibleArtwork,
    InvalidXml,
    UnparsableDocument,
    InputTooLarge { limit: u64, asked: u64 },
    InvalidPaint { value: Seq<char> },
    InvalidColor,
}

/// See `SvgErrorView`.
pub open spec fn error_view(e: SvgError) -> SvgErrorView {
    match e {
        SvgError::UnsupportedElement { tag } => SvgErrorView::UnsupportedElement { tag: tag@ },
        SvgError::NestedSvg => SvgErrorView::NestedSvg,
        SvgError::BadParent { tag } => SvgErrorView::BadParent { tag: tag@ },
        SvgError::NamespacedAttribute { name } => SvgErrorView::NamespacedAttribute { name: name@ },
        SvgError::UnsupportedAttribute { name, tag } => SvgErrorView::UnsupportedAttribute { name: name@, tag: tag@ },
        SvgError::InvalidId => SvgErrorView::InvalidId,
        SvgError::InvalidKeyword { name } => SvgErrorView::InvalidKeyword { name: name@ },
        SvgError::MissingRequiredAttribute { tag, name } => SvgErrorView::MissingRequiredAttribute { tag: tag@, name: name@ },
        SvgError::RootNotSvg => SvgErrorView::RootNotSvg,
        SvgError::RootNamespace => SvgErrorView::RootNamespace,
        SvgError::MixedNamespace => SvgErrorView::MixedNamespace,
        SvgError::NamespaceDeclaration { uri } => SvgErrorView::NamespaceDeclaration { uri: uri@ },
        SvgError::ProcessingInstruction => SvgErrorView::ProcessingInstruction,
        SvgError::TextContent => SvgErrorView::TextContent,
        SvgError::UnpairedSize => SvgErrorView::UnpairedSize,
        SvgError::TooDeep { asked } => SvgErrorView::TooDeep { asked },
        SvgError::Doctype => SvgErrorView::Doctype,
        SvgError::NoVisibleArtwork => SvgErrorView::NoVisibleArtwork,
        SvgError::InvalidXml => SvgErrorView::InvalidXml,
        SvgError::UnparsableDocument => SvgErrorView::UnparsableDocument,
        SvgError::InputTooLarge { limit, asked } => SvgErrorView::InputTooLarge { limit, asked },
        SvgError::InvalidPaint { value } => SvgErrorView::InvalidPaint { value: value@ },
        SvgError::InvalidColor => SvgErrorView::InvalidColor,
    }
}

/// A result with its error as plain values.
pub open spec fn result_view<T>(r: Result<T, SvgError>) -> Result<T, SvgErrorView> {
    match r {
        Ok(v) => Ok(v),
        Err(e) => Err(error_view(e)),
    }
}

/// An optional error as plain values.
pub open spec fn option_view(o: Option<SvgError>) -> Option<SvgErrorView> {
    match o {
        Some(e) => Some(error_view(e)),
        None => None,
    }
}

/// The text of an error.
pub open spec fn svg_error_message(e: SvgErrorView) -> Seq<char> {
    match e {
        SvgErrorView::UnsupportedElement { tag } => "unsupported SVG element: "@ + tag,
        SvgErrorView::NestedSvg => "nested SVG elements are unsupported"@,
        SvgErrorView::BadParent { tag } => tag + " must be inside svg or g"@,
        SvgErrorView::NamespacedAttribute { name } => "namespaced SVG attributes are forbidden: "@ + name,
        SvgErrorView::UnsupportedAttribute { name, tag } => "unsupported attribute "@ + name + " on "@ + tag,
        SvgErrorView::InvalidId => "invalid SVG id"@,
        SvgErrorView::InvalidKeyword { name } => if name == "preserveAspectRatio"@ {
            "only centered, aspect-preserving viewBox fitting is supported"@
        } else {
            "invalid "@ + name
        },
        SvgErrorView::MissingRequiredAttribute { tag, name } => tag + " requires "@ + name,
        SvgErrorView::RootNotSvg => "document root must be svg"@,
        SvgErrorView::RootNamespace => "SVG root requires the http://www.w3.org/2000/svg namespace"@,
        SvgErrorView::MixedNamespace => "unsupported or mixed SVG namespace"@,
        SvgErrorView::NamespaceDeclaration { uri } => "unsupported namespace declaration: "@ + uri,
        SvgErrorView::ProcessingInstruction => "SVG processing instructions are forbidden"@,
        SvgErrorView::TextContent => "SVG text content is unsupported"@,
        SvgErrorView::UnpairedSize => "SVG width and height must be provided together or both omitted"@,
        SvgErrorView::TooDeep { asked } => "SVG nesting budget exceeded: limit "@ + decimal(MAX_SVG_DEPTH as nat)
            + ", asked "@ + decimal(asked as nat),
        SvgErrorView::Doctype => "invalid SVG XML; DTDs are forbidden"@,
        SvgErrorView::NoVisibleArtwork => "SVG has no visible artwork in its viewport"@,
        SvgErrorView::InvalidXml => "invalid SVG XML"@,
        SvgErrorView::UnparsableDocument => "invalid SVG XML; DTDs are forbidden"@,
        SvgErrorView::InputTooLarge { limit, asked } => "SVG input byte budget exceeded: limit "@ + decimal(limit as nat)
            + ", asked "@ + decimal(asked as nat),
        SvgErrorView::InvalidPaint { value } => "unsupported SVG paint: "@ + value,
        SvgErrorView::InvalidColor => "invalid SVG color"@,
    }
}

impl SvgError {
    /// The error's text (see `svg_error_message`).
    pub fn message(&self) -> (r: String)
        ensures
            r@ == svg_error_message(error_view(*self)),
    {
        let mut out: Vec<char> = Vec::new();
        match self {
            SvgError::UnsupportedElement { tag } => {
                extend_chars(&mut out, "unsupported SVG element: ");
                extend_chars(&mut out, tag.as_str());
            },
            SvgError::NestedSvg => extend_chars(&mut out, "nested SVG elements are unsupported"),
            SvgError::BadParent { tag } => {
                extend_chars(&mut out, tag.as_str());
                extend_chars(&mut out, " must be inside svg or g");
            },
            SvgError::NamespacedAttribute { name } => {
                extend_chars(&mut out, "namespaced SVG attributes are forbidden: ");
                extend_chars(&mut out, name.as_str());
            },
            SvgError::UnsupportedAttribute { name, tag } => {
                extend_chars(&mut out, "unsupported attribute ");
                extend_chars(&mut out, name.as_str());
                extend_chars(&mut out, " on ");
                extend_chars(&mut out, tag.as_str());
            },
            SvgError::InvalidId => extend_chars(&mut out, "invalid SVG id"),
            SvgError::InvalidKeyword { name } => {
                let n = chars_of(name.as_str());
                if eq_str(&n, "preserveAspectRatio") {
                    extend_chars(&mut out, "only centered, aspect-preserving viewBox fitting is supported");
                } else {
                    extend_chars(&mut out, "invalid ");
                    extend_chars(&mut out, name.as_str());
                }
            },
            SvgError::MissingRequiredAttribute { tag, name } => {
                extend_chars(&mut out, tag.as_str());
                extend_chars(&mut out, " requires ");
                extend_chars(&mut out, name.as_str());
            },
            SvgError::RootNotSvg => extend_chars(&mut out, "document root must be svg"),
            SvgError::RootNamespace => extend_chars(&mut out, "SVG root requires the http://www.w3.org/2000/svg namespace"),
            SvgError::MixedNamespace => extend_chars(&mut out, "unsupported or mixed SVG namespace"),
            SvgError::NamespaceDeclaration { uri } => {
                extend_chars(&mut out, "unsupported namespace declaration: ");
                extend_chars(&mut out, uri.as_str());
            },
            SvgError::ProcessingInstruction => extend_chars(&mut out, "SVG processing instructions are forbidden"),
            SvgError::TextContent => extend_chars(&mut out, "SVG text content is unsupported"),
            SvgError::UnpairedSize => extend_chars(
                &mut out,
                "SVG width and height must be provided together or both omitted",
            ),
            SvgError::TooDeep { asked } => {
                extend_chars(&mut out, "SVG nesting budget exceeded: limit ");
                push_decimal(&mut out, MAX_SVG_DEPTH as u64);
                extend_chars(&mut out, ", asked ");
                push_decimal(&mut out, *asked);
            },
            SvgError::Doctype => extend_chars(&mut out, "invalid SVG XML; DTDs are forbidden"),
            SvgError::NoVisibleArtwork => extend_chars(&mut out, "SVG has no visible artwork in its viewport"),
            SvgError::InvalidXml => extend_chars(&mut out, "invalid SVG XML"),
            SvgError::UnparsableDocument => extend_chars(&mut out, "invalid SVG XML; DTDs are forbidden"),
            SvgError::InputTooLarge { limit, asked } => {
                extend_chars(&mut out, "SVG input byte budget exceeded: limit ");
                push_decimal(&mut out, *limit);
                extend_chars(&mut out, ", asked ");
                push_decimal(&mut out, *asked);
            },
            SvgError::InvalidPaint { value } => {
                extend_chars(&mut out, "unsupported SVG paint: ");
                extend_chars(&mut out, value.as_str());
            },
            SvgError::InvalidColor => extend_chars(&mut out, "invalid SVG color"),
        }
        string_of(&out)
    }
}

/// The check a numeric attribute value still needs.
#[derive(Clone, Copy, Debug, PartialEq, Eq, Structural)]
pub enum ValueCheck {
    /// Nothing more: the value was fully checked here.
    Done,
    /// A list of finite numbers (`viewBox`).
    Numbers,
    /// Path data with finite numbers and nonnegative arc radii.
    PathData,
    /// An even number of finite coordinates, at least `minimum`.
    Points { minimum: usize },
    /// A color (`fill`, `stroke` other than `none` and `currentColor`).
    Paint,
    /// A color (`color`).
    Color,
    /// One number between 0 and 1; exactly 1 when it is a group's `opacity`.
    Opacity { group: bool },
    /// A transform list of finite numbers.
    Transform,
    /// One number of at least 1.
    MiterLimit,
    /// A length in user units or px; positive or nonnegative when asked.
    Length { positive: bool, nonnegative: bool },
}

/// An element name of the dialect.
pub open spec fn is_allowed_element(t: Seq<char>) -> bool {
    t == "svg"@ || t == "g"@ || t == "path"@ || t == "rect"@ || t == "circle"@ || t == "ellipse"@ || t == "line"@
        || t == "polyline"@ || t == "polygon"@
}

/// The verdict on where an element stands.
pub open spec fn placement_verdict(tag: Seq<char>, is_root: bool, parent: Option<Seq<char>>) -> Result<(), SvgErrorView> {
    if !is_allowed_element(tag) {
        Err(SvgErrorView::UnsupportedElement { tag })
    } else if tag == "svg"@ && !is_root {
        Err(SvgErrorView::NestedSvg)
    } else if !is_root && !(parent == Some("svg"@) || parent == Some("g"@)) {
        Err(SvgErrorView::BadParent { tag })
    } else {
        Ok(())
    }
}

/// Elements are from the dialect, `svg` only at the root, and every other
/// element directly inside `svg` or `g`.
pub fn check_placement(tag: &str, is_root: bool, parent: Option<&str>) -> (r: Result<(), SvgError>)
    ensures
        result_view(r) == placement_verdict(tag@, is_root, match parent { Some(p) => Some(p@), None => None }),
{
    let t = chars_of(tag);
    let allowed = eq_str(&t, "svg") || eq_str(&t, "g") || eq_str(&t, "path") || eq_str(&t, "rect") || eq_str(&t, "circle")
        || eq_str(&t, "ellipse") || eq_str(&t, "line") || eq_str(&t, "polyline") || eq_str(&t, "polygon");
    if !allowed {
        return Err(SvgError::UnsupportedElement { tag: tag.to_owned() });
    }
    if eq_str(&t, "svg") && !is_root {
        return Err(SvgError::NestedSvg);
    }
    if !is_root {
        let ok = match parent {
            Some(p) => {
                let pv = chars_of(p);
                eq_str(&pv, "svg") || eq_str(&pv, "g")
            },
            None => false,
        };
        if !ok {
            return Err(SvgError::BadParent { tag: tag.to_owned() });
        }
    }
    Ok(())
}

/// A geometry attribute of an element.
pub open spec fn is_geometry(tag: Seq<char>, n: Seq<char>) -> bool {
    if tag == "svg"@ {
        n == "viewBox"@ || n == "width"@ || n == "height"@ || n == "preserveAspectRatio"@
    } else if tag == "rect"@ {
        n == "x"@ || n == "y"@ || n == "width"@ || n == "height"@ || n == "rx"@ || n == "ry"@
    } else if tag == "circle"@ {
        n == "cx"@ || n == "cy"@ || n == "r"@
    } else if tag == "ellipse"@ {
        n == "cx"@ || n == "cy"@ || n == "rx"@ || n == "ry"@
    } else if tag == "line"@ {
        n == "x1"@ || n == "y1"@ || n == "x2"@ || n == "y2"@
    } else if tag == "path"@ {
        n == "d"@
    } else if tag == "polyline"@ || tag == "polygon"@ {
        n == "points"@
    } else {
        false
    }
}

/// A presentation attribute allowed on every element.
pub open spec fn is_presentation(n: Seq<char>) -> bool {
    n == "id"@ || n == "fill"@ || n == "stroke"@ || n == "color"@ || n == "opacity"@ || n == "fill-opacity"@
        || n == "stroke-opacity"@ || n == "stroke-width"@ || n == "stroke-linecap"@ || n == "stroke-linejoin"@
        || n == "stroke-miterlimit"@ || n == "fill-rule"@ || n == "transform"@ || n == "display"@
        || n == "visibility"@
}

/// The allowed keywords of a keyword attribute, `None` for other attributes.
pub open spec fn keyword_ok(n: Seq<char>, v: Seq<char>) -> Option<bool> {
    if n == "stroke-linecap"@ {
        Some(v == "butt"@ || v == "round"@ || v == "square"@)
    } else if n == "stroke-linejoin"@ {
        Some(v == "miter"@ || v == "round"@ || v == "bevel"@)
    } else if n == "fill-rule"@ {
        Some(v == "nonzero"@ || v == "evenodd"@)
    } else if n == "display"@ {
        Some(v == "inline"@ || v == "none"@)
    } else if n == "visibility"@ {
        Some(v == "visible"@ || v == "hidden"@ || v == "collapse"@)
    } else if n == "preserveAspectRatio"@ {
        Some(v == "xMidYMid"@ || v == "xMidYMid meet"@)
    } else {
        None
    }
}

/// A valid `id`: not empty and without white space.
pub open spec fn is_valid_id(v: Seq<char>) -> bool {
    v.len() > 0 && forall|i: int| 0 <= i < v.len() ==> !is_whitespace(#[trigger] v[i])
}

/// The verdict on one attribute of an element (its value trimmed), and the
/// numeric check it still needs.
pub open spec fn attribute_verdict(tag: Seq<char>, n: Seq<char>, raw: Seq<char>, namespaced: bool) -> Result<ValueCheck, SvgErrorView> {
    let v = trim(raw);
    if namespaced {
        Err(SvgErrorView::NamespacedAttribute { name: n })
    } else if !is_geometry(tag, n) && !is_presentation(n) {
        Err(SvgErrorView::UnsupportedAttribute { name: n, tag })
    } else if n == "id"@ {
        if is_valid_id(v) {
            Ok(ValueCheck::Done)
        } else {
            Err(SvgErrorView::InvalidId)
        }
    } else if keyword_ok(n, v) is Some {
        if keyword_ok(n, v) == Some(true) {
            Ok(ValueCheck::Done)
        } else {
            Err(SvgErrorView::InvalidKeyword { name: n })
        }
    } else if n == "viewBox"@ {
        Ok(ValueCheck::Numbers)
    } else if n == "d"@ {
        Ok(ValueCheck::PathData)
    } else if n == "points"@ {
        Ok(ValueCheck::Points { minimum: if tag == "polygon"@ { 6 } else { 4 } })
    } else if n == "fill"@ || n == "stroke"@ {
        if v == "none"@ || v == "currentColor"@ {
            Ok(ValueCheck::Done)
        } else {
            Ok(ValueCheck::Paint)
        }
    } else if n == "color"@ {
        Ok(ValueCheck::Color)
    } else if n == "opacity"@ || n == "fill-opacity"@ || n == "stroke-opacity"@ {
        Ok(ValueCheck::Opacity { group: n == "opacity"@ && (tag == "svg"@ || tag == "g"@) })
    } else if n == "transform"@ {
        Ok(ValueCheck::Transform)
    } else if n == "stroke-miterlimit"@ {
        Ok(ValueCheck::MiterLimit)
    } else {
        Ok(
            ValueCheck::Length {
                positive: n == "width"@ || n == "height"@ || n == "r"@ || (tag == "ellipse"@ && (n == "rx"@ || n == "ry"@)),
                nonnegative: n == "rx"@ || n == "ry"@ || n == "stroke-width"@,
            },
        )
    }
}

/// `fill-rule` on every element takes exactly `nonzero`, `evenodd` once trimmed;
/// any other value is refused naming the attribute.
pub proof fn lemma_fill_rule_keywords(tag: Seq<char>, raw: Seq<char>)
    ensures
        attribute_verdict(tag, "fill-rule"@, raw, false) == if trim(raw) == "nonzero"@ || trim(raw) == "evenodd"@ {
            Ok::<ValueCheck, SvgErrorView>(ValueCheck::Done)
        } else {
            Err(SvgErrorView::InvalidKeyword { name: "fill-rule"@ })
        },
{
    reveal_strlit("fill-rule");
    reveal_strlit("id");
    reveal_strlit("stroke-linecap");
    reveal_strlit("stroke-linejoin");
    let v = trim(raw);
    assert("fill-rule"@.len() != "stroke-linecap"@.len());
    assert("fill-rule"@ != "stroke-linecap"@);
    assert("fill-rule"@.len() != "stroke-linejoin"@.len());
    assert("fill-rule"@ != "stroke-linejoin"@);
    assert("fill-rule"@.len() != "id"@.len());
    assert("fill-rule"@ != "id"@);
    assert(is_presentation("fill-rule"@));
    assert(keyword_ok("fill-rule"@, v) == Some(v == "nonzero"@ || v == "evenodd"@));
}

/// `stroke-linecap` on every element takes exactly `butt`, `round`, `square` once trimmed;
/// any other value is refused naming the attribute.
pub proof fn lemma_stroke_linecap_keywords(tag: Seq<char>, raw: Seq<char>)
    ensures
        attribute_verdict(tag, "stroke-linecap"@, raw, false) == if trim(raw) == "butt"@ || trim(raw) == "round"@ || trim(raw) == "square"@ {
            Ok::<ValueCheck, SvgErrorView>(ValueCheck::Done)
        } else {
            Err(SvgErrorView::InvalidKeyword { name: "stroke-linecap"@ })
        },
{
    reveal_strlit("stroke-linecap");
    reveal_strlit("id");
    let v = trim(raw);
    assert("stroke-linecap"@.len() != "id"@.len());
    assert("stroke-linecap"@ != "id"@);
    assert(is_presentation("stroke-linecap"@));
    assert(keyword_ok("stroke-linecap"@, v) == Some(v == "butt"@ || v == "round"@ || v == "square"@));
}

/// `stroke-linejoin` on every element takes exactly `miter`, `round`, `bevel` once trimmed;
/// any other value is refused naming the attribute.
pub proof fn lemma_stroke_linejoin_keywords(tag: Seq<char>, raw: Seq<char>)
    ensures
        attribute_verdict(tag, "stroke-linejoin"@, raw, false) == if trim(raw) == "miter"@ || trim(raw) == "round"@ || trim(raw) == "bevel"@ {
            Ok::<ValueCheck, SvgErrorView>(ValueCheck::Done)
        } else {
            Err(SvgErrorView::InvalidKeyword { name: "stroke-linejoin"@ })
        },
{
    reveal_strlit("stroke-linejoin");
    reveal_strlit("id");
    reveal_strlit("stroke-linecap");
    let v = trim(raw);
    assert("stroke-linejoin"@.len() != "stroke-linecap"@.len());
    assert("stroke-linejoin"@ != "stroke-linecap"@);
    assert("stroke-linejoin"@.len() != "id"@.len());
    assert("stroke-linejoin"@ != "id"@);
    assert(is_presentation("stroke-linejoin"@));
    assert(keyword_ok("stroke-linejoin"@, v) == Some(v == "miter"@ || v == "round"@ || v == "bevel"@));
}

/// `display` on every element takes exactly `inline`, `none` once trimmed;
/// any other value is refused naming the attribute.
pub proof fn lemma_display_keywords(tag: Seq<char>, raw: Seq<char>)
    ensures
        attribute_verdict(tag, "display"@, raw, false) == if trim(raw) == "inline"@ || trim(raw) == "none"@ {
            Ok::<ValueCheck, SvgErrorView>(ValueCheck::Done)
        } else {
            Err(SvgErrorView::InvalidKeyword { name: "display"@ })
        },
{
    reveal_strlit("display");
    reveal_strlit("id");
    reveal_strlit("stroke-linecap");
    reveal_strlit("stroke-linejoin");
    reveal_strlit("fill-rule");
    let v = trim(raw);
    assert("display"@.len() != "stroke-linecap"@.len());
    assert("display"@ != "stroke-linecap"@);
    assert("display"@.len() != "stroke-linejoin"@.len());
    assert("display"@ != "stroke-linejoin"@);
    assert("display"@.len() != "fill-rule"@.len());
    assert("display"@ != "fill-rule"@);
    assert("display"@.len() != "id"@.len());
    assert("display"@ != "id"@);
    assert(is_presentation("display"@));
    assert(keyword_ok("display"@, v) == Some(v == "inline"@ || v == "none"@));
}

/// `visibility` on every element takes exactly `visible`, `hidden`, `collapse` once trimmed;
/// any other value is refused naming the attribute.
pub proof fn lemma_visibility_keywords(tag: Seq<char>, raw: Seq<char>)
    ensures
        attribute_verdict(tag, "visibility"@, raw, false) == if trim(raw) == "visible"@ || trim(raw) == "hidden"@ || trim(raw) == "collapse"@ {
            Ok::<ValueCheck, SvgErrorView>(ValueCheck::Done)
        } else {
            Err(SvgErrorView::InvalidKeyword { name: "visibility"@ })
        },
{
    reveal_strlit("visibility");
    reveal_strlit("id");
    reveal_strlit("stroke-linecap");
    reveal_strlit("stroke-linejoin");
    reveal_strlit("fill-rule");
    reveal_strlit("display");
    let v = trim(raw);
    assert("visibility"@.len() != "stroke-linecap"@.len());
    assert("visibility"@ != "stroke-linecap"@);
    assert("visibility"@.len() != "stroke-linejoin"@.len());
    assert("visibility"@ != "stroke-linejoin"@);
    assert("visibility"@.len() != "fill-rule"@.len());
    assert("visibility"@ != "fill-rule"@);
    assert("visibility"@.len() != "display"@.len());
    assert("visibility"@ != "display"@);
    assert("visibility"@.len() != "id"@.len());
    assert("visibility"@ != "id"@);
    assert(is_presentation("visibility"@));
    assert(keyword_ok("visibility"@, v) == Some(v == "visible"@ || v == "hidden"@ || v == "collapse"@));
}

/// `preserveAspectRatio` on `svg` takes exactly `xMidYMid`, `xMidYMid meet` once trimmed;
/// any other value is refused naming the attribute.
pub proof fn lemma_preserve_aspect_ratio_keywords(raw: Seq<char>)
    ensures
        attribute_verdict("svg"@, "preserveAspectRatio"@, raw, false) == if trim(raw) == "xMidYMid"@ || trim(raw) == "xMidYMid meet"@ {
            Ok::<ValueCheck, SvgErrorView>(ValueCheck::Done)
        } else {
            Err(SvgErrorView::InvalidKeyword { name: "preserveAspectRatio"@ })
        },
{
    reveal_strlit("preserveAspectRatio");
    reveal_strlit("id");
    reveal_strlit("stroke-linecap");
    reveal_strlit("stroke-linejoin");
    reveal_strlit("fill-rule");
    reveal_strlit("display");
    reveal_strlit("visibility");
    let v = trim(raw);
    assert("preserveAspectRatio"@.len() != "stroke-linecap"@.len());
    assert("preserveAspectRatio"@ != "stroke-linecap"@);
    assert("preserveAspectRatio"@.len() != "stroke-linejoin"@.len());
    assert("preserveAspectRatio"@ != "stroke-linejoin"@);
    assert("preserveAspectRatio"@.len() != "fill-rule"@.len());
    assert("preserveAspectRatio"@ != "fill-rule"@);
    assert("preserveAspectRatio"@.len() != "display"@.len());
    assert("preserveAspectRatio"@ != "display"@);
    assert("preserveAspectRatio"@.len() != "visibility"@.len());
    assert("preserveAspectRatio"@ != "visibility"@);
    assert("preserveAspectRatio"@.len() != "id"@.len());
    assert("preserveAspectRatio"@ != "id"@);
    reveal_strlit("svg");
    assert(is_geometry("svg"@, "preserveAspectRatio"@));
    assert(keyword_ok("preserveAspectRatio"@, v) == Some(v == "xMidYMid"@ || v == "xMidYMid meet"@));
}

fn is_geometry_exec(tag: &[char], n: &[char]) -> (r: bool)
    ensures
        r == is_geometry(tag@, n@),
{
    if eq_str(tag, "svg") {
        eq_str(n, "viewBox") || eq_str(n, "width") || eq_str(n, "height") || eq_str(n, "preserveAspectRatio")
    } else if eq_str(tag, "rect") {
        eq_str(n, "x") || eq_str(n, "y") || eq_str(n, "width") || eq_str(n, "height") || eq_str(n, "rx") || eq_str(n, "ry")
    } else if eq_str(tag, "circle") {
        eq_str(n, "cx") || eq_str(n, "cy") || eq_str(n, "r")
    } else if eq_str(tag, "ellipse") {
        eq_str(n, "cx") || eq_str(n, "cy") || eq_str(n, "rx") || eq_str(n, "ry")
    } else if eq_str(tag, "line") {
        eq_str(n, "x1") || eq_str(n, "y1") || eq_str(n, "x2") || eq_str(n, "y2")
    } else if eq_str(tag, "path") {
        eq_str(n, "d")
    } else if eq_str(tag, "polyline") || eq_str(tag, "polygon") {
        eq_str(n, "points")
    } else {
        false
    }
}

fn is_presentation_exec(n: &[char]) -> (r: bool)
    ensures
        r == is_presentation(n@),
{
    eq_str(n, "id") || eq_str(n, "fill") || eq_str(n, "stroke") || eq_str(n, "color") || eq_str(n, "opacity")
        || eq_str(n, "fill-opacity") || eq_str(n, "stroke-opacity") || eq_str(n, "stroke-width")
        || eq_str(n, "stroke-linecap") || eq_str(n, "stroke-linejoin") || eq_str(n, "stroke-miterlimit")
        || eq_str(n, "fill-rule") || eq_str(n, "transform") || eq_str(n, "display") || eq_str(n, "visibility")
}

fn keyword_ok_exec(n: &[char], v: &[char]) -> (r: Option<bool>)
    ensures
        r == keyword_ok(n@, v@),
{
    if eq_str(n, "stroke-linecap") {
        Some(eq_str(v, "butt") || eq_str(v, "round") || eq_str(v, "square"))
    } else if eq_str(n, "stroke-linejoin") {
        Some(eq_str(v, "miter") || eq_str(v, "round") || eq_str(v, "bevel"))
    } else if eq_str(n, "fill-rule") {
        Some(eq_str(v, "nonzero") || eq_str(v, "evenodd"))
    } else if eq_str(n, "display") {
        Some(eq_str(v, "inline") || eq_str(v, "none"))
    } else if eq_str(n, "visibility") {
        Some(eq_str(v, "visible") || eq_str(v, "hidden") || eq_str(v, "collapse"))
    } else if eq_str(n, "preserveAspectRatio") {
        Some(eq_str(v, "xMidYMid") || eq_str(v, "xMidYMid meet"))
    } else {
        None
    }
}

fn valid_id(v: &[char]) -> (r: bool)
    ensures
        r == is_valid_id(v@),
{
    if v.len() == 0 {
        return false;
    }
    let mut i: usize = 0;
    while i < v.len()
        invariant
            i <= v@.len(),
            forall|q: int| 0 <= q < i ==> !is_whitespace(#[trigger] v@[q]),
        decreases v.len() - i,
    {
        if char_is_whitespace(v[i]) {
            return false;
        }
        i += 1;
    }
    true
}

/// See `attribute_verdict`.
pub fn check_attribute(tag: &str, name: &str, value: &str, namespaced: bool) -> (r: Result<ValueCheck, SvgError>)
    ensures
        result_view(r) == attribute_verdict(tag@, name@, value@, namespaced),
{
    let t = chars_of(tag);
    let n = chars_of(name);
    let raw = chars_of(value);
    let (a, b) = trim_bounds(&raw, 0, raw.len());
    assert(raw@.subrange(0, raw@.len() as int) =~= raw@);
    let v = crate::text::copy_range(&raw, a, b);
    if namespaced {
        return Err(SvgError::NamespacedAttribute { name: name.to_owned() });
    }
    if !is_geometry_exec(&t, &n) && !is_presentation_exec(&n) {
        return Err(SvgError::UnsupportedAttribute { name: name.to_owned(), tag: tag.to_owned() });
    }
    if eq_str(&n, "id") {
        return if valid_id(&v) {
            Ok(ValueCheck::Done)
        } else {
            Err(SvgError::InvalidId)
        };
    }
    match keyword_ok_exec(&n, &v) {
        Some(ok) => {
            return if ok {
                Ok(ValueCheck::Done)
            } else {
                Err(SvgError::InvalidKeyword { name: name.to_owned() })
            };
        },
        None => {},
    }
    if eq_str(&n, "viewBox") {
        Ok(ValueCheck::Numbers)
    } else if eq_str(&n, "d") {
        Ok(ValueCheck::PathData)
    } else if eq_str(&n, "points") {
        Ok(ValueCheck::Points { minimum: if eq_str(&t, "polygon") { 6 } else { 4 } })
    } else if eq_str(&n, "fill") || eq_str(&n, "stroke") {
        if eq_str(&v, "none") || eq_str(&v, "currentColor") {
            Ok(ValueCheck::Done)
        } else {
            Ok(ValueCheck::Paint)
        }
    } else if eq_str(&n, "color") {
        Ok(ValueCheck::Color)
    } else if eq_str(&n, "opacity") || eq_str(&n, "fill-opacity") || eq_str(&n, "stroke-opacity") {
        Ok(ValueCheck::Opacity { group: eq_str(&n, "opacity") && (eq_str(&t, "svg") || eq_str(&t, "g")) })
    } else if eq_str(&n, "transform") {
        Ok(ValueCheck::Transform)
    } else if eq_str(&n, "stroke-miterlimit") {
        Ok(ValueCheck::MiterLimit)
    } else {
        Ok(
            ValueCheck::Length {
                positive: eq_str(&n, "width") || eq_str(&n, "height") || eq_str(&n, "r") || (eq_str(&t, "ellipse") && (
                eq_str(&n, "rx") || eq_str(&n, "ry"))),
                nonnegative: eq_str(&n, "rx") || eq_str(&n, "ry") || eq_str(&n, "stroke-width"),
            },
        )
    }
}

/// The attributes an element must have.
pub open spec fn required_attributes(tag: Seq<char>) -> Seq<Seq<char>> {
    if tag == "svg"@ {
        seq!["viewBox"@]
    } else if tag == "path"@ {
        seq!["d"@]
    } else if tag == "rect"@ {
        seq!["width"@, "height"@]
    } else if tag == "circle"@ {
        seq!["r"@]
    } else if tag == "ellipse"@ {
        seq!["rx"@, "ry"@]
    } else if tag == "polyline"@ || tag == "polygon"@ {
        seq!["points"@]
    } else {
        Seq::empty()
    }
}

/// The first attribute that `tag` requires and `names` lacks, in the order
/// of `required_attributes`.
pub open spec fn first_missing(tag: Seq<char>, names: Seq<Seq<char>>) -> Option<Seq<char>> {
    let req = required_attributes(tag);
    if req.len() >= 1 && !names.contains(req[0]) {
        Some(req[0])
    } else if req.len() >= 2 && !names.contains(req[1]) {
        Some(req[1])
    } else {
        None
    }
}

/// The verdict on the attributes an element requires.
pub open spec fn required_verdict(tag: Seq<char>, names: Seq<Seq<char>>) -> Result<(), SvgErrorView> {
    match first_missing(tag, names) {
        Some(name) => Err(SvgErrorView::MissingRequiredAttribute { tag, name }),
        None => Ok(()),
    }
}

fn names_contain(names: &Vec<String>, n: &str) -> (r: bool)
    ensures
        r == texts(names@).contains(n@),
{
    let mut k: usize = 0;
    while k < names.len()
        invariant
            k <= names@.len(),
            forall|q: int| 0 <= q < k ==> names@[q]@ != n@,
        decreases names.len() - k,
    {
        let v = chars_of(names[k].as_str());
        if eq_str(&v, n) {
            assert(texts(names@)[k as int] == n@);
            return true;
        }
        k += 1;
    }
    assert forall|q: int| 0 <= q < names@.len() implies #[trigger] texts(names@)[q] != n@ by {
        assert(names@[q]@ != n@);
    }
    false
}

/// Whether an element with attribute names `names` has every attribute its
/// tag requires; else the first one missing.
pub fn check_required(tag: &str, names: &Vec<String>) -> (r: Result<(), SvgError>)
    ensures
        result_view(r) == required_verdict(tag@, texts(names@)),
{
    let t = chars_of(tag);
    let missing: Option<&str> = if eq_str(&t, "svg") {
        if !names_contain(names, "viewBox") { Some("viewBox") } else { None }
    } else if eq_str(&t, "path") {
        if !names_contain(names, "d") { Some("d") } else { None }
    } else if eq_str(&t, "rect") {
        if !names_contain(names, "width") {
            Some("width")
        } else if !names_contain(names, "height") {
            Some("height")
        } else {
            None
        }
    } else if eq_str(&t, "circle") {
        if !names_contain(names, "r") { Some("r") } else { None }
    } else if eq_str(&t, "ellipse") {
        if !names_contain(names, "rx") {
            Some("rx")
        } else if !names_contain(names, "ry") {
            Some("ry")
        } else {
            None
        }
    } else if eq_str(&t, "polyline") || eq_str(&t, "polygon") {
        if !names_contain(names, "points") { Some("points") } else { None }
    } else {
        None
    };
    match missing {
        Some(name) => Err(SvgError::MissingRequiredAttribute { tag: tag.to_owned(), name: name.to_owned() }),
        None => Ok(()),
    }
}

/// One event of the XML reader, as far as the depth and content rules need.
#[derive(Clone, Copy, Debug, PartialEq, Eq, Structural)]
pub enum XmlEvent {
    /// An opening tag with children to follow.
    Start,
    /// A self-closing tag.
    Empty,
    End,
    Doctype,
    ProcessingInstruction,
    Other,
    /// The reader failed; no events follow.
    Malformed,
}

/// The verdict on the reader's events from `k` on at nesting `depth`.
pub open spec fn preflight_from(es: Seq<XmlEvent>, k: int, depth: nat) -> Result<(), SvgErrorView>
    decreases es.len() - k,
{
    if k < 0 || k >= es.len() {
        Ok(())
    } else {
        match es[k] {
            XmlEvent::Start => if depth > MAX_SVG_DEPTH {
                Err(SvgErrorView::TooDeep { asked: depth as u64 })
            } else {
                preflight_from(es, k + 1, depth + 1)
            },
            XmlEvent::Empty => if depth > MAX_SVG_DEPTH {
                Err(SvgErrorView::TooDeep { asked: depth as u64 })
            } else {
                preflight_from(es, k + 1, depth)
            },
            XmlEvent::End => preflight_from(es, k + 1, if depth > 0 { (depth - 1) as nat } else { 0 }),
            XmlEvent::Doctype => Err(SvgErrorView::Doctype),
            XmlEvent::ProcessingInstruction => Err(SvgErrorView::ProcessingInstruction),
            XmlEvent::Other => preflight_from(es, k + 1, depth),
            XmlEvent::Malformed => Err(SvgErrorView::InvalidXml),
        }
    }
}

/// Bounds nesting before any recursive parser sees the document, and
/// refuses document types and processing instructions. `events` are the
/// reader's events up to the end of the document.
pub fn preflight_events(events: &Vec<XmlEvent>) -> (r: Result<(), SvgError>)
    ensures
        result_view(r) == preflight_from(events@, 0, 0),
{
    let mut depth: usize = 0;
    let mut k: usize = 0;
    while k < events.len()
        invariant
            k <= events@.len(),
            depth <= k,
            preflight_from(events@, 0, 0) == preflight_from(events@, k as int, depth as nat),
        decreases events.len() - k,
    {
        match events[k] {
            XmlEvent::Start => {
                if depth > MAX_SVG_DEPTH {
                    return Err(SvgError::TooDeep { asked: depth as u64 });
                }
                depth += 1;
            },
            XmlEvent::Empty => {
                if depth > MAX_SVG_DEPTH {
                    return Err(SvgError::TooDeep { asked: depth as u64 });
                }
            },
            XmlEvent::End => {
                if depth > 0 {
                    depth -= 1;
                }
            },
            XmlEvent::Doctype => {
                return Err(SvgError::Doctype);
            },
            XmlEvent::ProcessingInstruction => {
                return Err(SvgError::ProcessingInstruction);
            },
            XmlEvent::Other => {},
            XmlEvent::Malformed => {
                return Err(SvgError::InvalidXml);
            },
        }
        k += 1;
    }
    Ok(())
}

/// The verdict on the document root: an `svg` element in the SVG namespace.
pub open spec fn root_verdict(tag: Seq<char>, namespace: Option<Seq<char>>) -> Result<(), SvgErrorView> {
    if tag != "svg"@ {
        Err(SvgErrorView::RootNotSvg)
    } else if namespace != Some(SVG_NAMESPACE@) {
        Err(SvgErrorView::RootNamespace)
    } else {
        Ok(())
    }
}

/// See `root_verdict`.
pub fn check_root(tag: &str, namespace: Option<&str>) -> (r: Result<(), SvgError>)
    ensures
        result_view(r) == root_verdict(tag@, match namespace { Some(n) => Some(n@), None => None }),
{
    let t = chars_of(tag);
    if !eq_str(&t, "svg") {
        return Err(SvgError::RootNotSvg);
    }
    let ok = match namespace {
        Some(n) => {
            let v = chars_of(n);
            eq_str(&v, SVG_NAMESPACE)
        },
        None => false,
    };
    if ok {
        Ok(())
    } else {
        Err(SvgError::RootNamespace)
    }
}

/// The first of `declarations` from `k` on that is not the SVG namespace.
pub open spec fn first_foreign(declarations: Seq<Seq<char>>, k: int) -> Option<Seq<char>>
    decreases declarations.len() - k,
{
    if k < 0 || k >= declarations.len() {
        None
    } else if declarations[k] != SVG_NAMESPACE@ {
        Some(declarations[k])
    } else {
        first_foreign(declarations, k + 1)
    }
}

/// An element uses the SVG namespace, then declares no other.
pub open spec fn namespace_verdict(namespace: Option<Seq<char>>, declarations: Seq<Seq<char>>) -> Result<(), SvgErrorView> {
    if namespace != Some(SVG_NAMESPACE@) {
        Err(SvgErrorView::MixedNamespace)
    } else {
        match first_foreign(declarations, 0) {
            Some(uri) => Err(SvgErrorView::NamespaceDeclaration { uri }),
            None => Ok(()),
        }
    }
}

/// See `namespace_verdict`.
pub fn check_namespaces(namespace: Option<&str>, declarations: &Vec<String>) -> (r: Result<(), SvgError>)
    ensures
        result_view(r) == namespace_verdict(match namespace { Some(n) => Some(n@), None => None }, texts(declarations@)),
{
    let ghost ds = texts(declarations@);
    let ok = match namespace {
        Some(n) => {
            let v = chars_of(n);
            eq_str(&v, SVG_NAMESPACE)
        },
        None => false,
    };
    if !ok {
        return Err(SvgError::MixedNamespace);
    }
    let mut k: usize = 0;
    while k < declarations.len()
        invariant
            k <= declarations@.len(),
            ds == texts(declarations@),
            (match namespace { Some(n) => Some(n@), None => None::<Seq<char>> }) == Some(SVG_NAMESPACE@),
            first_foreign(ds, 0) == first_foreign(ds, k as int),
        decreases declarations.len() - k,
    {
        let v = chars_of(declarations[k].as_str());
        assert(ds[k as int] == declarations@[k as int]@);
        if !eq_str(&v, SVG_NAMESPACE) {
            let uri = declarations[k].clone();
            assert(uri@ == ds[k as int]);
            assert(first_foreign(ds, k as int) == Some(ds[k as int]));
            return Err(SvgError::NamespaceDeclaration { uri });
        }
        k += 1;
    }
    Ok(())
}

/// Text between elements may only be white space.
pub fn check_text(text: &str) -> (r: Result<(), SvgError>)
    ensures
        r is Ok <==> trim(text@).len() == 0,
        r matches Err(e) ==> e == SvgError::TextContent,
{
    let v = chars_of(text);
    let (a, b) = trim_bounds(&v, 0, v.len());
    assert(v@.subrange(0, v@.len() as int) =~= v@);
    if a == b {
        Ok(())
    } else {
        Err(SvgError::TextContent)
    }
}

/// The root's `width` and `height` are given together or both omitted.
pub fn check_size_pair(has_width: bool, has_height: bool) -> (r: Result<(), SvgError>)
    ensures
        r is Ok <==> has_width == has_height,
        r matches Err(e) ==> e == SvgError::UnpairedSize,
{
    if has_width == has_height {
        Ok(())
    } else {
        Err(SvgError::UnpairedSize)
    }
}

/// Pixel `i` of a row-major raster `width` pixels wide lies in its outermost
/// rows or columns.
pub open spec fn on_edge(width: int, height: int, i: int) -> bool {
    i % width == 0 || i / width == 0 || i % width == width - 1 || i / width == height - 1
}

/// Some pixel has nonzero alpha.
pub open spec fn any_visible(alpha: Seq<u8>) -> bool {
    exists|i: int| 0 <= i < alpha.len() && #[trigger] alpha[i] != 0
}

/// Some pixel with nonzero alpha lies on the edge.
pub open spec fn visible_on_edge(width: int, height: int, alpha: Seq<u8>) -> bool {
    exists|i: int| 0 <= i < alpha.len() && #[trigger] alpha[i] != 0 && on_edge(width, height, i)
}

/// Checks a rendered preview given the alpha of each pixel: refused when
/// nothing is visible, else whether visible artwork reaches the boundary
/// (which the caller reports as possible clipping).
pub fn check_artwork_coverage(width: u32, height: u32, alpha: &Vec<u8>) -> (r: Result<bool, SvgError>)
    requires
        width >= 1,
        alpha.len() == width * height,
    ensures
        r is Err <==> !any_visible(alpha@),
        r matches Err(e) ==> e == SvgError::NoVisibleArtwork,
        r matches Ok(edge) ==> edge == visible_on_edge(width as int, height as int, alpha@),
{
    let w: usize = width as usize;
    let h: usize = height as usize;
    let mut visible = false;
    let mut touches = false;
    let mut i: usize = 0;
    while i < alpha.len()
        invariant
            w == width,
            h == height,
            width >= 1,
            alpha.len() == width * height,
            i <= alpha.len(),
            visible <==> exists|k: int| 0 <= k < i && #[trigger] alpha@[k] != 0,
            touches <==> exists|k: int| 0 <= k < i && #[trigger] alpha@[k] != 0 && on_edge(width as int, height as int, k),
        decreases alpha.len() - i,
    {
        if alpha[i] != 0 {
            assert(height >= 1) by (nonlinear_arith)
                requires
                    alpha.len() == width * height,
                    i < alpha.len(),
            ;
            visible = true;
            let x = i % w;
            let y = i / w;
            if x == 0 || y == 0 || x == w - 1 || y == h - 1 {
                touches = true;
            }
        }
        i = i + 1;
    }
    if visible {
        Ok(touches)
    } else {
        Err(SvgError::NoVisibleArtwork)
    }
}

} // verus!
