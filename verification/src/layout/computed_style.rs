//! Computed style: the CSS-derived values a layout object carries, the
//! color model, and the cascading defaults.
//!
//! After cascading, absent fields are filled in: some inherit from the
//! parent when the parent differs from the initial value, the rest take an
//! initial value fixed by the element's kind.

use vstd::prelude::*;

use crate::dom::node::ElementKind;
use crate::dom::node::NodeKind;
use crate::error::Error;
use crate::strutil::str_eq;

verus! {

/// The mathematical value of a color.
pub ghost struct ColorV {
    pub name: Option<Seq<char>>,
    pub code: Seq<char>,
}

/// A color: an optional name from the supported list, and its `#rrggbb`
/// code.
#[derive(Debug, Clone)]
pub struct Color {
    pub name: Option<String>,
    pub code: String,
}

impl View for Color {
    type V = ColorV;

    open spec fn view(&self) -> ColorV {
        ColorV {
            name: match self.name {
                Some(n) => Some(n@),
                None => None,
            },
            code: self.code@,
        }
    }
}

impl PartialEq for Color {
    fn eq(&self, other: &Self) -> (r: bool) {
        let names = match (&self.name, &other.name) {
            (Some(a), Some(b)) => *a == *b,
            (None, None) => true,
            _ => false,
        };
        let codes = { let a = &self.code; let b = &other.code; *a == *b };
        names && codes
    }
}

impl vstd::std_specs::cmp::PartialEqSpecImpl for Color {
    open spec fn obeys_eq_spec() -> bool {
        true
    }

    open spec fn eq_spec(&self, other: &Color) -> bool {
        self@ == other@
    }
}

/// The code a supported color name stands for, if any.
pub open spec fn spec_color_code_of_name(s: Seq<char>) -> Option<Seq<char>> {
    if s == "black"@ {
        Some("#000000"@)
    } else if s == "silver"@ {
        Some("#c0c0c0"@)
    } else if s == "gray"@ {
        Some("#808080"@)
    } else if s == "white"@ {
        Some("#ffffff"@)
    } else if s == "maroon"@ {
        Some("#800000"@)
    } else if s == "red"@ {
        Some("#ff0000"@)
    } else if s == "purple"@ {
        Some("#800080"@)
    } else if s == "fuchsia"@ {
        Some("#ff00ff"@)
    } else if s == "green"@ {
        Some("#008000"@)
    } else if s == "lime"@ {
        Some("#00ff00"@)
    } else if s == "olive"@ {
        Some("#808000"@)
    } else if s == "yellow"@ {
        Some("#ffff00"@)
    } else if s == "navy"@ {
        Some("#000080"@)
    } else if s == "blue"@ {
        Some("#0000ff"@)
    } else if s == "teal"@ {
        Some("#008080"@)
    } else if s == "aqua"@ {
        Some("#00ffff"@)
    } else if s == "orange"@ {
        Some("#ffa500"@)
    } else if s == "lightgray"@ {
        Some("#d3d3d3"@)
    } else {
        None
    }
}

/// The name a supported color code stands for, if any.
pub open spec fn spec_color_name_of_code(s: Seq<char>) -> Option<Seq<char>> {
    if s == "#000000"@ {
        Some("black"@)
    } else if s == "#c0c0c0"@ {
        Some("silver"@)
    } else if s == "#808080"@ {
        Some("gray"@)
    } else if s == "#ffffff"@ {
        Some("white"@)
    } else if s == "#800000"@ {
        Some("maroon"@)
    } else if s == "#ff0000"@ {
        Some("red"@)
    } else if s == "#800080"@ {
        Some("purple"@)
    } else if s == "#ff00ff"@ {
        Some("fuchsia"@)
    } else if s == "#008000"@ {
        Some("green"@)
    } else if s == "#00ff00"@ {
        Some("lime"@)
    } else if s == "#808000"@ {
        Some("olive"@)
    } else if s == "#ffff00"@ {
        Some("yellow"@)
    } else if s == "#000080"@ {
        Some("navy"@)
    } else if s == "#0000ff"@ {
        Some("blue"@)
    } else if s == "#008080"@ {
        Some("teal"@)
    } else if s == "#00ffff"@ {
        Some("aqua"@)
    } else if s == "#ffa500"@ {
        Some("orange"@)
    } else if s == "#d3d3d3"@ {
        Some("lightgray"@)
    } else {
        None
    }
}

/// The value of one hexadecimal digit (lower-case), if it is one.
pub open spec fn spec_hex_digit(c: char) -> Option<u32> {
    if '0' <= c && c <= '9' {
        Some(((c as u32) - 0x30) as u32)
    } else if 'a' <= c && c <= 'f' {
        Some(((c as u32) - 0x61 + 10) as u32)
    } else {
        None
    }
}

/// Whether `s` is a `#` followed by six lower-case hexadecimal digits.
pub open spec fn spec_valid_code(s: Seq<char>) -> bool {
    s.len() == 7 && s[0] == '#' && forall|i: int| 1 <= i < 7 ==> spec_hex_digit(#[trigger] s[i]) is Some
}

/// The number the six digits of a valid code denote.
pub open spec fn spec_code_u32(s: Seq<char>) -> u32
    recommends
        spec_valid_code(s),
{
    (spec_hex_digit(s[1]).unwrap_or(0) * 0x100000 + spec_hex_digit(s[2]).unwrap_or(0) * 0x10000
        + spec_hex_digit(s[3]).unwrap_or(0) * 0x1000 + spec_hex_digit(s[4]).unwrap_or(0) * 0x100
        + spec_hex_digit(s[5]).unwrap_or(0) * 0x10 + spec_hex_digit(s[6]).unwrap_or(0)) as u32
}

impl Color {
    /// Builds the color a supported name denotes; exactly the eighteen
    /// supported names succeed.
    pub fn from_name(name: &str) -> (r: Result<Self, Error>)
        ensures
            match r {
                Ok(c) => c@.name == Some(name@) && Some(c@.code) == spec_color_code_of_name(name@),
                Err(e) => spec_color_code_of_name(name@) is None && e is UnexpectedInput,
            },
    {
        let owned = name.to_owned();
        let code: &str = if str_eq(&owned, "black") {
            "#000000"
        } else if str_eq(&owned, "silver") {
            "#c0c0c0"
        } else if str_eq(&owned, "gray") {
            "#808080"
        } else if str_eq(&owned, "white") {
            "#ffffff"
        } else if str_eq(&owned, "maroon") {
            "#800000"
        } else if str_eq(&owned, "red") {
            "#ff0000"
        } else if str_eq(&owned, "purple") {
            "#800080"
        } else if str_eq(&owned, "fuchsia") {
            "#ff00ff"
        } else if str_eq(&owned, "green") {
            "#008000"
        } else if str_eq(&owned, "lime") {
            "#00ff00"
        } else if str_eq(&owned, "olive") {
            "#808000"
        } else if str_eq(&owned, "yellow") {
            "#ffff00"
        } else if str_eq(&owned, "navy") {
            "#000080"
        } else if str_eq(&owned, "blue") {
            "#0000ff"
        } else if str_eq(&owned, "teal") {
            "#008080"
        } else if str_eq(&owned, "aqua") {
            "#00ffff"
        } else if str_eq(&owned, "orange") {
            "#ffa500"
        } else if str_eq(&owned, "lightgray") {
            "#d3d3d3"
        } else {
            return Err(Error::UnexpectedInput("color name is not supported yet".to_owned()));
        };
        Ok(Self { name: Some(owned), code: code.to_owned() })
    }

    /// Builds the color a supported `#rrggbb` code denotes; exactly the
    /// codes of the eighteen supported names succeed.
    pub fn from_code(code: &str) -> (r: Result<Self, Error>)
        ensures
            match r {
                Ok(c) => c@.code == code@ && (c@.name matches Some(n) && Some(n)
                    == spec_color_name_of_code(code@)),
                Err(e) => spec_color_name_of_code(code@) is None && e is UnexpectedInput,
            },
    {
        let owned = code.to_owned();
        let name: &str = if str_eq(&owned, "#000000") {
            "black"
        } else if str_eq(&owned, "#c0c0c0") {
            "silver"
        } else if str_eq(&owned, "#808080") {
            "gray"
        } else if str_eq(&owned, "#ffffff") {
            "white"
        } else if str_eq(&owned, "#800000") {
            "maroon"
        } else if str_eq(&owned, "#ff0000") {
            "red"
        } else if str_eq(&owned, "#800080") {
            "purple"
        } else if str_eq(&owned, "#ff00ff") {
            "fuchsia"
        } else if str_eq(&owned, "#008000") {
            "green"
        } else if str_eq(&owned, "#00ff00") {
            "lime"
        } else if str_eq(&owned, "#808000") {
            "olive"
        } else if str_eq(&owned, "#ffff00") {
            "yellow"
        } else if str_eq(&owned, "#000080") {
            "navy"
        } else if str_eq(&owned, "#0000ff") {
            "blue"
        } else if str_eq(&owned, "#008080") {
            "teal"
        } else if str_eq(&owned, "#00ffff") {
            "aqua"
        } else if str_eq(&owned, "#ffa500") {
            "orange"
        } else if str_eq(&owned, "#d3d3d3") {
            "lightgray"
        } else {
            return Err(Error::UnexpectedInput("color code is not supported yet".to_owned()));
        };
        Ok(Self { name: Some(name.to_owned()), code: owned })
    }

    /// White.
    pub fn white() -> (r: Self)
        ensures
            r@ == spec_white(),
    {
        Self { name: Some("white".to_owned()), code: "#ffffff".to_owned() }
    }

    /// Black.
    pub fn black() -> (r: Self)
        ensures
            r@ == spec_black(),
    {
        Self { name: Some("black".to_owned()), code: "#000000".to_owned() }
    }

    /// The `0xRRGGBB` integer encoding of the code.  A code that is not
    /// seven characters long encodes as zero; within one, characters that
    /// are no lower-case hexadecimal digits count as zero digits.
    #[verifier::rlimit(60)]
    pub fn code_u32(&self) -> (r: u32)
        ensures
            r == (if self.code@.len() == 7 {
                partial_code_u32(self.code@, 7)
            } else {
                0u32
            }),
            spec_valid_code(self.code@) ==> r == spec_code_u32(self.code@),
    {
        let chars = crate::strutil::string_to_chars(self.code.as_str());
        if chars.len() != 7 {
            return 0;
        }
        let mut acc: u32 = 0;
        let mut i: usize = 1;
        while i < 7
            invariant
                1 <= i <= 7,
                chars@.len() == 7,
                acc < p16(i - 1),
                acc == partial_code_u32(chars@, i as int),
            decreases 7 - i,
        {
            proof {
                assert(p16(0) == 1 && p16(1) == 16 && p16(2) == 256 && p16(3) == 4096 && p16(4)
                    == 65536 && p16(5) == 0x100000 && p16(6) == 0x1000000) by {
                    reveal_with_fuel(p16, 8);
                };
            }
            let c = chars[i];
            let d: u32 = if '0' <= c && c <= '9' {
                (c as u32) - 0x30
            } else if 'a' <= c && c <= 'f' {
                (c as u32) - 0x61 + 10
            } else {
                0
            };
            let dd: u32 = if d > 15 {
                0
            } else {
                d
            };
            acc = acc * 16 + dd;
            i = i + 1;
        }
        proof {
            assert(p16(6) == 0x1000000) by {
                reveal_with_fuel(p16, 8);
            };
            assert(acc == partial_code_u32(chars@, 7));
            if spec_valid_code(chars@) {
                assert(partial_code_u32(chars@, 7) == spec_code_u32(chars@)) by {
                    reveal_with_fuel(partial_code_u32, 8);
                };
            }
        }
        acc
    }
}

/// Sixteen to the power `k`.
pub open spec fn p16(k: int) -> int
    decreases k,
{
    if k <= 0 {
        1
    } else {
        16 * p16(k - 1)
    }
}

/// The first `i - 1` digits of a code, read as a number.
pub open spec fn partial_code_u32(s: Seq<char>, i: int) -> u32
    decreases i,
{
    if i <= 1 {
        0u32
    } else {
        ((partial_code_u32(s, i - 1) * 16) as u32 + spec_hex_digit(s[i - 1]).unwrap_or(0)) as u32
    }
}

/// The value of white.
pub open spec fn spec_white() -> ColorV {
    ColorV { name: Some("white"@), code: "#ffffff"@ }
}

/// The value of black.
pub open spec fn spec_black() -> ColorV {
    ColorV { name: Some("black"@), code: "#000000"@ }
}

/// Font sizes: a medium default and the two heading sizes.
#[derive(Debug, Copy, Clone, PartialEq, Eq, Structural)]
pub enum FontSize {
    Medium,
    XLarge,
    XXLarge,
}

/// The initial font size of a node: headings are larger.
pub open spec fn spec_default_font_size(kind: NodeKind) -> FontSize {
    match kind {
        NodeKind::Element(e) => match e.kind {
            ElementKind::H1 => FontSize::XXLarge,
            ElementKind::H2 => FontSize::XLarge,
            _ => FontSize::Medium,
        },
        _ => FontSize::Medium,
    }
}

impl FontSize {
    /// The initial font size for the given node.
    fn default(kind: &NodeKind) -> (r: Self)
        ensures
            r == spec_default_font_size(*kind),
    {
        match kind {
            NodeKind::Element(element) => match element.kind {
                ElementKind::H1 => FontSize::XXLarge,
                ElementKind::H2 => FontSize::XLarge,
                _ => FontSize::Medium,
            },
            _ => FontSize::Medium,
        }
    }
}

/// How an element takes part in flow: as a block, inline, or not at all.
#[derive(Debug, Copy, Clone, PartialEq, Eq, Structural)]
pub enum DisplayType {
    Block,
    Inline,
    DisplayNone,
}

/// The initial display of a node: the document and the block elements are
/// blocks, texts and the other elements are inline.
pub open spec fn spec_default_display(kind: NodeKind) -> DisplayType {
    match kind {
        NodeKind::Document => DisplayType::Block,
        NodeKind::Element(e) => if matches!(
            e.kind,
            ElementKind::Body | ElementKind::H1 | ElementKind::H2 | ElementKind::P,
        ) {
            DisplayType::Block
        } else {
            DisplayType::Inline
        },
        NodeKind::Text(_) => DisplayType::Inline,
    }
}

impl DisplayType {
    /// The initial display for the given node.
    fn default(kind: &NodeKind) -> (r: Self)
        ensures
            r == spec_default_display(*kind),
    {
        match kind {
            NodeKind::Document => DisplayType::Block,
            NodeKind::Element(e) => {
                if e.is_block_element() {
                    DisplayType::Block
                } else {
                    DisplayType::Inline
                }
            },
            NodeKind::Text(_) => DisplayType::Inline,
        }
    }

    /// Parses a display keyword; exactly `block`, `inline` and `none`
    /// succeed.
    pub fn from_str(s: &str) -> (r: Result<Self, Error>)
        ensures
            match r {
                Ok(d) => Some(d) == spec_display_of_keyword(s@),
                Err(_) => spec_display_of_keyword(s@) is None,
            },
    {
        let owned = s.to_owned();
        if str_eq(&owned, "block") {
            Ok(Self::Block)
        } else if str_eq(&owned, "inline") {
            Ok(Self::Inline)
        } else if str_eq(&owned, "none") {
            Ok(Self::DisplayNone)
        } else {
            Err(Error::UnexpectedInput("display keyword is not supported yet".to_owned()))
        }
    }
}

/// The display a keyword denotes, if it is one of the supported keywords.
pub open spec fn spec_display_of_keyword(s: Seq<char>) -> Option<DisplayType> {
    if s == "block"@ {
        Some(DisplayType::Block)
    } else if s == "inline"@ {
        Some(DisplayType::Inline)
    } else if s == "none"@ {
        Some(DisplayType::DisplayNone)
    } else {
        None
    }
}

/// Text decoration: none, or an underline.
#[derive(Debug, Copy, Clone, PartialEq, Eq, Structural)]
pub enum TextDecoration {
    NoDecoration,
    Underline,
}

/// The initial text decoration of a node: anchors are underlined.
pub open spec fn spec_default_text_decoration(kind: NodeKind) -> TextDecoration {
    match kind {
        NodeKind::Element(e) => match e.kind {
            ElementKind::A => TextDecoration::Underline,
            _ => TextDecoration::NoDecoration,
        },
        _ => TextDecoration::NoDecoration,
    }
}

impl TextDecoration {
    /// The initial decoration for the given node.
    fn default(kind: &NodeKind) -> (r: Self)
        ensures
            r == spec_default_text_decoration(*kind),
    {
        match kind {
            NodeKind::Element(element) => match element.kind {
                ElementKind::A => TextDecoration::Underline,
                _ => TextDecoration::NoDecoration,
            },
            _ => TextDecoration::NoDecoration,
        }
    }
}

/// The style of one layout object.  A field is absent until cascading or
/// defaulting fills it.
#[derive(Debug, Clone)]
pub struct ComputedStyle {
    pub background_color: Option<Color>,
    pub color: Option<Color>,
    pub display: Option<DisplayType>,
    pub font_size: Option<FontSize>,
    pub text_decoration: Option<TextDecoration>,
    pub height: Option<i64>,
    pub width: Option<i64>,
}

/// The value of an optional color.
pub open spec fn opt_color_v(o: Option<Color>) -> Option<ColorV> {
    match o {
        Some(c) => Some(c@),
        None => None,
    }
}

impl ComputedStyle {
    /// A style with every field absent.
    pub fn new() -> (r: Self)
        ensures
            r.background_color is None,
            r.color is None,
            r.display is None,
            r.font_size is None,
            r.text_decoration is None,
            r.height is None,
            r.width is None,
    {
        Self {
            background_color: None,
            color: None,
            display: None,
            font_size: None,
            text_decoration: None,
            height: None,
            width: None,
        }
    }

    /// Whether every field has received a value.
    pub open spec fn is_defaulted(&self) -> bool {
        &&& self.background_color is Some
        &&& self.color is Some
        &&& self.display is Some
        &&& self.font_size is Some
        &&& self.text_decoration is Some
        &&& self.height is Some
        &&& self.width is Some
    }

    /// Fills the absent fields: background color, color, font size and
    /// decoration inherit from a parent that differs from the initial
    /// value; whatever is still absent takes the initial value for the
    /// node's kind; width and height default to zero.
    ///
    /// Note that this makes a non-white background flow down to every
    /// descendant that does not set one of its own: a child under a
    /// colored ancestor is painted in that color, never reset to white.
    pub fn defaulting(&mut self, kind: &NodeKind, parent_style: Option<ComputedStyle>)
        requires
            parent_style matches Some(p) ==> p.is_defaulted(),
        ensures
            final(self).is_defaulted(),
            opt_color_v(final(self).background_color) == (match old(self).background_color {
                Some(c) => Some(c@),
                None => match parent_style {
                    Some(p) => if p.background_color.unwrap()@ != spec_white() {
                        Some(p.background_color.unwrap()@)
                    } else {
                        Some(spec_white())
                    },
                    None => Some(spec_white()),
                },
            }),
            opt_color_v(final(self).color) == (match old(self).color {
                Some(c) => Some(c@),
                None => match parent_style {
                    Some(p) => if p.color.unwrap()@ != spec_black() {
                        Some(p.color.unwrap()@)
                    } else {
                        Some(spec_black())
                    },
                    None => Some(spec_black()),
                },
            }),
            final(self).font_size == Some(
                match old(self).font_size {
                    Some(f) => f,
                    None => match parent_style {
                        Some(p) => if p.font_size.unwrap() != FontSize::Medium {
                            p.font_size.unwrap()
                        } else {
                            spec_default_font_size(*kind)
                        },
                        None => spec_default_font_size(*kind),
                    },
                },
            ),
            final(self).text_decoration == Some(
                match old(self).text_decoration {
                    Some(t) => t,
                    None => match parent_style {
                        Some(p) => if p.text_decoration.unwrap() != TextDecoration::NoDecoration {
                            p.text_decoration.unwrap()
                        } else {
                            spec_default_text_decoration(*kind)
                        },
                        None => spec_default_text_decoration(*kind),
                    },
                },
            ),
            final(self).display == Some(
                match old(self).display {
                    Some(d) => d,
                    None => spec_default_display(*kind),
                },
            ),
            final(self).height == Some(
                match old(self).height {
                    Some(h) => h,
                    None => 0i64,
                },
            ),
            final(self).width == Some(
                match old(self).width {
                    Some(w) => w,
                    None => 0i64,
                },
            ),
    {
        if let Some(parent_style) = &parent_style {
            if self.background_color.is_none() && !(parent_style.background_color()
                == Color::white()) {
                self.background_color = Some(parent_style.background_color());
            }
            if self.color.is_none() && !(parent_style.color() == Color::black()) {
                self.color = Some(parent_style.color());
            }
            if self.font_size.is_none() && !(parent_style.font_size() == FontSize::Medium) {
                self.font_size = Some(parent_style.font_size());
            }
            if self.text_decoration.is_none() && !(parent_style.text_decoration()
                == TextDecoration::NoDecoration) {
                self.text_decoration = Some(parent_style.text_decoration());
            }
        }

        if self.background_color.is_none() {
            self.background_color = Some(Color::white());
        }
        if self.color.is_none() {
            self.color = Some(Color::black());
        }
        if self.display.is_none() {
            self.display = Some(DisplayType::default(kind));
        }
        if self.font_size.is_none() {
            self.font_size = Some(FontSize::default(kind));
        }
        if self.text_decoration.is_none() {
            self.text_decoration = Some(TextDecoration::default(kind));
        }
        if self.height.is_none() {
            self.height = Some(0);
        }
        if self.width.is_none() {
            self.width = Some(0);
        }
    }

    /// Sets the background color.
    pub fn set_background_color(&mut self, color: Color)
        ensures
            *final(self) == (ComputedStyle { background_color: Some(color), ..*old(self) }),
    {
        self.background_color = Some(color);
    }

    /// The background color; it must have been set or defaulted.
    pub fn background_color(&self) -> (r: Color)
        requires
            self.background_color is Some,
        ensures
            r@ == self.background_color.unwrap()@,
    {
        match &self.background_color {
            Some(c) => Color { name: clone_opt_string(&c.name), code: c.code.clone() },
            None => Color::white(),  // unreachable under the precondition
        }
    }

    /// Sets the text color.
    pub fn set_color(&mut self, color: Color)
        ensures
            *final(self) == (ComputedStyle { color: Some(color), ..*old(self) }),
    {
        self.color = Some(color);
    }

    /// The text color; it must have been set or defaulted.
    pub fn color(&self) -> (r: Color)
        requires
            self.color is Some,
        ensures
            r@ == self.color.unwrap()@,
    {
        match &self.color {
            Some(c) => Color { name: clone_opt_string(&c.name), code: c.code.clone() },
            None => Color::black(),  // unreachable under the precondition
        }
    }

    /// Sets the display.
    pub fn set_display(&mut self, display: DisplayType)
        ensures
            *final(self) == (ComputedStyle { display: Some(display), ..*old(self) }),
    {
        self.display = Some(display);
    }

    /// The display; it must have been set or defaulted.
    pub fn display(&self) -> (r: DisplayType)
        requires
            self.display is Some,
        ensures
            r == self.display.unwrap(),
    {
        match self.display {
            Some(d) => d,
            None => DisplayType::Block,  // unreachable under the precondition
        }
    }

    /// The font size; it must have been defaulted.
    pub fn font_size(&self) -> (r: FontSize)
        requires
            self.font_size is Some,
        ensures
            r == self.font_size.unwrap(),
    {
        match self.font_size {
            Some(f) => f,
            None => FontSize::Medium,  // unreachable under the precondition
        }
    }

    /// The text decoration; it must have been defaulted.
    pub fn text_decoration(&self) -> (r: TextDecoration)
        requires
            self.text_decoration is Some,
        ensures
            r == self.text_decoration.unwrap(),
    {
        match self.text_decoration {
            Some(t) => t,
            None => TextDecoration::NoDecoration,  // unreachable under the precondition
        }
    }

    /// Sets the height.
    pub fn set_height(&mut self, height: i64)
        ensures
            *final(self) == (ComputedStyle { height: Some(height), ..*old(self) }),
    {
        self.height = Some(height);
    }

    /// The height; it must have been defaulted.
    pub fn height(&self) -> (r: i64)
        requires
            self.height is Some,
        ensures
            r == self.height.unwrap(),
    {
        match self.height {
            Some(h) => h,
            None => 0,  // unreachable under the precondition
        }
    }

    /// Sets the width.
    pub fn set_width(&mut self, width: i64)
        ensures
            *final(self) == (ComputedStyle { width: Some(width), ..*old(self) }),
    {
        self.width = Some(width);
    }

    /// The width; it must have been defaulted.
    pub fn width(&self) -> (r: i64)
        requires
            self.width is Some,
        ensures
            r == self.width.unwrap(),
    {
        match self.width {
            Some(w) => w,
            None => 0,  // unreachable under the precondition
        }
    }

    /// An owned copy with the same value.
    pub fn duplicate(&self) -> (r: ComputedStyle)
        ensures
            opt_color_v(r.background_color) == opt_color_v(self.background_color),
            opt_color_v(r.color) == opt_color_v(self.color),
            r.display == self.display,
            r.font_size == self.font_size,
            r.text_decoration == self.text_decoration,
            r.height == self.height,
            r.width == self.width,
            r.is_defaulted() == self.is_defaulted(),
    {
        ComputedStyle {
            background_color: match &self.background_color {
                Some(c) => Some(Color { name: clone_opt_string(&c.name), code: c.code.clone() }),
                None => None,
            },
            color: match &self.color {
                Some(c) => Some(Color { name: clone_opt_string(&c.name), code: c.code.clone() }),
                None => None,
            },
            display: self.display,
            font_size: self.font_size,
            text_decoration: self.text_decoration,
            height: self.height,
            width: self.width,
        }
    }
}

impl PartialEq for ComputedStyle {
    fn eq(&self, other: &Self) -> (r: bool) {
        let bg = match (&self.background_color, &other.background_color) {
            (Some(a), Some(b)) => *a == *b,
            (None, None) => true,
            _ => false,
        };
        let co = match (&self.color, &other.color) {
            (Some(a), Some(b)) => *a == *b,
            (None, None) => true,
            _ => false,
        };
        let di = match (self.display, other.display) {
            (Some(a), Some(b)) => a == b,
            (None, None) => true,
            _ => false,
        };
        let fo = match (self.font_size, other.font_size) {
            (Some(a), Some(b)) => a == b,
            (None, None) => true,
            _ => false,
        };
        let te = match (self.text_decoration, other.text_decoration) {
            (Some(a), Some(b)) => a == b,
            (None, None) => true,
            _ => false,
        };
        let he = match (self.height, other.height) {
            (Some(a), Some(b)) => a == b,
            (None, None) => true,
            _ => false,
        };
        let wi = match (self.width, other.width) {
            (Some(a), Some(b)) => a == b,
            (None, None) => true,
            _ => false,
        };
        bg && co && di && fo && te && he && wi
    }
}

impl vstd::std_specs::cmp::PartialEqSpecImpl for ComputedStyle {
    open spec fn obeys_eq_spec() -> bool {
        true
    }

    open spec fn eq_spec(&self, other: &ComputedStyle) -> bool {
        &&& opt_color_v(self.background_color) == opt_color_v(other.background_color)
        &&& opt_color_v(self.color) == opt_color_v(other.color)
        &&& self.display == other.display
        &&& self.font_size == other.font_size
        &&& self.text_decoration == other.text_decoration
        &&& self.height == other.height
        &&& self.width == other.width
    }
}

/// The mathematical value of a computed style.
pub ghost struct StyleV {
    pub background_color: Option<ColorV>,
    pub color: Option<ColorV>,
    pub display: Option<DisplayType>,
    pub font_size: Option<FontSize>,
    pub text_decoration: Option<TextDecoration>,
    pub height: Option<i64>,
    pub width: Option<i64>,
}

impl View for ComputedStyle {
    type V = StyleV;

    open spec fn view(&self) -> StyleV {
        StyleV {
            background_color: opt_color_v(self.background_color),
            color: opt_color_v(self.color),
            display: self.display,
            font_size: self.font_size,
            text_decoration: self.text_decoration,
            height: self.height,
            width: self.width,
        }
    }
}

/// An owned copy of an optional string.
pub fn clone_opt_string(s: &Option<String>) -> (r: Option<String>)
    ensures
        match s {
            Some(x) => r matches Some(y) && y@ == x@,
            None => r is None,
        },
{
    match s {
        Some(x) => Some(x.clone()),
        None => None,
    }
}

} // verus!
