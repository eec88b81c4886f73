//! Typed model of the recognised configuration keys, the registry of known
//! keys with their descriptions, and the values each one admits.
use crate::text::{
    chars_of, decimal, decimal_u32, is_digit, lemma_decimal_round_trip, lower_of, lowercase,
    parse_decimal_u32, str_eq, trim, trimmed, u32_to_decimal,
};
use vstd::prelude::*;

verus! {

/// Where notifications are drawn.
#[derive(Clone, Copy, Debug, PartialEq, Eq, Structural)]
pub enum Layer {
    Overlay,
    Bottom,
    Top,
    Normal,
}

/// A layout hint; names outside the fixed set are kept as they are.
#[derive(Clone, Debug)]
pub enum LayoutKind {
    Normal,
    Overlay,
    Center,
    Other(String),
}

/// What a `LayoutKind` holds, with its text as characters.
pub enum LayoutKindView {
    Normal,
    Overlay,
    Center,
    Other(Seq<char>),
}

impl View for LayoutKind {
    type V = LayoutKindView;

    open spec fn view(&self) -> LayoutKindView {
        match self {
            LayoutKind::Normal => LayoutKindView::Normal,
            LayoutKind::Overlay => LayoutKindView::Overlay,
            LayoutKind::Center => LayoutKindView::Center,
            LayoutKind::Other(s) => LayoutKindView::Other(s@),
        }
    }
}

/// Where the icon sits relative to the notification; names outside the
/// fixed set are kept as they are.
#[derive(Clone, Debug)]
pub enum IconLocation {
    Left,
    Right,
    Top,
    Bottom,
    TopLeft,
    TopRight,
    BottomLeft,
    BottomRight,
    Center,
    Other(String),
}

/// What an `IconLocation` holds, with its text as characters.
pub enum IconLocationView {
    Left,
    Right,
    Top,
    Bottom,
    TopLeft,
    TopRight,
    BottomLeft,
    BottomRight,
    Center,
    Other(Seq<char>),
}

impl View for IconLocation {
    type V = IconLocationView;

    open spec fn view(&self) -> IconLocationView {
        match self {
            IconLocation::Left => IconLocationView::Left,
            IconLocation::Right => IconLocationView::Right,
            IconLocation::Top => IconLocationView::Top,
            IconLocation::Bottom => IconLocationView::Bottom,
            IconLocation::TopLeft => IconLocationView::TopLeft,
            IconLocation::TopRight => IconLocationView::TopRight,
            IconLocation::BottomLeft => IconLocationView::BottomLeft,
            IconLocation::BottomRight => IconLocationView::BottomRight,
            IconLocation::Center => IconLocationView::Center,
            IconLocation::Other(s) => IconLocationView::Other(s@),
        }
    }
}

/// Alignment of the notification text.
#[derive(Clone, Copy, Debug, PartialEq, Eq, Structural)]
pub enum TextAlign {
    Left,
    Center,
    Right,
}

/// A partial configuration: one optional field per recognised key.
#[derive(Clone, Debug)]
pub struct MakoConfig {
    pub sort: Option<String>, // e.g. "-time" or "+priority", kept as text
    pub layer: Option<Layer>,
    pub background_color: Option<String>,
    pub width: Option<u32>, // pixels
    pub height: Option<u32>, // pixels
    pub border_size: Option<u32>,
    pub border_color: Option<String>,
    pub border_radius: Option<u32>,
    pub icons: Option<bool>,
    pub max_icon_size: Option<u32>,
    pub default_timeout: Option<u32>, // milliseconds
    pub ignore_timeout: Option<bool>,
    pub font: Option<String>,
    pub outer_margin: Option<u32>,
    pub padding: Option<u32>,
    pub markup: Option<bool>,
    pub progress_color: Option<String>,
    pub progress_background_color: Option<String>,
    pub icon_path: Option<String>,
    pub icon_location: Option<IconLocation>,
    pub icon_border_radius: Option<u32>,
    pub group_by: Option<String>,
    pub layout: Option<LayoutKind>,
    pub text_align: Option<TextAlign>,
}

/// What a `MakoConfig` holds, with text as characters.
pub struct MakoConfigView {
    pub sort: Option<Seq<char>>,
    pub layer: Option<Layer>,
    pub background_color: Option<Seq<char>>,
    pub width: Option<u32>,
    pub height: Option<u32>,
    pub border_size: Option<u32>,
    pub border_color: Option<Seq<char>>,
    pub border_radius: Option<u32>,
    pub icons: Option<bool>,
    pub max_icon_size: Option<u32>,
    pub default_timeout: Option<u32>,
    pub ignore_timeout: Option<bool>,
    pub font: Option<Seq<char>>,
    pub outer_margin: Option<u32>,
    pub padding: Option<u32>,
    pub markup: Option<bool>,
    pub progress_color: Option<Seq<char>>,
    pub progress_background_color: Option<Seq<char>>,
    pub icon_path: Option<Seq<char>>,
    pub icon_location: Option<IconLocationView>,
    pub icon_border_radius: Option<u32>,
    pub group_by: Option<Seq<char>>,
    pub layout: Option<LayoutKindView>,
    pub text_align: Option<TextAlign>,
}

pub open spec fn opt_text(o: Option<String>) -> Option<Seq<char>> {
    match o {
        Some(s) => Some(s@),
        None => None,
    }
}

impl View for MakoConfig {
    type V = MakoConfigView;

    open spec fn view(&self) -> MakoConfigView {
        MakoConfigView {
            sort: opt_text(self.sort),
            layer: self.layer,
            background_color: opt_text(self.background_color),
            width: self.width,
            height: self.height,
            border_size: self.border_size,
            border_color: opt_text(self.border_color),
            border_radius: self.border_radius,
            icons: self.icons,
            max_icon_size: self.max_icon_size,
            default_timeout: self.default_timeout,
            ignore_timeout: self.ignore_timeout,
            font: opt_text(self.font),
            outer_margin: self.outer_margin,
            padding: self.padding,
            markup: self.markup,
            progress_color: opt_text(self.progress_color),
            progress_background_color: opt_text(self.progress_background_color),
            icon_path: opt_text(self.icon_path),
            icon_location: match self.icon_location { Some(v) => Some(v@), None => None },
            icon_border_radius: self.icon_border_radius,
            group_by: opt_text(self.group_by),
            layout: match self.layout { Some(v) => Some(v@), None => None },
            text_align: self.text_align,
        }
    }
}

/// The configuration with no field set.
pub open spec fn empty_view() -> MakoConfigView {
    MakoConfigView {
        sort: None,
        layer: None,
        background_color: None,
        width: None,
        height: None,
        border_size: None,
        border_color: None,
        border_radius: None,
        icons: None,
        max_icon_size: None,
        default_timeout: None,
        ignore_timeout: None,
        font: None,
        outer_margin: None,
        padding: None,
        markup: None,
        progress_color: None,
        progress_background_color: None,
        icon_path: None,
        icon_location: None,
        icon_border_radius: None,
        group_by: None,
        layout: None,
        text_align: None,
    }
}

/// The layer that a lower-cased name denotes.
pub open spec fn layer_named(f: Seq<char>) -> Option<Layer> {
    if f == "overlay"@ {
        Some(Layer::Overlay)
    } else if f == "bottom"@ {
        Some(Layer::Bottom)
    } else if f == "top"@ {
        Some(Layer::Top)
    } else if f == "normal"@ {
        Some(Layer::Normal)
    } else {
        None
    }
}

pub open spec fn layer_name(l: Layer) -> Seq<char> {
    match l {
        Layer::Overlay => "overlay"@,
        Layer::Bottom => "bottom"@,
        Layer::Top => "top"@,
        Layer::Normal => "normal"@,
    }
}

impl Layer {
    /// Reads an already lower-cased name.
    pub fn from_folded(f: &str) -> (r: Option<Layer>)
        ensures
            r == layer_named(f@),
    {
        if str_eq(f, "overlay") {
            Some(Layer::Overlay)
        } else if str_eq(f, "bottom") {
            Some(Layer::Bottom)
        } else if str_eq(f, "top") {
            Some(Layer::Top)
        } else if str_eq(f, "normal") {
            Some(Layer::Normal)
        } else {
            None
        }
    }

    /// Reads a name, ignoring surrounding whitespace and case.
    pub fn parse(s: &str) -> (r: Option<Layer>)
        ensures
            r == layer_named(lower_of(trimmed(s@))),
    {
        let t = trim(s);
        let f = lowercase(t.as_str());
        Layer::from_folded(f.as_str())
    }

    /// The name under which the layer is written.
    pub fn name(&self) -> (r: String)
        ensures
            r@ == layer_name(*self),
    {
        match self {
            Layer::Overlay => "overlay".to_owned(),
            Layer::Bottom => "bottom".to_owned(),
            Layer::Top => "top".to_owned(),
            Layer::Normal => "normal".to_owned(),
        }
    }
}

impl std::str::FromStr for Layer {
    type Err = ();

    fn from_str(s: &str) -> Result<Layer, ()> {
        match Layer::parse(s) {
            Some(l) => Ok(l),
            None => Err(()),
        }
    }
}

/// The layout that a trimmed text `t` denotes, given `f`, its lower-cased
/// form: the fixed names match without regard to case, and any other text
/// is kept as it is.
pub open spec fn layout_named(f: Seq<char>, t: Seq<char>) -> LayoutKindView {
    if f == "normal"@ {
        LayoutKindView::Normal
    } else if f == "overlay"@ {
        LayoutKindView::Overlay
    } else if f == "center"@ {
        LayoutKindView::Center
    } else {
        LayoutKindView::Other(t)
    }
}

pub open spec fn layout_name(l: LayoutKindView) -> Seq<char> {
    match l {
        LayoutKindView::Normal => "normal"@,
        LayoutKindView::Overlay => "overlay"@,
        LayoutKindView::Center => "center"@,
        LayoutKindView::Other(s) => s,
    }
}

impl LayoutKind {
    /// Reads the trimmed text `t`, given `f`, its lower-cased form.
    pub fn from_folded(f: &str, t: &str) -> (r: LayoutKind)
        ensures
            r@ == layout_named(f@, t@),
    {
        if str_eq(f, "normal") {
            LayoutKind::Normal
        } else if str_eq(f, "overlay") {
            LayoutKind::Overlay
        } else if str_eq(f, "center") {
            LayoutKind::Center
        } else {
            LayoutKind::Other(t.to_owned())
        }
    }

    /// Reads a name, ignoring surrounding whitespace and case.
    pub fn parse(s: &str) -> (r: LayoutKind)
        ensures
            r@ == layout_named(lower_of(trimmed(s@)), trimmed(s@)),
    {
        let t = trim(s);
        let f = lowercase(t.as_str());
        LayoutKind::from_folded(f.as_str(), t.as_str())
    }

    /// The name under which the layout is written; other text as it is.
    pub fn name(&self) -> (r: String)
        ensures
            r@ == layout_name(self@),
    {
        match self {
            LayoutKind::Normal => "normal".to_owned(),
            LayoutKind::Overlay => "overlay".to_owned(),
            LayoutKind::Center => "center".to_owned(),
            LayoutKind::Other(s) => s.clone(),
        }
    }
}

impl std::str::FromStr for LayoutKind {
    type Err = ();

    fn from_str(s: &str) -> Result<LayoutKind, ()> {
        Ok(LayoutKind::parse(s))
    }
}

/// The icon location that a trimmed text `t` denotes, given `f`, its
/// lower-cased form: the fixed names match without regard to case, and any
/// other text is kept as it is.
pub open spec fn icon_location_named(f: Seq<char>, t: Seq<char>) -> IconLocationView {
    if f == "left"@ {
        IconLocationView::Left
    } else if f == "right"@ {
        IconLocationView::Right
    } else if f == "top"@ {
        IconLocationView::Top
    } else if f == "bottom"@ {
        IconLocationView::Bottom
    } else if f == "top-left"@ || f == "topleft"@ {
        IconLocationView::TopLeft
    } else if f == "top-right"@ || f == "topright"@ {
        IconLocationView::TopRight
    } else if f == "bottom-left"@ || f == "bottomleft"@ {
        IconLocationView::BottomLeft
    } else if f == "bottom-right"@ || f == "bottomright"@ {
        IconLocationView::BottomRight
    } else if f == "center"@ {
        IconLocationView::Center
    } else {
        IconLocationView::Other(t)
    }
}

pub open spec fn icon_location_name(l: IconLocationView) -> Seq<char> {
    match l {
        IconLocationView::Left => "left"@,
        IconLocationView::Right => "right"@,
        IconLocationView::Top => "top"@,
        IconLocationView::Bottom => "bottom"@,
        IconLocationView::TopLeft => "top-left"@,
        IconLocationView::TopRight => "top-right"@,
        IconLocationView::BottomLeft => "bottom-left"@,
        IconLocationView::BottomRight => "bottom-right"@,
        IconLocationView::Center => "center"@,
        IconLocationView::Other(s) => s,
    }
}

impl IconLocation {
    /// Reads the trimmed text `t`, given `f`, its lower-cased form.
    pub fn from_folded(f: &str, t: &str) -> (r: IconLocation)
        ensures
            r@ == icon_location_named(f@, t@),
    {
        if str_eq(f, "left") {
            IconLocation::Left
        } else if str_eq(f, "right") {
            IconLocation::Right
        } else if str_eq(f, "top") {
            IconLocation::Top
        } else if str_eq(f, "bottom") {
            IconLocation::Bottom
        } else if str_eq(f, "top-left") || str_eq(f, "topleft") {
            IconLocation::TopLeft
        } else if str_eq(f, "top-right") || str_eq(f, "topright") {
            IconLocation::TopRight
        } else if str_eq(f, "bottom-left") || str_eq(f, "bottomleft") {
            IconLocation::BottomLeft
        } else if str_eq(f, "bottom-right") || str_eq(f, "bottomright") {
            IconLocation::BottomRight
        } else if str_eq(f, "center") {
            IconLocation::Center
        } else {
            IconLocation::Other(t.to_owned())
        }
    }

    /// Reads a name, ignoring surrounding whitespace and case.
    pub fn parse(s: &str) -> (r: IconLocation)
        ensures
            r@ == icon_location_named(lower_of(trimmed(s@)), trimmed(s@)),
    {
        let t = trim(s);
        let f = lowercase(t.as_str());
        IconLocation::from_folded(f.as_str(), t.as_str())
    }

    /// The name under which the location is written; other text as it is.
    pub fn name(&self) -> (r: String)
        ensures
            r@ == icon_location_name(self@),
    {
        match self {
            IconLocation::Left => "left".to_owned(),
            IconLocation::Right => "right".to_owned(),
            IconLocation::Top => "top".to_owned(),
            IconLocation::Bottom => "bottom".to_owned(),
            IconLocation::TopLeft => "top-left".to_owned(),
            IconLocation::TopRight => "top-right".to_owned(),
            IconLocation::BottomLeft => "bottom-left".to_owned(),
            IconLocation::BottomRight => "bottom-right".to_owned(),
            IconLocation::Center => "center".to_owned(),
            IconLocation::Other(s) => s.clone(),
        }
    }
}

impl std::str::FromStr for IconLocation {
    type Err = ();

    fn from_str(s: &str) -> Result<IconLocation, ()> {
        Ok(IconLocation::parse(s))
    }
}

/// The alignment that a lower-cased name denotes.
pub open spec fn text_align_named(f: Seq<char>) -> Option<TextAlign> {
    if f == "left"@ {
        Some(TextAlign::Left)
    } else if f == "center"@ {
        Some(TextAlign::Center)
    } else if f == "right"@ {
        Some(TextAlign::Right)
    } else {
        None
    }
}

pub open spec fn text_align_name(a: TextAlign) -> Seq<char> {
    match a {
        TextAlign::Left => "left"@,
        TextAlign::Center => "center"@,
        TextAlign::Right => "right"@,
    }
}

impl TextAlign {
    /// Reads an already lower-cased name.
    pub fn from_folded(f: &str) -> (r: Option<TextAlign>)
        ensures
            r == text_align_named(f@),
    {
        if str_eq(f, "left") {
            Some(TextAlign::Left)
        } else if str_eq(f, "center") {
            Some(TextAlign::Center)
        } else if str_eq(f, "right") {
            Some(TextAlign::Right)
        } else {
            None
        }
    }

    /// Reads a name, ignoring surrounding whitespace and case.
    pub fn parse(s: &str) -> (r: Option<TextAlign>)
        ensures
            r == text_align_named(lower_of(trimmed(s@))),
    {
        let t = trim(s);
        let f = lowercase(t.as_str());
        TextAlign::from_folded(f.as_str())
    }

    /// The name under which the alignment is written.
    pub fn name(&self) -> (r: String)
        ensures
            r@ == text_align_name(*self),
    {
        match self {
            TextAlign::Left => "left".to_owned(),
            TextAlign::Center => "center".to_owned(),
            TextAlign::Right => "right".to_owned(),
        }
    }
}

impl std::str::FromStr for TextAlign {
    type Err = ();

    fn from_str(s: &str) -> Result<TextAlign, ()> {
        match TextAlign::parse(s) {
            Some(a) => Ok(a),
            None => Err(()),
        }
    }
}

/// `t` without one trailing `px`.
pub open spec fn without_px(t: Seq<char>) -> Seq<char> {
    if t.len() >= 2 && t[t.len() - 2] == 'p' && t.last() == 'x' {
        t.subrange(0, t.len() - 2)
    } else {
        t
    }
}

/// A pixel size: trimmed, an optional `px` suffix dropped, then an unsigned
/// decimal number.
pub open spec fn pixels(s: Seq<char>) -> Option<u32> {
    decimal_u32(without_px(trimmed(s)))
}

/// The flag that a lower-cased word denotes.
pub open spec fn flag(f: Seq<char>) -> Option<bool> {
    if f == "1"@ || f == "true"@ || f == "yes"@ || f == "on"@ {
        Some(true)
    } else if f == "0"@ || f == "false"@ || f == "no"@ || f == "off"@ {
        Some(false)
    } else {
        None
    }
}

pub open spec fn flag_word(b: bool) -> Seq<char> {
    if b {
        "1"@
    } else {
        "0"@
    }
}

pub open spec fn flag_text(o: Option<bool>) -> Option<Seq<char>> {
    match o {
        Some(b) => Some(flag_word(b)),
        None => None,
    }
}

pub open spec fn number_text(o: Option<u32>) -> Option<Seq<char>> {
    match o {
        Some(n) => Some(decimal(n as nat)),
        None => None,
    }
}

/// One pair when the value is there, none otherwise.
pub open spec fn pair_if(k: Seq<char>, o: Option<Seq<char>>) -> Seq<(Seq<char>, Seq<char>)> {
    match o {
        Some(v) => seq![(k, v)],
        None => Seq::empty(),
    }
}

pub open spec fn pairs_view(s: Seq<(String, String)>) -> Seq<(Seq<char>, Seq<char>)> {
    s.map_values(|p: (String, String)| (p.0@, p.1@))
}

/// A number as `to_kv_pairs` writes it reads back as the same number,
/// both as a pixel size and as a plain number.
pub proof fn lemma_number_text_reads_back(n: u32)
    ensures
        pixels(decimal(n as nat)) == Some(n),
        decimal_u32(trimmed(decimal(n as nat))) == Some(n),
{
    lemma_decimal_round_trip(n);
    let d = decimal(n as nat);
    if d.len() >= 2 {
        assert(d.last() != 'x') by {
            assert(is_digit(d.last()));
        }
    }
}

/// Reads a pixel size such as `120` or `120px`.
pub fn parse_px(s: &str) -> (r: Option<u32>)
    ensures
        r == pixels(s@),
{
    let t = trim(s);
    let cs = chars_of(t.as_str());
    let n = cs.len();
    if n >= 2 && cs[n - 2] == 'p' && cs[n - 1] == 'x' {
        let d = t.as_str().substring_char(0, n - 2);
        parse_decimal_u32(d)
    } else {
        parse_decimal_u32(t.as_str())
    }
}

/// Reads an unsigned decimal number, ignoring surrounding whitespace.
pub fn parse_u32(s: &str) -> (r: Option<u32>)
    ensures
        r == decimal_u32(trimmed(s@)),
{
    let t = trim(s);
    parse_decimal_u32(t.as_str())
}

/// Reads an already lower-cased flag word.
pub fn flag_from_folded(f: &str) -> (r: Option<bool>)
    ensures
        r == flag(f@),
{
    if str_eq(f, "1") || str_eq(f, "true") || str_eq(f, "yes") || str_eq(f, "on") {
        Some(true)
    } else if str_eq(f, "0") || str_eq(f, "false") || str_eq(f, "no") || str_eq(f, "off") {
        Some(false)
    } else {
        None
    }
}

/// Reads a flag word, ignoring surrounding whitespace and case.
pub fn parse_bool(s: &str) -> (r: Option<bool>)
    ensures
        r == flag(lower_of(trimmed(s@))),
{
    let t = trim(s);
    let f = lowercase(t.as_str());
    flag_from_folded(f.as_str())
}

/// The word under which a flag is written.
pub fn bool_to_str(b: bool) -> (r: String)
    ensures
        r@ == flag_word(b),
{
    if b {
        "1".to_owned()
    } else {
        "0".to_owned()
    }
}

fn push_pair(out: &mut Vec<(String, String)>, k: &str, v: String)
    ensures
        pairs_view(final(out)@) == pairs_view(old(out)@) + seq![(k@, v@)],
{
    let ghost v0 = v@;
    out.push((k.to_owned(), v));
    assert(pairs_view(out@) =~= pairs_view(old(out)@) + seq![(k@, v0)]);
}

fn push_text(out: &mut Vec<(String, String)>, k: &str, o: &Option<String>)
    ensures
        pairs_view(final(out)@) == pairs_view(old(out)@) + pair_if(k@, opt_text(*o)),
{
    match o {
        Some(v) => push_pair(out, k, v.clone()),
        None => assert(pairs_view(out@) =~= pairs_view(old(out)@) + Seq::empty()),
    }
}

fn push_number(out: &mut Vec<(String, String)>, k: &str, o: Option<u32>)
    ensures
        pairs_view(final(out)@) == pairs_view(old(out)@) + pair_if(k@, number_text(o)),
{
    match o {
        Some(n) => push_pair(out, k, u32_to_decimal(n)),
        None => assert(pairs_view(out@) =~= pairs_view(old(out)@) + Seq::empty()),
    }
}

fn push_flag(out: &mut Vec<(String, String)>, k: &str, o: Option<bool>)
    ensures
        pairs_view(final(out)@) == pairs_view(old(out)@) + pair_if(k@, flag_text(o)),
{
    match o {
        Some(b) => push_pair(out, k, bool_to_str(b)),
        None => assert(pairs_view(out@) =~= pairs_view(old(out)@) + Seq::empty()),
    }
}

/// The record after `set_from_kv(key, value)`: the field that the trimmed
/// key names gets the value's reading, or keeps its old value when an
/// enumerated value is not recognised; any other key changes nothing.
pub open spec fn with_kv(c: MakoConfigView, key: Seq<char>, value: Seq<char>) -> MakoConfigView {
    let k = trimmed(key);
    let t = trimmed(value);
    let f = lower_of(t);
    if k == "sort"@ {
        MakoConfigView { sort: Some(t), ..c }
    } else if k == "layer"@ {
        match layer_named(f) {
            Some(v) => MakoConfigView { layer: Some(v), ..c },
            None => c,
        }
    } else if k == "background-color"@ {
        MakoConfigView { background_color: Some(t), ..c }
    } else if k == "width"@ {
        MakoConfigView { width: pixels(value), ..c }
    } else if k == "height"@ {
        MakoConfigView { height: pixels(value), ..c }
    } else if k == "border-size"@ {
        MakoConfigView { border_size: pixels(value), ..c }
    } else if k == "border-color"@ {
        MakoConfigView { border_color: Some(t), ..c }
    } else if k == "border-radius"@ {
        MakoConfigView { border_radius: pixels(value), ..c }
    } else if k == "icons"@ {
        MakoConfigView { icons: flag(f), ..c }
    } else if k == "max-icon-size"@ {
        MakoConfigView { max_icon_size: pixels(value), ..c }
    } else if k == "default-timeout"@ {
        MakoConfigView { default_timeout: decimal_u32(t), ..c }
    } else if k == "ignore-timeout"@ {
        MakoConfigView { ignore_timeout: flag(f), ..c }
    } else if k == "font"@ {
        MakoConfigView { font: Some(t), ..c }
    } else if k == "outer-margin"@ {
        MakoConfigView { outer_margin: pixels(value), ..c }
    } else if k == "padding"@ {
        MakoConfigView { padding: pixels(value), ..c }
    } else if k == "markup"@ {
        MakoConfigView { markup: flag(f), ..c }
    } else if k == "progress-color"@ {
        MakoConfigView { progress_color: Some(t), ..c }
    } else if k == "progress-background-color"@ {
        MakoConfigView { progress_background_color: Some(t), ..c }
    } else if k == "icon-path"@ {
        MakoConfigView { icon_path: Some(t), ..c }
    } else if k == "icon-location"@ {
        MakoConfigView { icon_location: Some(icon_location_named(f, t)), ..c }
    } else if k == "icon-border-radius"@ {
        MakoConfigView { icon_border_radius: pixels(value), ..c }
    } else if k == "group-by"@ {
        MakoConfigView { group_by: Some(t), ..c }
    } else if k == "layout"@ {
        MakoConfigView { layout: Some(layout_named(f, t)), ..c }
    } else if k == "text-align"@ {
        match text_align_named(f) {
            Some(v) => MakoConfigView { text_align: Some(v), ..c },
            None => c,
        }
    } else {
        c
    }
}

/// Whether `k` names a field of the typed record.
pub open spec fn is_field_key(k: Seq<char>) -> bool {
    k == "sort"@
        || k == "layer"@
        || k == "background-color"@
        || k == "width"@
        || k == "height"@
        || k == "border-size"@
        || k == "border-color"@
        || k == "border-radius"@
        || k == "icons"@
        || k == "max-icon-size"@
        || k == "default-timeout"@
        || k == "ignore-timeout"@
        || k == "font"@
        || k == "outer-margin"@
        || k == "padding"@
        || k == "markup"@
        || k == "progress-color"@
        || k == "progress-background-color"@
        || k == "icon-path"@
        || k == "icon-location"@
        || k == "icon-border-radius"@
        || k == "group-by"@
        || k == "layout"@
        || k == "text-align"@
}

/// Setting a key that names no field, once trimmed, leaves every field as
/// it was, whatever the value.
pub proof fn lemma_unknown_key_ignored(c: MakoConfigView, key: Seq<char>, value: Seq<char>)
    requires
        !is_field_key(trimmed(key)),
    ensures
        with_kv(c, key, value) == c,
{
}

/// The pairs that `to_kv_pairs` emits for a record: one per set field, in
/// field order.
pub open spec fn kv_pairs(c: MakoConfigView) -> Seq<(Seq<char>, Seq<char>)> {
    Seq::empty()
        + pair_if("sort"@, c.sort)
        + pair_if("layer"@, match c.layer { Some(v) => Some(layer_name(v)), None => None })
        + pair_if("background-color"@, c.background_color)
        + pair_if("width"@, number_text(c.width))
        + pair_if("height"@, number_text(c.height))
        + pair_if("border-size"@, number_text(c.border_size))
        + pair_if("border-color"@, c.border_color)
        + pair_if("border-radius"@, number_text(c.border_radius))
        + pair_if("icons"@, flag_text(c.icons))
        + pair_if("max-icon-size"@, number_text(c.max_icon_size))
        + pair_if("default-timeout"@, number_text(c.default_timeout))
        + pair_if("ignore-timeout"@, flag_text(c.ignore_timeout))
        + pair_if("font"@, c.font)
        + pair_if("outer-margin"@, number_text(c.outer_margin))
        + pair_if("padding"@, number_text(c.padding))
        + pair_if("markup"@, flag_text(c.markup))
        + pair_if("progress-color"@, c.progress_color)
        + pair_if("progress-background-color"@, c.progress_background_color)
        + pair_if("icon-path"@, c.icon_path)
        + pair_if("icon-location"@, match c.icon_location { Some(v) => Some(icon_location_name(v)), None => None })
        + pair_if("icon-border-radius"@, number_text(c.icon_border_radius))
        + pair_if("group-by"@, c.group_by)
        + pair_if("layout"@, match c.layout { Some(v) => Some(layout_name(v)), None => None })
        + pair_if("text-align"@, match c.text_align { Some(v) => Some(text_align_name(v)), None => None })
}

impl MakoConfig {
    /// A configuration with no field set.
    pub fn new() -> (r: MakoConfig)
        ensures
            r@ == empty_view(),
    {
        MakoConfig {
            sort: None,
            layer: None,
            background_color: None,
            width: None,
            height: None,
            border_size: None,
            border_color: None,
            border_radius: None,
            icons: None,
            max_icon_size: None,
            default_timeout: None,
            ignore_timeout: None,
            font: None,
            outer_margin: None,
            padding: None,
            markup: None,
            progress_color: None,
            progress_background_color: None,
            icon_path: None,
            icon_location: None,
            icon_border_radius: None,
            group_by: None,
            layout: None,
            text_align: None,
        }
    }

    /// Sets the field that `key` names from the text `value`. Unknown keys
    /// are ignored; a number or flag that does not read leaves its field
    /// unset, and an unrecognised closed-set name leaves its field as it was.
    pub fn set_from_kv(&mut self, key: &str, value: &str)
        ensures
            final(self)@ == with_kv(old(self)@, key@, value@),
    {
        let k = trim(key);
        let k = k.as_str();
        if str_eq(k, "sort") {
            self.sort = Some(trim(value));
        } else if str_eq(k, "layer") {
            if let Some(v) = Layer::parse(value) {
                self.layer = Some(v);
            }
        } else if str_eq(k, "background-color") {
            self.background_color = Some(trim(value));
        } else if str_eq(k, "width") {
            self.width = parse_px(value);
        } else if str_eq(k, "height") {
            self.height = parse_px(value);
        } else if str_eq(k, "border-size") {
            self.border_size = parse_px(value);
        } else if str_eq(k, "border-color") {
            self.border_color = Some(trim(value));
        } else if str_eq(k, "border-radius") {
            self.border_radius = parse_px(value);
        } else if str_eq(k, "icons") {
            self.icons = parse_bool(value);
        } else if str_eq(k, "max-icon-size") {
            self.max_icon_size = parse_px(value);
        } else if str_eq(k, "default-timeout") {
            self.default_timeout = parse_u32(value);
        } else if str_eq(k, "ignore-timeout") {
            self.ignore_timeout = parse_bool(value);
        } else if str_eq(k, "font") {
            self.font = Some(trim(value));
        } else if str_eq(k, "outer-margin") {
            self.outer_margin = parse_px(value);
        } else if str_eq(k, "padding") {
            self.padding = parse_px(value);
        } else if str_eq(k, "markup") {
            self.markup = parse_bool(value);
        } else if str_eq(k, "progress-color") {
            self.progress_color = Some(trim(value));
        } else if str_eq(k, "progress-background-color") {
            self.progress_background_color = Some(trim(value));
        } else if str_eq(k, "icon-path") {
            self.icon_path = Some(trim(value));
        } else if str_eq(k, "icon-location") {
            self.icon_location = Some(IconLocation::parse(value));
        } else if str_eq(k, "icon-border-radius") {
            self.icon_border_radius = parse_px(value);
        } else if str_eq(k, "group-by") {
            self.group_by = Some(trim(value));
        } else if str_eq(k, "layout") {
            self.layout = Some(LayoutKind::parse(value));
        } else if str_eq(k, "text-align") {
            if let Some(v) = TextAlign::parse(value) {
                self.text_align = Some(v);
            }
        }
    }

    /// The set fields as key/value text pairs, in field order, each value in
    /// the same vocabulary that `set_from_kv` reads.
    pub fn to_kv_pairs(&self) -> (r: Vec<(String, String)>)
        ensures
            pairs_view(r@) == kv_pairs(self@),
    {
        let mut out: Vec<(String, String)> = Vec::new();
        let ghost c = self@;
        let ghost acc: Seq<(Seq<char>, Seq<char>)> = Seq::empty();
        push_text(&mut out, "sort", &self.sort);
        proof {
            acc = acc + pair_if("sort"@, c.sort);
        }
        assert(pairs_view(out@) =~= acc);
        if let Some(v) = self.layer {
            push_pair(&mut out, "layer", v.name());
        }
        proof {
            acc = acc + pair_if("layer"@, match c.layer { Some(v) => Some(layer_name(v)), None => None });
        }
        assert(pairs_view(out@) =~= acc);
        push_text(&mut out, "background-color", &self.background_color);
        proof {
            acc = acc + pair_if("background-color"@, c.background_color);
        }
        assert(pairs_view(out@) =~= acc);
        push_number(&mut out, "width", self.width);
        proof {
            acc = acc + pair_if("width"@, number_text(c.width));
        }
        assert(pairs_view(out@) =~= acc);
        push_number(&mut out, "height", self.height);
        proof {
            acc = acc + pair_if("height"@, number_text(c.height));
        }
        assert(pairs_view(out@) =~= acc);
        push_number(&mut out, "border-size", self.border_size);
        proof {
            acc = acc + pair_if("border-size"@, number_text(c.border_size));
        }
        assert(pairs_view(out@) =~= acc);
        push_text(&mut out, "border-color", &self.border_color);
        proof {
            acc = acc + pair_if("border-color"@, c.border_color);
        }
        assert(pairs_view(out@) =~= acc);
        push_number(&mut out, "border-radius", self.border_radius);
        proof {
            acc = acc + pair_if("border-radius"@, number_text(c.border_radius));
        }
        assert(pairs_view(out@) =~= acc);
        push_flag(&mut out, "icons", self.icons);
        proof {
            acc = acc + pair_if("icons"@, flag_text(c.icons));
        }
        assert(pairs_view(out@) =~= acc);
        push_number(&mut out, "max-icon-size", self.max_icon_size);
        proof {
            acc = acc + pair_if("max-icon-size"@, number_text(c.max_icon_size));
        }
        assert(pairs_view(out@) =~= acc);
        push_number(&mut out, "default-timeout", self.default_timeout);
        proof {
            acc = acc + pair_if("default-timeout"@, number_text(c.default_timeout));
        }
        assert(pairs_view(out@) =~= acc);
        push_flag(&mut out, "ignore-timeout", self.ignore_timeout);
        proof {
            acc = acc + pair_if("ignore-timeout"@, flag_text(c.ignore_timeout));
        }
        assert(pairs_view(out@) =~= acc);
        push_text(&mut out, "font", &self.font);
        proof {
            acc = acc + pair_if("font"@, c.font);
        }
        assert(pairs_view(out@) =~= acc);
        push_number(&mut out, "outer-margin", self.outer_margin);
        proof {
            acc = acc + pair_if("outer-margin"@, number_text(c.outer_margin));
        }
        assert(pairs_view(out@) =~= acc);
        push_number(&mut out, "padding", self.padding);
        proof {
            acc = acc + pair_if("padding"@, number_text(c.padding));
        }
        assert(pairs_view(out@) =~= acc);
        push_flag(&mut out, "markup", self.markup);
        proof {
            acc = acc + pair_if("markup"@, flag_text(c.markup));
        }
        assert(pairs_view(out@) =~= acc);
        push_text(&mut out, "progress-color", &self.progress_color);
        proof {
            acc = acc + pair_if("progress-color"@, c.progress_color);
        }
        assert(pairs_view(out@) =~= acc);
        push_text(&mut out, "progress-background-color", &self.progress_background_color);
        proof {
            acc = acc + pair_if("progress-background-color"@, c.progress_background_color);
        }
        assert(pairs_view(out@) =~= acc);
        push_text(&mut out, "icon-path", &self.icon_path);
        proof {
            acc = acc + pair_if("icon-path"@, c.icon_path);
        }
        assert(pairs_view(out@) =~= acc);
        if let Some(v) = &self.icon_location {
            push_pair(&mut out, "icon-location", v.name());
        }
        proof {
            acc = acc + pair_if("icon-location"@, match c.icon_location { Some(v) => Some(icon_location_name(v)), None => None });
        }
        assert(pairs_view(out@) =~= acc);
        push_number(&mut out, "icon-border-radius", self.icon_border_radius);
        proof {
            acc = acc + pair_if("icon-border-radius"@, number_text(c.icon_border_radius));
        }
        assert(pairs_view(out@) =~= acc);
        push_text(&mut out, "group-by", &self.group_by);
        proof {
            acc = acc + pair_if("group-by"@, c.group_by);
        }
        assert(pairs_view(out@) =~= acc);
        if let Some(v) = &self.layout {
            push_pair(&mut out, "layout", v.name());
        }
        proof {
            acc = acc + pair_if("layout"@, match c.layout { Some(v) => Some(layout_name(v)), None => None });
        }
        assert(pairs_view(out@) =~= acc);
        if let Some(v) = self.text_align {
            push_pair(&mut out, "text-align", v.name());
        }
        proof {
            acc = acc + pair_if("text-align"@, match c.text_align { Some(v) => Some(text_align_name(v)), None => None });
        }
        assert(pairs_view(out@) =~= acc);
        out
    }
}

impl Default for MakoConfig {
    fn default() -> (r: MakoConfig)
        ensures
            r@ == empty_view(),
    {
        MakoConfig::new()
    }
}

/// The registry of known keys with their descriptions, in display order.
/// The entry `<custom>` stands for a key name that the user types.
pub open spec fn known_key_table() -> Seq<(Seq<char>, Seq<char>)> {
    seq![
        ("sort"@, "Sort order expression, e.g. -time"@),
        ("layer"@, "Window layer: overlay, normal, top, bottom"@),
        ("background-color"@, "Background color (#rrggbb or named)"@),
        ("width"@, "Notification width in pixels"@),
        ("height"@, "Notification height in pixels"@),
        ("border-size"@, "Border width in pixels"@),
        ("border-color"@, "Border color (#rrggbb)"@),
        ("border-radius"@, "Corner radius in pixels"@),
        ("icons"@, "Show icons: 1 or 0"@),
        ("max-icon-size"@, "Maximum icon size in pixels"@),
        ("default-timeout"@, "Default timeout in milliseconds"@),
        ("ignore-timeout"@, "Ignore per-notification timeout: 1 or 0"@),
        ("font"@, "Font description, e.g. 'monospace 10'"@),
        ("outer-margin"@, "Outer margin in pixels"@),
        ("padding"@, "Padding in pixels"@),
        ("markup"@, "Enable markup rendering: 1 or 0"@),
        ("progress-color"@, "Progress bar color"@),
        ("progress-background-color"@, "Progress background color"@),
        ("icon-path"@, "Search paths for icons (colon separated)"@),
        ("icon-location"@, "Icon position: left, right, top, bottom, top-left, ..."@),
        ("anchor"@, "Anchor position: top-right, top-center, top-left, bottom-right, bottom-center, bottom-left, center-right, center-left, center"@),
        ("anchor-point"@, "Alias for anchor; same values as anchor"@),
        ("<custom>"@, "Create a custom key name (type after selecting this)"@),
        ("icon-border-radius"@, "Icon corner radius in pixels"@),
        ("group-by"@, "Group notifications by this property (e.g. category)"@),
        ("layout"@, "Layout hint: normal, overlay, center"@),
        ("text-align"@, "Text alignment: left, center, right"@),
    ]
}

pub open spec fn entries_view(s: Seq<(&str, &str)>) -> Seq<(Seq<char>, Seq<char>)> {
    s.map_values(|e: (&str, &str)| (e.0@, e.1@))
}

pub open spec fn texts_view(s: Seq<&str>) -> Seq<Seq<char>> {
    s.map_values(|e: &str| e@)
}

/// The known keys with a short description of each, in display order.
pub fn known_keys() -> (r: Vec<(&'static str, &'static str)>)
    ensures
        entries_view(r@) == known_key_table(),
{
    let r = vec![
        ("sort", "Sort order expression, e.g. -time"),
        ("layer", "Window layer: overlay, normal, top, bottom"),
        ("background-color", "Background color (#rrggbb or named)"),
        ("width", "Notification width in pixels"),
        ("height", "Notification height in pixels"),
        ("border-size", "Border width in pixels"),
        ("border-color", "Border color (#rrggbb)"),
        ("border-radius", "Corner radius in pixels"),
        ("icons", "Show icons: 1 or 0"),
        ("max-icon-size", "Maximum icon size in pixels"),
        ("default-timeout", "Default timeout in milliseconds"),
        ("ignore-timeout", "Ignore per-notification timeout: 1 or 0"),
        ("font", "Font description, e.g. 'monospace 10'"),
        ("outer-margin", "Outer margin in pixels"),
        ("padding", "Padding in pixels"),
        ("markup", "Enable markup rendering: 1 or 0"),
        ("progress-color", "Progress bar color"),
        ("progress-background-color", "Progress background color"),
        ("icon-path", "Search paths for icons (colon separated)"),
        ("icon-location", "Icon position: left, right, top, bottom, top-left, ..."),
        ("anchor", "Anchor position: top-right, top-center, top-left, bottom-right, bottom-center, bottom-left, center-right, center-left, center"),
        ("anchor-point", "Alias for anchor; same values as anchor"),
        ("<custom>", "Create a custom key name (type after selecting this)"),
        ("icon-border-radius", "Icon corner radius in pixels"),
        ("group-by", "Group notifications by this property (e.g. category)"),
        ("layout", "Layout hint: normal, overlay, center"),
        ("text-align", "Text alignment: left, center, right"),
    ];
    assert(entries_view(r@) =~= known_key_table());
    r
}

/// The closed set of values that a key admits, when it has one.
pub open spec fn allowed_table(key: Seq<char>) -> Option<Seq<Seq<char>>> {
    if key == "layer"@ {
        Some(seq!["overlay"@, "normal"@, "top"@, "bottom"@])
    } else if key == "icons"@ {
        Some(seq!["1"@, "0"@, "true"@, "false"@])
    } else if key == "ignore-timeout"@ {
        Some(seq!["1"@, "0"@, "true"@, "false"@])
    } else if key == "markup"@ {
        Some(seq!["1"@, "0"@, "true"@, "false"@])
    } else if key == "icon-location"@ {
        Some(seq!["left"@, "right"@, "top"@, "bottom"@, "top-left"@, "top-right"@, "bottom-left"@, "bottom-right"@, "center"@])
    } else if key == "text-align"@ {
        Some(seq!["left"@, "center"@, "right"@])
    } else if key == "layout"@ {
        Some(seq!["normal"@, "overlay"@, "center"@])
    } else if key == "anchor"@ {
        Some(seq!["top-right"@, "top-center"@, "top-left"@, "bottom-right"@, "bottom-center"@, "bottom-left"@, "center-right"@, "center-left"@, "center"@, "bottom"@, "top"@, "left"@, "right"@])
    } else if key == "anchor-point"@ {
        Some(seq!["top-right"@, "top-center"@, "top-left"@, "bottom-right"@, "bottom-center"@, "bottom-left"@, "center-right"@, "center-left"@, "center"@, "bottom"@, "top"@, "left"@, "right"@])
    } else {
        None
    }
}

/// The values that `key` admits, or `None` for a free-form key. The key is
/// matched exactly.
pub fn allowed_values(key: &str) -> (r: Option<Vec<&'static str>>)
    ensures
        match allowed_table(key@) {
            Some(vs) => r matches Some(v) && texts_view(v@) == vs,
            None => r is None,
        },
{
    let r = if str_eq(key, "layer") {
        Some(vec!["overlay", "normal", "top", "bottom"])
    } else if str_eq(key, "icons") {
        Some(vec!["1", "0", "true", "false"])
    } else if str_eq(key, "ignore-timeout") {
        Some(vec!["1", "0", "true", "false"])
    } else if str_eq(key, "markup") {
        Some(vec!["1", "0", "true", "false"])
    } else if str_eq(key, "icon-location") {
        Some(vec!["left", "right", "top", "bottom", "top-left", "top-right", "bottom-left", "bottom-right", "center"])
    } else if str_eq(key, "text-align") {
        Some(vec!["left", "center", "right"])
    } else if str_eq(key, "layout") {
        Some(vec!["normal", "overlay", "center"])
    } else if str_eq(key, "anchor") {
        Some(vec!["top-right", "top-center", "top-left", "bottom-right", "bottom-center", "bottom-left", "center-right", "center-left", "center", "bottom", "top", "left", "right"])
    } else if str_eq(key, "anchor-point") {
        Some(vec!["top-right", "top-center", "top-left", "bottom-right", "bottom-center", "bottom-left", "center-right", "center-left", "center", "bottom", "top", "left", "right"])
    } else {
        None
    };
    if let Some(v) = &r {
        assert(texts_view(v@) =~= allowed_table(key@).unwrap());
    }
    r
}

} // verus!
