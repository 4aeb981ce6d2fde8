//! The member names that objects of the format may carry.

use vstd::prelude::*;
use crate::text::str_equal;

verus! {

/// A member name of an element, a detailed definition or a meta payload; and
/// the name under which a meta record's mode is reported.
#[derive(Clone, Copy, Debug, PartialEq, Eq, Structural)]
pub enum Key {
    Tag,
    Content,
    Data,
    Lang,
    ColSpan,
    RowSpan,
    Style,
    Title,
    Path,
    Width,
    Height,
    Alt,
    Description,
    Pixelated,
    ImageRendering,
    Appearance,
    Background,
    Collapsed,
    Collapsible,
    VerticalAlign,
    Border,
    BorderRadius,
    SizeUnits,
    Href,
    Type,
    Text,
    Reading,
    Frequency,
    Value,
    DisplayValue,
    Pitches,
    Position,
    Nasal,
    Devoice,
    Tags,
    Transcriptions,
    Ipa,
    Mode,
}

impl Key {
    /// The spelling of this value on the wire.
    pub open spec fn spec_name(self) -> Seq<char> {
        match self {
            Key::Tag => "tag"@,
            Key::Content => "content"@,
            Key::Data => "data"@,
            Key::Lang => "lang"@,
            Key::ColSpan => "colSpan"@,
            Key::RowSpan => "rowSpan"@,
            Key::Style => "style"@,
            Key::Title => "title"@,
            Key::Path => "path"@,
            Key::Width => "width"@,
            Key::Height => "height"@,
            Key::Alt => "alt"@,
            Key::Description => "description"@,
            Key::Pixelated => "pixelated"@,
            Key::ImageRendering => "imageRendering"@,
            Key::Appearance => "appearance"@,
            Key::Background => "background"@,
            Key::Collapsed => "collapsed"@,
            Key::Collapsible => "collapsible"@,
            Key::VerticalAlign => "verticalAlign"@,
            Key::Border => "border"@,
            Key::BorderRadius => "borderRadius"@,
            Key::SizeUnits => "sizeUnits"@,
            Key::Href => "href"@,
            Key::Type => "type"@,
            Key::Text => "text"@,
            Key::Reading => "reading"@,
            Key::Frequency => "frequency"@,
            Key::Value => "value"@,
            Key::DisplayValue => "displayValue"@,
            Key::Pitches => "pitches"@,
            Key::Position => "position"@,
            Key::Nasal => "nasal"@,
            Key::Devoice => "devoice"@,
            Key::Tags => "tags"@,
            Key::Transcriptions => "transcriptions"@,
            Key::Ipa => "ipa"@,
            Key::Mode => "mode"@,
        }
    }

    /// The value spelled `s`, if any.
    pub open spec fn spec_from_name(s: Seq<char>) -> Option<Key> {
        if s == "tag"@ {
            Some(Key::Tag)
        } else if s == "content"@ {
            Some(Key::Content)
        } else if s == "data"@ {
            Some(Key::Data)
        } else if s == "lang"@ {
            Some(Key::Lang)
        } else if s == "colSpan"@ {
            Some(Key::ColSpan)
        } else if s == "rowSpan"@ {
            Some(Key::RowSpan)
        } else if s == "style"@ {
            Some(Key::Style)
        } else if s == "title"@ {
            Some(Key::Title)
        } else if s == "path"@ {
            Some(Key::Path)
        } else if s == "width"@ {
            Some(Key::Width)
        } else if s == "height"@ {
            Some(Key::Height)
        } else if s == "alt"@ {
            Some(Key::Alt)
        } else if s == "description"@ {
            Some(Key::Description)
        } else if s == "pixelated"@ {
            Some(Key::Pixelated)
        } else if s == "imageRendering"@ {
            Some(Key::ImageRendering)
        } else if s == "appearance"@ {
            Some(Key::Appearance)
        } else if s == "background"@ {
            Some(Key::Background)
        } else if s == "collapsed"@ {
            Some(Key::Collapsed)
        } else if s == "collapsible"@ {
            Some(Key::Collapsible)
        } else if s == "verticalAlign"@ {
            Some(Key::VerticalAlign)
        } else if s == "border"@ {
            Some(Key::Border)
        } else if s == "borderRadius"@ {
            Some(Key::BorderRadius)
        } else if s == "sizeUnits"@ {
            Some(Key::SizeUnits)
        } else if s == "href"@ {
            Some(Key::Href)
        } else if s == "type"@ {
            Some(Key::Type)
        } else if s == "text"@ {
            Some(Key::Text)
        } else if s == "reading"@ {
            Some(Key::Reading)
        } else if s == "frequency"@ {
            Some(Key::Frequency)
        } else if s == "value"@ {
            Some(Key::Value)
        } else if s == "displayValue"@ {
            Some(Key::DisplayValue)
        } else if s == "pitches"@ {
            Some(Key::Pitches)
        } else if s == "position"@ {
            Some(Key::Position)
        } else if s == "nasal"@ {
            Some(Key::Nasal)
        } else if s == "devoice"@ {
            Some(Key::Devoice)
        } else if s == "tags"@ {
            Some(Key::Tags)
        } else if s == "transcriptions"@ {
            Some(Key::Transcriptions)
        } else if s == "ipa"@ {
            Some(Key::Ipa)
        } else if s == "mode"@ {
            Some(Key::Mode)
        } else {
            None
        }
    }

    /// The spelling of this value on the wire.
    pub fn name(self) -> (r: &'static str)
        ensures
            r@ == self.spec_name(),
    {
        match self {
            Key::Tag => "tag",
            Key::Content => "content",
            Key::Data => "data",
            Key::Lang => "lang",
            Key::ColSpan => "colSpan",
            Key::RowSpan => "rowSpan",
            Key::Style => "style",
            Key::Title => "title",
            Key::Path => "path",
            Key::Width => "width",
            Key::Height => "height",
            Key::Alt => "alt",
            Key::Description => "description",
            Key::Pixelated => "pixelated",
            Key::ImageRendering => "imageRendering",
            Key::Appearance => "appearance",
            Key::Background => "background",
            Key::Collapsed => "collapsed",
            Key::Collapsible => "collapsible",
            Key::VerticalAlign => "verticalAlign",
            Key::Border => "border",
            Key::BorderRadius => "borderRadius",
            Key::SizeUnits => "sizeUnits",
            Key::Href => "href",
            Key::Type => "type",
            Key::Text => "text",
            Key::Reading => "reading",
            Key::Frequency => "frequency",
            Key::Value => "value",
            Key::DisplayValue => "displayValue",
            Key::Pitches => "pitches",
            Key::Position => "position",
            Key::Nasal => "nasal",
            Key::Devoice => "devoice",
            Key::Tags => "tags",
            Key::Transcriptions => "transcriptions",
            Key::Ipa => "ipa",
            Key::Mode => "mode",
        }
    }

    /// The value spelled `s`, if any.
    pub fn from_name(s: &str) -> (r: Option<Key>)
        ensures
            r == Self::spec_from_name(s@),
    {
        if str_equal(s, "tag") {
            Some(Key::Tag)
        } else if str_equal(s, "content") {
            Some(Key::Content)
        } else if str_equal(s, "data") {
            Some(Key::Data)
        } else if str_equal(s, "lang") {
            Some(Key::Lang)
        } else if str_equal(s, "colSpan") {
            Some(Key::ColSpan)
        } else if str_equal(s, "rowSpan") {
            Some(Key::RowSpan)
        } else if str_equal(s, "style") {
            Some(Key::Style)
        } else if str_equal(s, "title") {
            Some(Key::Title)
        } else if str_equal(s, "path") {
            Some(Key::Path)
        } else if str_equal(s, "width") {
            Some(Key::Width)
        } else if str_equal(s, "height") {
            Some(Key::Height)
        } else if str_equal(s, "alt") {
            Some(Key::Alt)
        } else if str_equal(s, "description") {
            Some(Key::Description)
        } else if str_equal(s, "pixelated") {
            Some(Key::Pixelated)
        } else if str_equal(s, "imageRendering") {
            Some(Key::ImageRendering)
        } else if str_equal(s, "appearance") {
            Some(Key::Appearance)
        } else if str_equal(s, "background") {
            Some(Key::Background)
        } else if str_equal(s, "collapsed") {
            Some(Key::Collapsed)
        } else if str_equal(s, "collapsible") {
            Some(Key::Collapsible)
        } else if str_equal(s, "verticalAlign") {
            Some(Key::VerticalAlign)
        } else if str_equal(s, "border") {
            Some(Key::Border)
        } else if str_equal(s, "borderRadius") {
            Some(Key::BorderRadius)
        } else if str_equal(s, "sizeUnits") {
            Some(Key::SizeUnits)
        } else if str_equal(s, "href") {
            Some(Key::Href)
        } else if str_equal(s, "type") {
            Some(Key::Type)
        } else if str_equal(s, "text") {
            Some(Key::Text)
        } else if str_equal(s, "reading") {
            Some(Key::Reading)
        } else if str_equal(s, "frequency") {
            Some(Key::Frequency)
        } else if str_equal(s, "value") {
            Some(Key::Value)
        } else if str_equal(s, "displayValue") {
            Some(Key::DisplayValue)
        } else if str_equal(s, "pitches") {
            Some(Key::Pitches)
        } else if str_equal(s, "position") {
            Some(Key::Position)
        } else if str_equal(s, "nasal") {
            Some(Key::Nasal)
        } else if str_equal(s, "devoice") {
            Some(Key::Devoice)
        } else if str_equal(s, "tags") {
            Some(Key::Tags)
        } else if str_equal(s, "transcriptions") {
            Some(Key::Transcriptions)
        } else if str_equal(s, "ipa") {
            Some(Key::Ipa)
        } else if str_equal(s, "mode") {
            Some(Key::Mode)
        } else {
            None
        }
    }

    /// Reading back the spelling of a value gives that value.
    pub proof fn lemma_name_round_trip(self)
        ensures
            Self::spec_from_name(self.spec_name()) == Some(self),
    {
        reveal_strlit("tag");
        assert("tag"@.len() == 3 && "tag"@[0] == 't' && "tag"@[1] == 'a' && "tag"@[2] == 'g');
        reveal_strlit("content");
        assert("content"@.len() == 7 && "content"@[0] == 'c' && "content"@[1] == 'o' && "content"@[2] == 'n' && "content"@[3] == 't' && "content"@[4] == 'e' && "content"@[5] == 'n' && "content"@[6] == 't');
        reveal_strlit("data");
        assert("data"@.len() == 4 && "data"@[0] == 'd' && "data"@[1] == 'a' && "data"@[2] == 't' && "data"@[3] == 'a');
        reveal_strlit("lang");
        assert("lang"@.len() == 4 && "lang"@[0] == 'l' && "lang"@[1] == 'a' && "lang"@[2] == 'n' && "lang"@[3] == 'g');
        reveal_strlit("colSpan");
        assert("colSpan"@.len() == 7 && "colSpan"@[0] == 'c' && "colSpan"@[1] == 'o' && "colSpan"@[2] == 'l' && "colSpan"@[3] == 'S' && "colSpan"@[4] == 'p' && "colSpan"@[5] == 'a' && "colSpan"@[6] == 'n');
        reveal_strlit("rowSpan");
        assert("rowSpan"@.len() == 7 && "rowSpan"@[0] == 'r' && "rowSpan"@[1] == 'o' && "rowSpan"@[2] == 'w' && "rowSpan"@[3] == 'S' && "rowSpan"@[4] == 'p' && "rowSpan"@[5] == 'a' && "rowSpan"@[6] == 'n');
        reveal_strlit("style");
        assert("style"@.len() == 5 && "style"@[0] == 's' && "style"@[1] == 't' && "style"@[2] == 'y' && "style"@[3] == 'l' && "style"@[4] == 'e');
        reveal_strlit("title");
        assert("title"@.len() == 5 && "title"@[0] == 't' && "title"@[1] == 'i' && "title"@[2] == 't' && "title"@[3] == 'l' && "title"@[4] == 'e');
        reveal_strlit("path");
        assert("path"@.len() == 4 && "path"@[0] == 'p' && "path"@[1] == 'a' && "path"@[2] == 't' && "path"@[3] == 'h');
        reveal_strlit("width");
        assert("width"@.len() == 5 && "width"@[0] == 'w' && "width"@[1] == 'i' && "width"@[2] == 'd' && "width"@[3] == 't' && "width"@[4] == 'h');
        reveal_strlit("height");
        assert("height"@.len() == 6 && "height"@[0] == 'h' && "height"@[1] == 'e' && "height"@[2] == 'i' && "height"@[3] == 'g' && "height"@[4] == 'h' && "height"@[5] == 't');
        reveal_strlit("alt");
        assert("alt"@.len() == 3 && "alt"@[0] == 'a' && "alt"@[1] == 'l' && "alt"@[2] == 't');
        reveal_strlit("description");
        assert("description"@.len() == 11 && "description"@[0] == 'd' && "description"@[1] == 'e' && "description"@[2] == 's' && "description"@[3] == 'c' && "description"@[4] == 'r' && "description"@[5] == 'i' && "description"@[6] == 'p' && "description"@[7] == 't' && "description"@[8] == 'i' && "description"@[9] == 'o' && "description"@[10] == 'n');
        reveal_strlit("pixelated");
        assert("pixelated"@.len() == 9 && "pixelated"@[0] == 'p' && "pixelated"@[1] == 'i' && "pixelated"@[2] == 'x' && "pixelated"@[3] == 'e' && "pixelated"@[4] == 'l' && "pixelated"@[5] == 'a' && "pixelated"@[6] == 't' && "pixelated"@[7] == 'e' && "pixelated"@[8] == 'd');
        reveal_strlit("imageRendering");
        assert("imageRendering"@.len() == 14 && "imageRendering"@[0] == 'i' && "imageRendering"@[1] == 'm' && "imageRendering"@[2] == 'a' && "imageRendering"@[3] == 'g' && "imageRendering"@[4] == 'e' && "imageRendering"@[5] == 'R' && "imageRendering"@[6] == 'e' && "imageRendering"@[7] == 'n' && "imageRendering"@[8] == 'd' && "imageRendering"@[9] == 'e' && "imageRendering"@[10] == 'r' && "imageRendering"@[11] == 'i' && "imageRendering"@[12] == 'n' && "imageRendering"@[13] == 'g');
        reveal_strlit("appearance");
        assert("appearance"@.len() == 10 && "appearance"@[0] == 'a' && "appearance"@[1] == 'p' && "appearance"@[2] == 'p' && "appearance"@[3] == 'e' && "appearance"@[4] == 'a' && "appearance"@[5] == 'r' && "appearance"@[6] == 'a' && "appearance"@[7] == 'n' && "appearance"@[8] == 'c' && "appearance"@[9] == 'e');
        reveal_strlit("background");
        assert("background"@.len() == 10 && "background"@[0] == 'b' && "background"@[1] == 'a' && "background"@[2] == 'c' && "background"@[3] == 'k' && "background"@[4] == 'g' && "background"@[5] == 'r' && "background"@[6] == 'o' && "background"@[7] == 'u' && "background"@[8] == 'n' && "background"@[9] == 'd');
        reveal_strlit("collapsed");
        assert("collapsed"@.len() == 9 && "collapsed"@[0] == 'c' && "collapsed"@[1] == 'o' && "collapsed"@[2] == 'l' && "collapsed"@[3] == 'l' && "collapsed"@[4] == 'a' && "collapsed"@[5] == 'p' && "collapsed"@[6] == 's' && "collapsed"@[7] == 'e' && "collapsed"@[8] == 'd');
        reveal_strlit("collapsible");
        assert("collapsible"@.len() == 11 && "collapsible"@[0] == 'c' && "collapsible"@[1] == 'o' && "collapsible"@[2] == 'l' && "collapsible"@[3] == 'l' && "collapsible"@[4] == 'a' && "collapsible"@[5] == 'p' && "collapsible"@[6] == 's' && "collapsible"@[7] == 'i' && "collapsible"@[8] == 'b' && "collapsible"@[9] == 'l' && "collapsible"@[10] == 'e');
        reveal_strlit("verticalAlign");
        assert("verticalAlign"@.len() == 13 && "verticalAlign"@[0] == 'v' && "verticalAlign"@[1] == 'e' && "verticalAlign"@[2] == 'r' && "verticalAlign"@[3] == 't' && "verticalAlign"@[4] == 'i' && "verticalAlign"@[5] == 'c' && "verticalAlign"@[6] == 'a' && "verticalAlign"@[7] == 'l' && "verticalAlign"@[8] == 'A' && "verticalAlign"@[9] == 'l' && "verticalAlign"@[10] == 'i' && "verticalAlign"@[11] == 'g' && "verticalAlign"@[12] == 'n');
        reveal_strlit("border");
        assert("border"@.len() == 6 && "border"@[0] == 'b' && "border"@[1] == 'o' && "border"@[2] == 'r' && "border"@[3] == 'd' && "border"@[4] == 'e' && "border"@[5] == 'r');
        reveal_strlit("borderRadius");
        assert("borderRadius"@.len() == 12 && "borderRadius"@[0] == 'b' && "borderRadius"@[1] == 'o' && "borderRadius"@[2] == 'r' && "borderRadius"@[3] == 'd' && "borderRadius"@[4] == 'e' && "borderRadius"@[5] == 'r' && "borderRadius"@[6] == 'R' && "borderRadius"@[7] == 'a' && "borderRadius"@[8] == 'd' && "borderRadius"@[9] == 'i' && "borderRadius"@[10] == 'u' && "borderRadius"@[11] == 's');
        reveal_strlit("sizeUnits");
        assert("sizeUnits"@.len() == 9 && "sizeUnits"@[0] == 's' && "sizeUnits"@[1] == 'i' && "sizeUnits"@[2] == 'z' && "sizeUnits"@[3] == 'e' && "sizeUnits"@[4] == 'U' && "sizeUnits"@[5] == 'n' && "sizeUnits"@[6] == 'i' && "sizeUnits"@[7] == 't' && "sizeUnits"@[8] == 's');
        reveal_strlit("href");
        assert("href"@.len() == 4 && "href"@[0] == 'h' && "href"@[1] == 'r' && "href"@[2] == 'e' && "href"@[3] == 'f');
        reveal_strlit("type");
        assert("type"@.len() == 4 && "type"@[0] == 't' && "type"@[1] == 'y' && "type"@[2] == 'p' && "type"@[3] == 'e');
        reveal_strlit("text");
        assert("text"@.len() == 4 && "text"@[0] == 't' && "text"@[1] == 'e' && "text"@[2] == 'x' && "text"@[3] == 't');
        reveal_strlit("reading");
        assert("reading"@.len() == 7 && "reading"@[0] == 'r' && "reading"@[1] == 'e' && "reading"@[2] == 'a' && "reading"@[3] == 'd' && "reading"@[4] == 'i' && "reading"@[5] == 'n' && "reading"@[6] == 'g');
        reveal_strlit("frequency");
        assert("frequency"@.len() == 9 && "frequency"@[0] == 'f' && "frequency"@[1] == 'r' && "frequency"@[2] == 'e' && "frequency"@[3] == 'q' && "frequency"@[4] == 'u' && "frequency"@[5] == 'e' && "frequency"@[6] == 'n' && "frequency"@[7] == 'c' && "frequency"@[8] == 'y');
        reveal_strlit("value");
        assert("value"@.len() == 5 && "value"@[0] == 'v' && "value"@[1] == 'a' && "value"@[2] == 'l' && "value"@[3] == 'u' && "value"@[4] == 'e');
        reveal_strlit("displayValue");
        assert("displayValue"@.len() == 12 && "displayValue"@[0] == 'd' && "displayValue"@[1] == 'i' && "displayValue"@[2] == 's' && "displayValue"@[3] == 'p' && "displayValue"@[4] == 'l' && "displayValue"@[5] == 'a' && "displayValue"@[6] == 'y' && "displayValue"@[7] == 'V' && "displayValue"@[8] == 'a' && "displayValue"@[9] == 'l' && "displayValue"@[10] == 'u' && "displayValue"@[11] == 'e');
        reveal_strlit("pitches");
        assert("pitches"@.len() == 7 && "pitches"@[0] == 'p' && "pitches"@[1] == 'i' && "pitches"@[2] == 't' && "pitches"@[3] == 'c' && "pitches"@[4] == 'h' && "pitches"@[5] == 'e' && "pitches"@[6] == 's');
        reveal_strlit("position");
        assert("position"@.len() == 8 && "position"@[0] == 'p' && "position"@[1] == 'o' && "position"@[2] == 's' && "position"@[3] == 'i' && "position"@[4] == 't' && "position"@[5] == 'i' && "position"@[6] == 'o' && "position"@[7] == 'n');
        reveal_strlit("nasal");
        assert("nasal"@.len() == 5 && "nasal"@[0] == 'n' && "nasal"@[1] == 'a' && "nasal"@[2] == 's' && "nasal"@[3] == 'a' && "nasal"@[4] == 'l');
        reveal_strlit("devoice");
        assert("devoice"@.len() == 7 && "devoice"@[0] == 'd' && "devoice"@[1] == 'e' && "devoice"@[2] == 'v' && "devoice"@[3] == 'o' && "devoice"@[4] == 'i' && "devoice"@[5] == 'c' && "devoice"@[6] == 'e');
        reveal_strlit("tags");
        assert("tags"@.len() == 4 && "tags"@[0] == 't' && "tags"@[1] == 'a' && "tags"@[2] == 'g' && "tags"@[3] == 's');
        reveal_strlit("transcriptions");
        assert("transcriptions"@.len() == 14 && "transcriptions"@[0] == 't' && "transcriptions"@[1] == 'r' && "transcriptions"@[2] == 'a' && "transcriptions"@[3] == 'n' && "transcriptions"@[4] == 's' && "transcriptions"@[5] == 'c' && "transcriptions"@[6] == 'r' && "transcriptions"@[7] == 'i' && "transcriptions"@[8] == 'p' && "transcriptions"@[9] == 't' && "transcriptions"@[10] == 'i' && "transcriptions"@[11] == 'o' && "transcriptions"@[12] == 'n' && "transcriptions"@[13] == 's');
        reveal_strlit("ipa");
        assert("ipa"@.len() == 3 && "ipa"@[0] == 'i' && "ipa"@[1] == 'p' && "ipa"@[2] == 'a');
        reveal_strlit("mode");
        assert("mode"@.len() == 4 && "mode"@[0] == 'm' && "mode"@[1] == 'o' && "mode"@[2] == 'd' && "mode"@[3] == 'e');
    }
}

/// A member name of a style object.
#[derive(Clone, Copy, Debug, PartialEq, Eq, Structural)]
pub enum StyleKey {
    FontStyle,
    FontWeight,
    FontSize,
    Color,
    Background,
    BackgroundColor,
    TextDecorationLine,
    TextDecorationStyle,
    TextDecorationColor,
    BorderColor,
    BorderStyle,
    BorderRadius,
    BorderWidth,
    ClipPath,
    VerticalAlign,
    TextAlign,
    TextEmphasis,
    TextShadow,
    Margin,
    MarginTop,
    MarginLeft,
    MarginRight,
    MarginBottom,
    Padding,
    PaddingTop,
    PaddingLeft,
    PaddingRight,
    PaddingBottom,
    WordBreak,
    WhiteSpace,
    Cursor,
    ListStyleType,
}

impl StyleKey {
    /// The spelling of this value on the wire.
    pub open spec fn spec_name(self) -> Seq<char> {
        match self {
            StyleKey::FontStyle => "fontStyle"@,
            StyleKey::FontWeight => "fontWeight"@,
            StyleKey::FontSize => "fontSize"@,
            StyleKey::Color => "color"@,
            StyleKey::Background => "background"@,
            StyleKey::BackgroundColor => "backgroundColor"@,
            StyleKey::TextDecorationLine => "textDecorationLine"@,
            StyleKey::TextDecorationStyle => "textDecorationStyle"@,
            StyleKey::TextDecorationColor => "textDecorationColor"@,
            StyleKey::BorderColor => "borderColor"@,
            StyleKey::BorderStyle => "borderStyle"@,
            StyleKey::BorderRadius => "borderRadius"@,
            StyleKey::BorderWidth => "borderWidth"@,
            StyleKey::ClipPath => "clipPath"@,
            StyleKey::VerticalAlign => "verticalAlign"@,
            StyleKey::TextAlign => "textAlign"@,
            StyleKey::TextEmphasis => "textEmphasis"@,
            StyleKey::TextShadow => "textShadow"@,
            StyleKey::Margin => "margin"@,
            StyleKey::MarginTop => "marginTop"@,
            StyleKey::MarginLeft => "marginLeft"@,
            StyleKey::MarginRight => "marginRight"@,
            StyleKey::MarginBottom => "marginBottom"@,
            StyleKey::Padding => "padding"@,
            StyleKey::PaddingTop => "paddingTop"@,
            StyleKey::PaddingLeft => "paddingLeft"@,
            StyleKey::PaddingRight => "paddingRight"@,
            StyleKey::PaddingBottom => "paddingBottom"@,
            StyleKey::WordBreak => "wordBreak"@,
            StyleKey::WhiteSpace => "whiteSpace"@,
            StyleKey::Cursor => "cursor"@,
            StyleKey::ListStyleType => "listStyleType"@,
        }
    }

    /// The value spelled `s`, if any.
    pub open spec fn spec_from_name(s: Seq<char>) -> Option<StyleKey> {
        if s == "fontStyle"@ {
            Some(StyleKey::FontStyle)
        } else if s == "fontWeight"@ {
            Some(StyleKey::FontWeight)
        } else if s == "fontSize"@ {
            Some(StyleKey::FontSize)
        } else if s == "color"@ {
            Some(StyleKey::Color)
        } else if s == "background"@ {
            Some(StyleKey::Background)
        } else if s == "backgroundColor"@ {
            Some(StyleKey::BackgroundColor)
        } else if s == "textDecorationLine"@ {
            Some(StyleKey::TextDecorationLine)
        } else if s == "textDecorationStyle"@ {
            Some(StyleKey::TextDecorationStyle)
        } else if s == "textDecorationColor"@ {
            Some(StyleKey::TextDecorationColor)
        } else if s == "borderColor"@ {
            Some(StyleKey::BorderColor)
        } else if s == "borderStyle"@ {
            Some(StyleKey::BorderStyle)
        } else if s == "borderRadius"@ {
            Some(StyleKey::BorderRadius)
        } else if s == "borderWidth"@ {
            Some(StyleKey::BorderWidth)
        } else if s == "clipPath"@ {
            Some(StyleKey::ClipPath)
        } else if s == "verticalAlign"@ {
            Some(StyleKey::VerticalAlign)
        } else if s == "textAlign"@ {
            Some(StyleKey::TextAlign)
        } else if s == "textEmphasis"@ {
            Some(StyleKey::TextEmphasis)
        } else if s == "textShadow"@ {
            Some(StyleKey::TextShadow)
        } else if s == "margin"@ {
            Some(StyleKey::Margin)
        } else if s == "marginTop"@ {
            Some(StyleKey::MarginTop)
        } else if s == "marginLeft"@ {
            Some(StyleKey::MarginLeft)
        } else if s == "marginRight"@ {
            Some(StyleKey::MarginRight)
        } else if s == "marginBottom"@ {
            Some(StyleKey::MarginBottom)
        } else if s == "padding"@ {
            Some(StyleKey::Padding)
        } else if s == "paddingTop"@ {
            Some(StyleKey::PaddingTop)
        } else if s == "paddingLeft"@ {
            Some(StyleKey::PaddingLeft)
        } else if s == "paddingRight"@ {
            Some(StyleKey::PaddingRight)
        } else if s == "paddingBottom"@ {
            Some(StyleKey::PaddingBottom)
        } else if s == "wordBreak"@ {
            Some(StyleKey::WordBreak)
        } else if s == "whiteSpace"@ {
            Some(StyleKey::WhiteSpace)
        } else if s == "cursor"@ {
            Some(StyleKey::Cursor)
        } else if s == "listStyleType"@ {
            Some(StyleKey::ListStyleType)
        } else {
            None
        }
    }

    /// The spelling of this value on the wire.
    pub fn name(self) -> (r: &'static str)
        ensures
            r@ == self.spec_name(),
    {
        match self {
            StyleKey::FontStyle => "fontStyle",
            StyleKey::FontWeight => "fontWeight",
            StyleKey::FontSize => "fontSize",
            StyleKey::Color => "color",
            StyleKey::Background => "background",
            StyleKey::BackgroundColor => "backgroundColor",
            StyleKey::TextDecorationLine => "textDecorationLine",
            StyleKey::TextDecorationStyle => "textDecorationStyle",
            StyleKey::TextDecorationColor => "textDecorationColor",
            StyleKey::BorderColor => "borderColor",
            StyleKey::BorderStyle => "borderStyle",
            StyleKey::BorderRadius => "borderRadius",
            StyleKey::BorderWidth => "borderWidth",
            StyleKey::ClipPath => "clipPath",
            StyleKey::VerticalAlign => "verticalAlign",
            StyleKey::TextAlign => "textAlign",
            StyleKey::TextEmphasis => "textEmphasis",
            StyleKey::TextShadow => "textShadow",
            StyleKey::Margin => "margin",
            StyleKey::MarginTop => "marginTop",
            StyleKey::MarginLeft => "marginLeft",
            StyleKey::MarginRight => "marginRight",
            StyleKey::MarginBottom => "marginBottom",
            StyleKey::Padding => "padding",
            StyleKey::PaddingTop => "paddingTop",
            StyleKey::PaddingLeft => "paddingLeft",
            StyleKey::PaddingRight => "paddingRight",
            StyleKey::PaddingBottom => "paddingBottom",
            StyleKey::WordBreak => "wordBreak",
            StyleKey::WhiteSpace => "whiteSpace",
            StyleKey::Cursor => "cursor",
            StyleKey::ListStyleType => "listStyleType",
        }
    }

    /// The value spelled `s`, if any.
    pub fn from_name(s: &str) -> (r: Option<StyleKey>)
        ensures
            r == Self::spec_from_name(s@),
    {
        if str_equal(s, "fontStyle") {
            Some(StyleKey::FontStyle)
        } else if str_equal(s, "fontWeight") {
            Some(StyleKey::FontWeight)
        } else if str_equal(s, "fontSize") {
            Some(StyleKey::FontSize)
        } else if str_equal(s, "color") {
            Some(StyleKey::Color)
        } else if str_equal(s, "background") {
            Some(StyleKey::Background)
        } else if str_equal(s, "backgroundColor") {
            Some(StyleKey::BackgroundColor)
        } else if str_equal(s, "textDecorationLine") {
            Some(StyleKey::TextDecorationLine)
        } else if str_equal(s, "textDecorationStyle") {
            Some(StyleKey::TextDecorationStyle)
        } else if str_equal(s, "textDecorationColor") {
            Some(StyleKey::TextDecorationColor)
        } else if str_equal(s, "borderColor") {
            Some(StyleKey::BorderColor)
        } else if str_equal(s, "borderStyle") {
            Some(StyleKey::BorderStyle)
        } else if str_equal(s, "borderRadius") {
            Some(StyleKey::BorderRadius)
        } else if str_equal(s, "borderWidth") {
            Some(StyleKey::BorderWidth)
        } else if str_equal(s, "clipPath") {
            Some(StyleKey::ClipPath)
        } else if str_equal(s, "verticalAlign") {
            Some(StyleKey::VerticalAlign)
        } else if str_equal(s, "textAlign") {
            Some(StyleKey::TextAlign)
        } else if str_equal(s, "textEmphasis") {
            Some(StyleKey::TextEmphasis)
        } else if str_equal(s, "textShadow") {
            Some(StyleKey::TextShadow)
        } else if str_equal(s, "margin") {
            Some(StyleKey::Margin)
        } else if str_equal(s, "marginTop") {
            Some(StyleKey::MarginTop)
        } else if str_equal(s, "marginLeft") {
            Some(StyleKey::MarginLeft)
        } else if str_equal(s, "marginRight") {
            Some(StyleKey::MarginRight)
        } else if str_equal(s, "marginBottom") {
            Some(StyleKey::MarginBottom)
        } else if str_equal(s, "padding") {
            Some(StyleKey::Padding)
        } else if str_equal(s, "paddingTop") {
            Some(StyleKey::PaddingTop)
        } else if str_equal(s, "paddingLeft") {
            Some(StyleKey::PaddingLeft)
        } else if str_equal(s, "paddingRight") {
            Some(StyleKey::PaddingRight)
        } else if str_equal(s, "paddingBottom") {
            Some(StyleKey::PaddingBottom)
        } else if str_equal(s, "wordBreak") {
            Some(StyleKey::WordBreak)
        } else if str_equal(s, "whiteSpace") {
            Some(StyleKey::WhiteSpace)
        } else if str_equal(s, "cursor") {
            Some(StyleKey::Cursor)
        } else if str_equal(s, "listStyleType") {
            Some(StyleKey::ListStyleType)
        } else {
            None
        }
    }

    /// Reading back the spelling of a value gives that value.
    pub proof fn lemma_name_round_trip(self)
        ensures
            Self::spec_from_name(self.spec_name()) == Some(self),
    {
        reveal_strlit("fontStyle");
        assert("fontStyle"@.len() == 9 && "fontStyle"@[0] == 'f' && "fontStyle"@[1] == 'o' && "fontStyle"@[2] == 'n' && "fontStyle"@[3] == 't' && "fontStyle"@[4] == 'S' && "fontStyle"@[5] == 't' && "fontStyle"@[6] == 'y' && "fontStyle"@[7] == 'l' && "fontStyle"@[8] == 'e');
        reveal_strlit("fontWeight");
        assert("fontWeight"@.len() == 10 && "fontWeight"@[0] == 'f' && "fontWeight"@[1] == 'o' && "fontWeight"@[2] == 'n' && "fontWeight"@[3] == 't' && "fontWeight"@[4] == 'W' && "fontWeight"@[5] == 'e' && "fontWeight"@[6] == 'i' && "fontWeight"@[7] == 'g' && "fontWeight"@[8] == 'h' && "fontWeight"@[9] == 't');
        reveal_strlit("fontSize");
        assert("fontSize"@.len() == 8 && "fontSize"@[0] == 'f' && "fontSize"@[1] == 'o' && "fontSize"@[2] == 'n' && "fontSize"@[3] == 't' && "fontSize"@[4] == 'S' && "fontSize"@[5] == 'i' && "fontSize"@[6] == 'z' && "fontSize"@[7] == 'e');
        reveal_strlit("color");
        assert("color"@.len() == 5 && "color"@[0] == 'c' && "color"@[1] == 'o' && "color"@[2] == 'l' && "color"@[3] == 'o' && "color"@[4] == 'r');
        reveal_strlit("background");
        assert("background"@.len() == 10 && "background"@[0] == 'b' && "background"@[1] == 'a' && "background"@[2] == 'c' && "background"@[3] == 'k' && "background"@[4] == 'g' && "background"@[5] == 'r' && "background"@[6] == 'o' && "background"@[7] == 'u' && "background"@[8] == 'n' && "background"@[9] == 'd');
        reveal_strlit("backgroundColor");
        assert("backgroundColor"@.len() == 15 && "backgroundColor"@[0] == 'b' && "backgroundColor"@[1] == 'a' && "backgroundColor"@[2] == 'c' && "backgroundColor"@[3] == 'k' && "backgroundColor"@[4] == 'g' && "backgroundColor"@[5] == 'r' && "backgroundColor"@[6] == 'o' && "backgroundColor"@[7] == 'u' && "backgroundColor"@[8] == 'n' && "backgroundColor"@[9] == 'd' && "backgroundColor"@[10] == 'C' && "backgroundColor"@[11] == 'o' && "backgroundColor"@[12] == 'l' && "backgroundColor"@[13] == 'o' && "backgroundColor"@[14] == 'r');
        reveal_strlit("textDecorationLine");
        assert("textDecorationLine"@.len() == 18 && "textDecorationLine"@[0] == 't' && "textDecorationLine"@[1] == 'e' && "textDecorationLine"@[2] == 'x' && "textDecorationLine"@[3] == 't' && "textDecorationLine"@[4] == 'D' && "textDecorationLine"@[5] == 'e' && "textDecorationLine"@[6] == 'c' && "textDecorationLine"@[7] == 'o' && "textDecorationLine"@[8] == 'r' && "textDecorationLine"@[9] == 'a' && "textDecorationLine"@[10] == 't' && "textDecorationLine"@[11] == 'i' && "textDecorationLine"@[12] == 'o' && "textDecorationLine"@[13] == 'n' && "textDecorationLine"@[14] == 'L' && "textDecorationLine"@[15] == 'i' && "textDecorationLine"@[16] == 'n' && "textDecorationLine"@[17] == 'e');
        reveal_strlit("textDecorationStyle");
        assert("textDecorationStyle"@.len() == 19 && "textDecorationStyle"@[0] == 't' && "textDecorationStyle"@[1] == 'e' && "textDecorationStyle"@[2] == 'x' && "textDecorationStyle"@[3] == 't' && "textDecorationStyle"@[4] == 'D' && "textDecorationStyle"@[5] == 'e' && "textDecorationStyle"@[6] == 'c' && "textDecorationStyle"@[7] == 'o' && "textDecorationStyle"@[8] == 'r' && "textDecorationStyle"@[9] == 'a' && "textDecorationStyle"@[10] == 't' && "textDecorationStyle"@[11] == 'i' && "textDecorationStyle"@[12] == 'o' && "textDecorationStyle"@[13] == 'n' && "textDecorationStyle"@[14] == 'S' && "textDecorationStyle"@[15] == 't' && "textDecorationStyle"@[16] == 'y' && "textDecorationStyle"@[17] == 'l' && "textDecorationStyle"@[18] == 'e');
        reveal_strlit("textDecorationColor");
        assert("textDecorationColor"@.len() == 19 && "textDecorationColor"@[0] == 't' && "textDecorationColor"@[1] == 'e' && "textDecorationColor"@[2] == 'x' && "textDecorationColor"@[3] == 't' && "textDecorationColor"@[4] == 'D' && "textDecorationColor"@[5] == 'e' && "textDecorationColor"@[6] == 'c' && "textDecorationColor"@[7] == 'o' && "textDecorationColor"@[8] == 'r' && "textDecorationColor"@[9] == 'a' && "textDecorationColor"@[10] == 't' && "textDecorationColor"@[11] == 'i' && "textDecorationColor"@[12] == 'o' && "textDecorationColor"@[13] == 'n' && "textDecorationColor"@[14] == 'C' && "textDecorationColor"@[15] == 'o' && "textDecorationColor"@[16] == 'l' && "textDecorationColor"@[17] == 'o' && "textDecorationColor"@[18] == 'r');
        reveal_strlit("borderColor");
        assert("borderColor"@.len() == 11 && "borderColor"@[0] == 'b' && "borderColor"@[1] == 'o' && "borderColor"@[2] == 'r' && "borderColor"@[3] == 'd' && "borderColor"@[4] == 'e' && "borderColor"@[5] == 'r' && "borderColor"@[6] == 'C' && "borderColor"@[7] == 'o' && "borderColor"@[8] == 'l' && "borderColor"@[9] == 'o' && "borderColor"@[10] == 'r');
        reveal_strlit("borderStyle");
        assert("borderStyle"@.len() == 11 && "borderStyle"@[0] == 'b' && "borderStyle"@[1] == 'o' && "borderStyle"@[2] == 'r' && "borderStyle"@[3] == 'd' && "borderStyle"@[4] == 'e' && "borderStyle"@[5] == 'r' && "borderStyle"@[6] == 'S' && "borderStyle"@[7] == 't' && "borderStyle"@[8] == 'y' && "borderStyle"@[9] == 'l' && "borderStyle"@[10] == 'e');
        reveal_strlit("borderRadius");
        assert("borderRadius"@.len() == 12 && "borderRadius"@[0] == 'b' && "borderRadius"@[1] == 'o' && "borderRadius"@[2] == 'r' && "borderRadius"@[3] == 'd' && "borderRadius"@[4] == 'e' && "borderRadius"@[5] == 'r' && "borderRadius"@[6] == 'R' && "borderRadius"@[7] == 'a' && "borderRadius"@[8] == 'd' && "borderRadius"@[9] == 'i' && "borderRadius"@[10] == 'u' && "borderRadius"@[11] == 's');
        reveal_strlit("borderWidth");
        assert("borderWidth"@.len() == 11 && "borderWidth"@[0] == 'b' && "borderWidth"@[1] == 'o' && "borderWidth"@[2] == 'r' && "borderWidth"@[3] == 'd' && "borderWidth"@[4] == 'e' && "borderWidth"@[5] == 'r' && "borderWidth"@[6] == 'W' && "borderWidth"@[7] == 'i' && "borderWidth"@[8] == 'd' && "borderWidth"@[9] == 't' && "borderWidth"@[10] == 'h');
        reveal_strlit("clipPath");
        assert("clipPath"@.len() == 8 && "clipPath"@[0] == 'c' && "clipPath"@[1] == 'l' && "clipPath"@[2] == 'i' && "clipPath"@[3] == 'p' && "clipPath"@[4] == 'P' && "clipPath"@[5] == 'a' && "clipPath"@[6] == 't' && "clipPath"@[7] == 'h');
        reveal_strlit("verticalAlign");
        assert("verticalAlign"@.len() == 13 && "verticalAlign"@[0] == 'v' && "verticalAlign"@[1] == 'e' && "verticalAlign"@[2] == 'r' && "verticalAlign"@[3] == 't' && "verticalAlign"@[4] == 'i' && "verticalAlign"@[5] == 'c' && "verticalAlign"@[6] == 'a' && "verticalAlign"@[7] == 'l' && "verticalAlign"@[8] == 'A' && "verticalAlign"@[9] == 'l' && "verticalAlign"@[10] == 'i' && "verticalAlign"@[11] == 'g' && "verticalAlign"@[12] == 'n');
        reveal_strlit("textAlign");
        assert("textAlign"@.len() == 9 && "textAlign"@[0] == 't' && "textAlign"@[1] == 'e' && "textAlign"@[2] == 'x' && "textAlign"@[3] == 't' && "textAlign"@[4] == 'A' && "textAlign"@[5] == 'l' && "textAlign"@[6] == 'i' && "textAlign"@[7] == 'g' && "textAlign"@[8] == 'n');
        reveal_strlit("textEmphasis");
        assert("textEmphasis"@.len() == 12 && "textEmphasis"@[0] == 't' && "textEmphasis"@[1] == 'e' && "textEmphasis"@[2] == 'x' && "textEmphasis"@[3] == 't' && "textEmphasis"@[4] == 'E' && "textEmphasis"@[5] == 'm' && "textEmphasis"@[6] == 'p' && "textEmphasis"@[7] == 'h' && "textEmphasis"@[8] == 'a' && "textEmphasis"@[9] == 's' && "textEmphasis"@[10] == 'i' && "textEmphasis"@[11] == 's');
        reveal_strlit("textShadow");
        assert("textShadow"@.len() == 10 && "textShadow"@[0] == 't' && "textShadow"@[1] == 'e' && "textShadow"@[2] == 'x' && "textShadow"@[3] == 't' && "textShadow"@[4] == 'S' && "textShadow"@[5] == 'h' && "textShadow"@[6] == 'a' && "textShadow"@[7] == 'd' && "textShadow"@[8] == 'o' && "textShadow"@[9] == 'w');
        reveal_strlit("margin");
        assert("margin"@.len() == 6 && "margin"@[0] == 'm' && "margin"@[1] == 'a' && "margin"@[2] == 'r' && "margin"@[3] == 'g' && "margin"@[4] == 'i' && "margin"@[5] == 'n');
        reveal_strlit("marginTop");
        assert("marginTop"@.len() == 9 && "marginTop"@[0] == 'm' && "marginTop"@[1] == 'a' && "marginTop"@[2] == 'r' && "marginTop"@[3] == 'g' && "marginTop"@[4] == 'i' && "marginTop"@[5] == 'n' && "marginTop"@[6] == 'T' && "marginTop"@[7] == 'o' && "marginTop"@[8] == 'p');
        reveal_strlit("marginLeft");
        assert("marginLeft"@.len() == 10 && "marginLeft"@[0] == 'm' && "marginLeft"@[1] == 'a' && "marginLeft"@[2] == 'r' && "marginLeft"@[3] == 'g' && "marginLeft"@[4] == 'i' && "marginLeft"@[5] == 'n' && "marginLeft"@[6] == 'L' && "marginLeft"@[7] == 'e' && "marginLeft"@[8] == 'f' && "marginLeft"@[9] == 't');
        reveal_strlit("marginRight");
        assert("marginRight"@.len() == 11 && "marginRight"@[0] == 'm' && "marginRight"@[1] == 'a' && "marginRight"@[2] == 'r' && "marginRight"@[3] == 'g' && "marginRight"@[4] == 'i' && "marginRight"@[5] == 'n' && "marginRight"@[6] == 'R' && "marginRight"@[7] == 'i' && "marginRight"@[8] == 'g' && "marginRight"@[9] == 'h' && "marginRight"@[10] == 't');
        reveal_strlit("marginBottom");
        assert("marginBottom"@.len() == 12 && "marginBottom"@[0] == 'm' && "marginBottom"@[1] == 'a' && "marginBottom"@[2] == 'r' && "marginBottom"@[3] == 'g' && "marginBottom"@[4] == 'i' && "marginBottom"@[5] == 'n' && "marginBottom"@[6] == 'B' && "marginBottom"@[7] == 'o' && "marginBottom"@[8] == 't' && "marginBottom"@[9] == 't' && "marginBottom"@[10] == 'o' && "marginBottom"@[11] == 'm');
        reveal_strlit("padding");
        assert("padding"@.len() == 7 && "padding"@[0] == 'p' && "padding"@[1] == 'a' && "padding"@[2] == 'd' && "padding"@[3] == 'd' && "padding"@[4] == 'i' && "padding"@[5] == 'n' && "padding"@[6] == 'g');
        reveal_strlit("paddingTop");
        assert("paddingTop"@.len() == 10 && "paddingTop"@[0] == 'p' && "paddingTop"@[1] == 'a' && "paddingTop"@[2] == 'd' && "paddingTop"@[3] == 'd' && "paddingTop"@[4] == 'i' && "paddingTop"@[5] == 'n' && "paddingTop"@[6] == 'g' && "paddingTop"@[7] == 'T' && "paddingTop"@[8] == 'o' && "paddingTop"@[9] == 'p');
        reveal_strlit("paddingLeft");
        assert("paddingLeft"@.len() == 11 && "paddingLeft"@[0] == 'p' && "paddingLeft"@[1] == 'a' && "paddingLeft"@[2] == 'd' && "paddingLeft"@[3] == 'd' && "paddingLeft"@[4] == 'i' && "paddingLeft"@[5] == 'n' && "paddingLeft"@[6] == 'g' && "paddingLeft"@[7] == 'L' && "paddingLeft"@[8] == 'e' && "paddingLeft"@[9] == 'f' && "paddingLeft"@[10] == 't');
        reveal_strlit("paddingRight");
        assert("paddingRight"@.len() == 12 && "paddingRight"@[0] == 'p' && "paddingRight"@[1] == 'a' && "paddingRight"@[2] == 'd' && "paddingRight"@[3] == 'd' && "paddingRight"@[4] == 'i' && "paddingRight"@[5] == 'n' && "paddingRight"@[6] == 'g' && "paddingRight"@[7] == 'R' && "paddingRight"@[8] == 'i' && "paddingRight"@[9] == 'g' && "paddingRight"@[10] == 'h' && "paddingRight"@[11] == 't');
        reveal_strlit("paddingBottom");
        assert("paddingBottom"@.len() == 13 && "paddingBottom"@[0] == 'p' && "paddingBottom"@[1] == 'a' && "paddingBottom"@[2] == 'd' && "paddingBottom"@[3] == 'd' && "paddingBottom"@[4] == 'i' && "paddingBottom"@[5] == 'n' && "paddingBottom"@[6] == 'g' && "paddingBottom"@[7] == 'B' && "paddingBottom"@[8] == 'o' && "paddingBottom"@[9] == 't' && "paddingBottom"@[10] == 't' && "paddingBottom"@[11] == 'o' && "paddingBottom"@[12] == 'm');
        reveal_strlit("wordBreak");
        assert("wordBreak"@.len() == 9 && "wordBreak"@[0] == 'w' && "wordBreak"@[1] == 'o' && "wordBreak"@[2] == 'r' && "wordBreak"@[3] == 'd' && "wordBreak"@[4] == 'B' && "wordBreak"@[5] == 'r' && "wordBreak"@[6] == 'e' && "wordBreak"@[7] == 'a' && "wordBreak"@[8] == 'k');
        reveal_strlit("whiteSpace");
        assert("whiteSpace"@.len() == 10 && "whiteSpace"@[0] == 'w' && "whiteSpace"@[1] == 'h' && "whiteSpace"@[2] == 'i' && "whiteSpace"@[3] == 't' && "whiteSpace"@[4] == 'e' && "whiteSpace"@[5] == 'S' && "whiteSpace"@[6] == 'p' && "whiteSpace"@[7] == 'a' && "whiteSpace"@[8] == 'c' && "whiteSpace"@[9] == 'e');
        reveal_strlit("cursor");
        assert("cursor"@.len() == 6 && "cursor"@[0] == 'c' && "cursor"@[1] == 'u' && "cursor"@[2] == 'r' && "cursor"@[3] == 's' && "cursor"@[4] == 'o' && "cursor"@[5] == 'r');
        reveal_strlit("listStyleType");
        assert("listStyleType"@.len() == 13 && "listStyleType"@[0] == 'l' && "listStyleType"@[1] == 'i' && "listStyleType"@[2] == 's' && "listStyleType"@[3] == 't' && "listStyleType"@[4] == 'S' && "listStyleType"@[5] == 't' && "listStyleType"@[6] == 'y' && "listStyleType"@[7] == 'l' && "listStyleType"@[8] == 'e' && "listStyleType"@[9] == 'T' && "listStyleType"@[10] == 'y' && "listStyleType"@[11] == 'p' && "listStyleType"@[12] == 'e');
    }
}

} // verus!
