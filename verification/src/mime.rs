//! MIME media types: a closed registry of types and subtypes, parsing of
//! `type "/" subtype` strings, validity, and wildcard matching.
use vstd::prelude::*;

use crate::strutil::chars_eq_str;
use crate::strutil::chars_of;
use crate::strutil::find_char;
use crate::strutil::first_index;
use crate::strutil::lemma_first_index;
use crate::strutil::string_of;

verus! {

broadcast use vstd::string::group_string_axioms;

/// The top-level component of a media type.
#[derive(Debug, Clone, Copy, PartialEq, Eq, Structural)]
pub enum Type {
    Unknown,
    Any,
    Application,
    Audio,
    Font,
    Image,
    Message,
    Multipart,
    Text,
    Video,
}

/// The subtype component of a media type.
#[derive(Debug, Clone, Copy, PartialEq, Eq, Structural)]
pub enum SubType {
    Unknown,
    Ac3,
    Acc,
    Aiff,
    Atom,
    Avif,
    Basic,
    Bmp,
    BytesRange,
    Bzip,
    Bzip2,
    Calendar,
    Css,
    Csv,
    Digest,
    Dns,
    DnsJson,
    DnsMessage,
    Encrypted,
    Epub,
    Example,
    Flac,
    FormData,
    Gif,
    Global,
    Gzip,
    Html,
    Http,
    Icon,
    Javascript,
    Jpeg,
    Json,
    Jsonld,
    Markdown,
    Mathml,
    Midi,
    Mp4,
    Mpa,
    Mpeg,
    Msword,
    OctetStream,
    Ogg,
    Opus,
    Otf,
    Pdf,
    Plain,
    Png,
    Raw,
    RichText,
    Rss,
    Rtf,
    Rtx,
    Sgml,
    Signed,
    Sql,
    Svg,
    Tiff,
    Troff,
    Tsv,
    Ttf,
    UriList,
    UrlEncoded,
    Wasm,
    Webm,
    Webp,
    Woff,
    Woff2,
    Xhtml,
    Xml,
    Yaml,
    Zip,
    Any,
}

/// A media type: a top-level type paired with a subtype.
#[derive(Debug, Clone, Copy, PartialEq, Eq, Structural)]
pub struct Mime {
    pub typ: Type,
    pub sub: SubType,
}

/// What a top-level type string denotes; unknown strings denote `None`.
pub open spec fn type_from_spec(s: Seq<char>) -> Type {
    if s == "*"@ {
        Type::Any
    } else if s == "application"@ {
        Type::Application
    } else if s == "audio"@ {
        Type::Audio
    } else if s == "font"@ {
        Type::Font
    } else if s == "image"@ {
        Type::Image
    } else if s == "multipart"@ {
        Type::Multipart
    } else if s == "text"@ {
        Type::Text
    } else if s == "video"@ {
        Type::Video
    } else {
        Type::Unknown
    }
}

/// The canonical spelling of a top-level type.
pub open spec fn type_name_spec(t: Type) -> Seq<char> {
    match t {
        Type::Any => "*"@,
        Type::Application => "application"@,
        Type::Audio => "audio"@,
        Type::Font => "font"@,
        Type::Image => "image"@,
        Type::Multipart => "multipart"@,
        Type::Text => "text"@,
        Type::Video => "video"@,
        Type::Message => "message"@,
        Type::Unknown => Seq::<char>::empty(),
    }
}

/// What a subtype string denotes; unknown strings denote `None`.
pub open spec fn sub_from_spec(s: Seq<char>) -> SubType {
    if s == "ac3"@ {
        SubType::Ac3
    } else if s == "acc"@ {
        SubType::Acc
    } else if s == "aiff"@ {
        SubType::Aiff
    } else if s == "x-aiff"@ {
        SubType::Aiff
    } else if s == "atom+xml"@ {
        SubType::Atom
    } else if s == "avif"@ {
        SubType::Avif
    } else if s == "basic"@ {
        SubType::Basic
    } else if s == "bmp"@ {
        SubType::Bmp
    } else if s == "bytesrange"@ {
        SubType::BytesRange
    } else if s == "x-bzip"@ {
        SubType::Bzip
    } else if s == "x-bzip2"@ {
        SubType::Bzip2
    } else if s == "calendar"@ {
        SubType::Calendar
    } else if s == "css"@ {
        SubType::Css
    } else if s == "csv"@ {
        SubType::Csv
    } else if s == "digest"@ {
        SubType::Digest
    } else if s == "dns"@ {
        SubType::Dns
    } else if s == "dns+json"@ {
        SubType::DnsJson
    } else if s == "dns+message"@ {
        SubType::DnsMessage
    } else if s == "encrypted"@ {
        SubType::Encrypted
    } else if s == "epub+zip"@ {
        SubType::Epub
    } else if s == "example"@ {
        SubType::Example
    } else if s == "flac"@ {
        SubType::Flac
    } else if s == "form-data"@ {
        SubType::FormData
    } else if s == "gif"@ {
        SubType::Gif
    } else if s == "global"@ {
        SubType::Global
    } else if s == "gzip"@ {
        SubType::Gzip
    } else if s == "x-gzip"@ {
        SubType::Gzip
    } else if s == "html"@ {
        SubType::Html
    } else if s == "http"@ {
        SubType::Http
    } else if s == "x-icon"@ {
        SubType::Icon
    } else if s == "javascript"@ {
        SubType::Javascript
    } else if s == "ecmascript"@ {
        SubType::Javascript
    } else if s == "jpeg"@ {
        SubType::Jpeg
    } else if s == "json"@ {
        SubType::Json
    } else if s == "ld+json"@ {
        SubType::Jsonld
    } else if s == "markdown"@ {
        SubType::Markdown
    } else if s == "x-markdown"@ {
        SubType::Markdown
    } else if s == "mathml"@ {
        SubType::Mathml
    } else if s == "midi"@ {
        SubType::Midi
    } else if s == "mp4"@ {
        SubType::Mp4
    } else if s == "mpa"@ {
        SubType::Mpa
    } else if s == "mpeg"@ {
        SubType::Mpeg
    } else if s == "msword"@ {
        SubType::Msword
    } else if s == "octet-stream"@ {
        SubType::OctetStream
    } else if s == "ogg"@ {
        SubType::Ogg
    } else if s == "opus"@ {
        SubType::Opus
    } else if s == "otf"@ {
        SubType::Otf
    } else if s == "x-font-otf"@ {
        SubType::Otf
    } else if s == "pdf"@ {
        SubType::Pdf
    } else if s == "plain"@ {
        SubType::Plain
    } else if s == "png"@ {
        SubType::Png
    } else if s == "richtext"@ {
        SubType::RichText
    } else if s == "rss+xml"@ {
        SubType::Rss
    } else if s == "rtf"@ {
        SubType::Rtf
    } else if s == "rtx"@ {
        SubType::Rtx
    } else if s == "sgml"@ {
        SubType::Sgml
    } else if s == "signed"@ {
        SubType::Signed
    } else if s == "sql"@ {
        SubType::Sql
    } else if s == "svg"@ {
        SubType::Svg
    } else if s == "svg+xml"@ {
        SubType::Svg
    } else if s == "tiff"@ {
        SubType::Tiff
    } else if s == "troff"@ {
        SubType::Troff
    } else if s == "tab-separated-values"@ {
        SubType::Tsv
    } else if s == "ttf"@ {
        SubType::Ttf
    } else if s == "x-font-ttf"@ {
        SubType::Ttf
    } else if s == "uri-list"@ {
        SubType::UriList
    } else if s == "x-www-form-urlencoded"@ {
        SubType::UrlEncoded
    } else if s == "wasm"@ {
        SubType::Wasm
    } else if s == "webm"@ {
        SubType::Webm
    } else if s == "webp"@ {
        SubType::Webp
    } else if s == "woff"@ {
        SubType::Woff
    } else if s == "woff2"@ {
        SubType::Woff2
    } else if s == "xhtml+xml"@ {
        SubType::Xhtml
    } else if s == "xml"@ {
        SubType::Xml
    } else if s == "yaml"@ {
        SubType::Yaml
    } else if s == "yml"@ {
        SubType::Yaml
    } else if s == "zip"@ {
        SubType::Zip
    } else if s == "zip-compressed"@ {
        SubType::Zip
    } else if s == "x-zip-compressed"@ {
        SubType::Zip
    } else if s == "*"@ {
        SubType::Any
    } else {
        SubType::Unknown
    }
}

/// The canonical spelling of a subtype.
pub open spec fn sub_name_spec(s: SubType) -> Seq<char> {
    match s {
        SubType::Ac3 => "ac3"@,
        SubType::Acc => "acc"@,
        SubType::Aiff => "aiff"@,
        SubType::Atom => "atom+xml"@,
        SubType::Avif => "avif"@,
        SubType::Basic => "basic"@,
        SubType::Bmp => "bmp"@,
        SubType::BytesRange => "bytesrange"@,
        SubType::Bzip => "x-bzip"@,
        SubType::Bzip2 => "x-bzip2"@,
        SubType::Calendar => "calendar"@,
        SubType::Css => "css"@,
        SubType::Csv => "csv"@,
        SubType::Digest => "digest"@,
        SubType::Dns => "dns"@,
        SubType::DnsJson => "dns+json"@,
        SubType::DnsMessage => "dns+message"@,
        SubType::Encrypted => "encrypted"@,
        SubType::Epub => "epub+zip"@,
        SubType::Example => "example"@,
        SubType::Flac => "flac"@,
        SubType::FormData => "form-data"@,
        SubType::Gif => "gif"@,
        SubType::Global => "global"@,
        SubType::Gzip => "gzip"@,
        SubType::Html => "html"@,
        SubType::Http => "http"@,
        SubType::Icon => "x-icon"@,
        SubType::Javascript => "javascript"@,
        SubType::Jpeg => "jpeg"@,
        SubType::Json => "json"@,
        SubType::Jsonld => "ld+json"@,
        SubType::Markdown => "markdown"@,
        SubType::Mathml => "mathml"@,
        SubType::Midi => "midi"@,
        SubType::Mp4 => "mp4"@,
        SubType::Mpa => "mpa"@,
        SubType::Mpeg => "mpeg"@,
        SubType::Msword => "msword"@,
        SubType::OctetStream => "octet-stream"@,
        SubType::Ogg => "ogg"@,
        SubType::Opus => "opus"@,
        SubType::Otf => "otf"@,
        SubType::Pdf => "pdf"@,
        SubType::Plain => "plain"@,
        SubType::Png => "png"@,
        SubType::Raw => "raw"@,
        SubType::RichText => "richtext"@,
        SubType::Rss => "rss+xml"@,
        SubType::Rtf => "rtf"@,
        SubType::Rtx => "rtx"@,
        SubType::Sgml => "sgml"@,
        SubType::Signed => "signed"@,
        SubType::Sql => "sql"@,
        SubType::Svg => "svg"@,
        SubType::Tiff => "tiff"@,
        SubType::Troff => "troff"@,
        SubType::Tsv => "tab-separated-values"@,
        SubType::Ttf => "ttf"@,
        SubType::UriList => "uri-list"@,
        SubType::UrlEncoded => "x-www-form-urlencoded"@,
        SubType::Wasm => "wasm"@,
        SubType::Webm => "webm"@,
        SubType::Webp => "webp"@,
        SubType::Woff => "woff"@,
        SubType::Woff2 => "woff2"@,
        SubType::Xhtml => "xhtml+xml"@,
        SubType::Xml => "xml"@,
        SubType::Yaml => "yaml"@,
        SubType::Zip => "zip"@,
        SubType::Any => "*"@,
        SubType::Unknown => Seq::<char>::empty(),
    }
}

/// The registry: which top-level types each subtype may stand under.
pub open spec fn valid_type_spec(sub: SubType, typ: Type) -> bool {
    if typ == Type::Any {
        true
    } else {
        match sub {
            SubType::Unknown => false,
            SubType::Any => typ != Type::Unknown,
            SubType::Ac3 => typ == Type::Audio,
            SubType::Acc => typ == Type::Audio,
            SubType::Aiff => typ == Type::Audio,
            SubType::Atom => typ == Type::Application,
            SubType::Avif => typ == Type::Image,
            SubType::Basic => typ == Type::Audio,
            SubType::Bmp => typ == Type::Image,
            SubType::BytesRange => typ == Type::Multipart,
            SubType::Bzip => typ == Type::Application,
            SubType::Bzip2 => typ == Type::Application,
            SubType::Calendar => typ == Type::Text,
            SubType::Css => typ == Type::Text,
            SubType::Csv => typ == Type::Text,
            SubType::Digest => typ == Type::Multipart,
            SubType::Dns => typ == Type::Application,
            SubType::DnsJson => typ == Type::Application,
            SubType::DnsMessage => typ == Type::Application,
            SubType::Encrypted => typ == Type::Multipart,
            SubType::Epub => typ == Type::Application,
            SubType::Example => typ == Type::Application || typ == Type::Audio || typ == Type::Image || typ == Type::Message || typ == Type::Multipart,
            SubType::Flac => typ == Type::Audio,
            SubType::FormData => typ == Type::Multipart,
            SubType::Gif => typ == Type::Image,
            SubType::Global => typ == Type::Message,
            SubType::Gzip => typ == Type::Application,
            SubType::Html => typ == Type::Text,
            SubType::Http => typ == Type::Message,
            SubType::Icon => typ == Type::Image,
            SubType::Javascript => typ == Type::Text,
            SubType::Jpeg => typ == Type::Image || typ == Type::Video,
            SubType::Json => typ == Type::Application,
            SubType::Jsonld => typ == Type::Application,
            SubType::Markdown => typ == Type::Text,
            SubType::Mathml => typ == Type::Text,
            SubType::Midi => typ == Type::Audio,
            SubType::Mp4 => typ == Type::Application || typ == Type::Audio || typ == Type::Video,
            SubType::Mpa => typ == Type::Audio,
            SubType::Mpeg => typ == Type::Audio || typ == Type::Video,
            SubType::Msword => typ == Type::Application,
            SubType::OctetStream => typ == Type::Application,
            SubType::Ogg => typ == Type::Application || typ == Type::Audio || typ == Type::Video,
            SubType::Opus => typ == Type::Audio,
            SubType::Otf => typ == Type::Font,
            SubType::Pdf => typ == Type::Application,
            SubType::Plain => typ == Type::Text,
            SubType::Png => typ == Type::Image,
            SubType::Raw => typ == Type::Image || typ == Type::Video,
            SubType::RichText => typ == Type::Text,
            SubType::Rss => typ == Type::Application,
            SubType::Rtf => typ == Type::Application || typ == Type::Text,
            SubType::Rtx => typ == Type::Application || typ == Type::Audio || typ == Type::Video || typ == Type::Text,
            SubType::Sgml => typ == Type::Text,
            SubType::Signed => typ == Type::Multipart,
            SubType::Sql => typ == Type::Application,
            SubType::Svg => typ == Type::Image,
            SubType::Tiff => typ == Type::Image,
            SubType::Troff => typ == Type::Text,
            SubType::Tsv => typ == Type::Text,
            SubType::Ttf => typ == Type::Font,
            SubType::UriList => typ == Type::Text,
            SubType::UrlEncoded => typ == Type::Application,
            SubType::Wasm => typ == Type::Application,
            SubType::Webm => typ == Type::Audio || typ == Type::Video,
            SubType::Webp => typ == Type::Image,
            SubType::Woff => typ == Type::Font,
            SubType::Woff2 => typ == Type::Font,
            SubType::Xhtml => typ == Type::Application,
            SubType::Xml => typ == Type::Application,
            SubType::Yaml => typ == Type::Application,
            SubType::Zip => typ == Type::Application,
        }
    }
}

/// What a full `type "/" subtype` string denotes. Without a `/` the
/// string denotes the invalid media type.
pub open spec fn mime_from_spec(s: Seq<char>) -> Mime {
    if first_index(s, '/') < s.len() {
        Mime {
            typ: type_from_spec(s.subrange(0, first_index(s, '/'))),
            sub: sub_from_spec(s.subrange(first_index(s, '/') + 1, s.len() as int)),
        }
    } else {
        Mime { typ: Type::Unknown, sub: SubType::Unknown }
    }
}

/// The canonical spelling of a media type.
pub open spec fn mime_str_spec(m: Mime) -> Seq<char> {
    type_name_spec(m.typ) + seq!['/'] + sub_name_spec(m.sub)
}

/// Validity: both components known and the subtype registered under the type.
pub open spec fn mime_valid_spec(m: Mime) -> bool {
    m.typ != Type::Unknown && m.sub != SubType::Unknown && valid_type_spec(m.sub, m.typ)
}

/// Wildcard matching of two media types: `Any` stands for every component on
/// either side; a `None` component never matches.
pub open spec fn mime_matches_spec(a: Mime, b: Mime) -> bool {
    a.typ != Type::Unknown && a.sub != SubType::Unknown && b.typ != Type::Unknown && b.sub != SubType::Unknown
        && comp_match_spec(a.typ, b.typ) && sub_match_spec(a.sub, b.sub)
}

pub open spec fn comp_match_spec(a: Type, b: Type) -> bool {
    a == Type::Any || b == Type::Any || a == b
}

pub open spec fn sub_match_spec(a: SubType, b: SubType) -> bool {
    a == SubType::Any || b == SubType::Any || a == b
}

impl Type {
    /// Parse a top-level type name.
    pub fn from(v: &str) -> (r: Type)
        ensures
            r == type_from_spec(v@),
    {
        let cs = chars_of(v);
        Type::from_chars(cs.as_slice())
    }

    /// Parse a top-level type name given as characters.
    pub fn from_chars(s: &[char]) -> (r: Type)
        ensures
            r == type_from_spec(s@),
    {
        if chars_eq_str(s, "*") {
            Type::Any
        } else if chars_eq_str(s, "application") {
            Type::Application
        } else if chars_eq_str(s, "audio") {
            Type::Audio
        } else if chars_eq_str(s, "font") {
            Type::Font
        } else if chars_eq_str(s, "image") {
            Type::Image
        } else if chars_eq_str(s, "multipart") {
            Type::Multipart
        } else if chars_eq_str(s, "text") {
            Type::Text
        } else if chars_eq_str(s, "video") {
            Type::Video
        } else {
            Type::Unknown
        }
    }

    /// Whether this is the unknown type.
    pub fn is_none(self) -> (r: bool)
        ensures
            r == (self == Type::Unknown),
    {
        matches!(self, Type::Unknown)
    }

    /// The canonical spelling of this type.
    pub fn to_str(self) -> (r: &'static str)
        ensures
            r@ == type_name_spec(self),
    {
        proof {
            reveal_strlit("");
        }
        match self {
            Type::Any => "*",
            Type::Application => "application",
            Type::Audio => "audio",
            Type::Font => "font",
            Type::Image => "image",
            Type::Multipart => "multipart",
            Type::Text => "text",
            Type::Video => "video",
            Type::Message => "message",
            Type::Unknown => "",
        }
    }
}

impl SubType {
    /// Parse a subtype name.
    pub fn from(v: &str) -> (r: SubType)
        ensures
            r == sub_from_spec(v@),
    {
        let cs = chars_of(v);
        SubType::parse_chars(cs.as_slice())
    }

    /// Parse a subtype name.
    pub fn parse(v: &str) -> (r: SubType)
        ensures
            r == sub_from_spec(v@),
    {
        SubType::from(v)
    }

    /// Parse a subtype name given as characters.
    pub fn parse_chars(s: &[char]) -> (r: SubType)
        ensures
            r == sub_from_spec(s@),
    {
        if chars_eq_str(s, "ac3") {
            SubType::Ac3
        } else if chars_eq_str(s, "acc") {
            SubType::Acc
        } else if chars_eq_str(s, "aiff") {
            SubType::Aiff
        } else if chars_eq_str(s, "x-aiff") {
            SubType::Aiff
        } else if chars_eq_str(s, "atom+xml") {
            SubType::Atom
        } else if chars_eq_str(s, "avif") {
            SubType::Avif
        } else if chars_eq_str(s, "basic") {
            SubType::Basic
        } else if chars_eq_str(s, "bmp") {
            SubType::Bmp
        } else if chars_eq_str(s, "bytesrange") {
            SubType::BytesRange
        } else if chars_eq_str(s, "x-bzip") {
            SubType::Bzip
        } else if chars_eq_str(s, "x-bzip2") {
            SubType::Bzip2
        } else if chars_eq_str(s, "calendar") {
            SubType::Calendar
        } else if chars_eq_str(s, "css") {
            SubType::Css
        } else if chars_eq_str(s, "csv") {
            SubType::Csv
        } else if chars_eq_str(s, "digest") {
            SubType::Digest
        } else if chars_eq_str(s, "dns") {
            SubType::Dns
        } else if chars_eq_str(s, "dns+json") {
            SubType::DnsJson
        } else if chars_eq_str(s, "dns+message") {
            SubType::DnsMessage
        } else if chars_eq_str(s, "encrypted") {
            SubType::Encrypted
        } else if chars_eq_str(s, "epub+zip") {
            SubType::Epub
        } else if chars_eq_str(s, "example") {
            SubType::Example
        } else if chars_eq_str(s, "flac") {
            SubType::Flac
        } else if chars_eq_str(s, "form-data") {
            SubType::FormData
        } else if chars_eq_str(s, "gif") {
            SubType::Gif
        } else if chars_eq_str(s, "global") {
            SubType::Global
        } else if chars_eq_str(s, "gzip") {
            SubType::Gzip
        } else if chars_eq_str(s, "x-gzip") {
            SubType::Gzip
        } else if chars_eq_str(s, "html") {
            SubType::Html
        } else if chars_eq_str(s, "http") {
            SubType::Http
        } else if chars_eq_str(s, "x-icon") {
            SubType::Icon
        } else if chars_eq_str(s, "javascript") {
            SubType::Javascript
        } else if chars_eq_str(s, "ecmascript") {
            SubType::Javascript
        } else if chars_eq_str(s, "jpeg") {
            SubType::Jpeg
        } else if chars_eq_str(s, "json") {
            SubType::Json
        } else if chars_eq_str(s, "ld+json") {
            SubType::Jsonld
        } else if chars_eq_str(s, "markdown") {
            SubType::Markdown
        } else if chars_eq_str(s, "x-markdown") {
            SubType::Markdown
        } else if chars_eq_str(s, "mathml") {
            SubType::Mathml
        } else if chars_eq_str(s, "midi") {
            SubType::Midi
        } else if chars_eq_str(s, "mp4") {
            SubType::Mp4
        } else if chars_eq_str(s, "mpa") {
            SubType::Mpa
        } else if chars_eq_str(s, "mpeg") {
            SubType::Mpeg
        } else if chars_eq_str(s, "msword") {
            SubType::Msword
        } else if chars_eq_str(s, "octet-stream") {
            SubType::OctetStream
        } else if chars_eq_str(s, "ogg") {
            SubType::Ogg
        } else if chars_eq_str(s, "opus") {
            SubType::Opus
        } else if chars_eq_str(s, "otf") {
            SubType::Otf
        } else if chars_eq_str(s, "x-font-otf") {
            SubType::Otf
        } else if chars_eq_str(s, "pdf") {
            SubType::Pdf
        } else if chars_eq_str(s, "plain") {
            SubType::Plain
        } else if chars_eq_str(s, "png") {
            SubType::Png
        } else if chars_eq_str(s, "richtext") {
            SubType::RichText
        } else if chars_eq_str(s, "rss+xml") {
            SubType::Rss
        } else if chars_eq_str(s, "rtf") {
            SubType::Rtf
        } else if chars_eq_str(s, "rtx") {
            SubType::Rtx
        } else if chars_eq_str(s, "sgml") {
            SubType::Sgml
        } else if chars_eq_str(s, "signed") {
            SubType::Signed
        } else if chars_eq_str(s, "sql") {
            SubType::Sql
        } else if chars_eq_str(s, "svg") {
            SubType::Svg
        } else if chars_eq_str(s, "svg+xml") {
            SubType::Svg
        } else if chars_eq_str(s, "tiff") {
            SubType::Tiff
        } else if chars_eq_str(s, "troff") {
            SubType::Troff
        } else if chars_eq_str(s, "tab-separated-values") {
            SubType::Tsv
        } else if chars_eq_str(s, "ttf") {
            SubType::Ttf
        } else if chars_eq_str(s, "x-font-ttf") {
            SubType::Ttf
        } else if chars_eq_str(s, "uri-list") {
            SubType::UriList
        } else if chars_eq_str(s, "x-www-form-urlencoded") {
            SubType::UrlEncoded
        } else if chars_eq_str(s, "wasm") {
            SubType::Wasm
        } else if chars_eq_str(s, "webm") {
            SubType::Webm
        } else if chars_eq_str(s, "webp") {
            SubType::Webp
        } else if chars_eq_str(s, "woff") {
            SubType::Woff
        } else if chars_eq_str(s, "woff2") {
            SubType::Woff2
        } else if chars_eq_str(s, "xhtml+xml") {
            SubType::Xhtml
        } else if chars_eq_str(s, "xml") {
            SubType::Xml
        } else if chars_eq_str(s, "yaml") {
            SubType::Yaml
        } else if chars_eq_str(s, "yml") {
            SubType::Yaml
        } else if chars_eq_str(s, "zip") {
            SubType::Zip
        } else if chars_eq_str(s, "zip-compressed") {
            SubType::Zip
        } else if chars_eq_str(s, "x-zip-compressed") {
            SubType::Zip
        } else if chars_eq_str(s, "*") {
            SubType::Any
        } else {
            SubType::Unknown
        }
    }

    /// Whether this subtype is registered under the given top-level type.
    pub fn valid_type(&self, typ: Type) -> (r: bool)
        ensures
            r == valid_type_spec(*self, typ),
    {
        if matches!(typ, Type::Any) {
            return true;
        }
        match self {
            SubType::Unknown => false,
            SubType::Any => !typ.is_none(),
            SubType::Ac3 => matches!(typ, Type::Audio),
            SubType::Acc => matches!(typ, Type::Audio),
            SubType::Aiff => matches!(typ, Type::Audio),
            SubType::Atom => matches!(typ, Type::Application),
            SubType::Avif => matches!(typ, Type::Image),
            SubType::Basic => matches!(typ, Type::Audio),
            SubType::Bmp => matches!(typ, Type::Image),
            SubType::BytesRange => matches!(typ, Type::Multipart),
            SubType::Bzip => matches!(typ, Type::Application),
            SubType::Bzip2 => matches!(typ, Type::Application),
            SubType::Calendar => matches!(typ, Type::Text),
            SubType::Css => matches!(typ, Type::Text),
            SubType::Csv => matches!(typ, Type::Text),
            SubType::Digest => matches!(typ, Type::Multipart),
            SubType::Dns => matches!(typ, Type::Application),
            SubType::DnsJson => matches!(typ, Type::Application),
            SubType::DnsMessage => matches!(typ, Type::Application),
            SubType::Encrypted => matches!(typ, Type::Multipart),
            SubType::Epub => matches!(typ, Type::Application),
            SubType::Example => matches!(typ, Type::Application) || matches!(typ, Type::Audio) || matches!(typ, Type::Image) || matches!(typ, Type::Message) || matches!(typ, Type::Multipart),
            SubType::Flac => matches!(typ, Type::Audio),
            SubType::FormData => matches!(typ, Type::Multipart),
            SubType::Gif => matches!(typ, Type::Image),
            SubType::Global => matches!(typ, Type::Message),
            SubType::Gzip => matches!(typ, Type::Application),
            SubType::Html => matches!(typ, Type::Text),
            SubType::Http => matches!(typ, Type::Message),
            SubType::Icon => matches!(typ, Type::Image),
            SubType::Javascript => matches!(typ, Type::Text),
            SubType::Jpeg => matches!(typ, Type::Image) || matches!(typ, Type::Video),
            SubType::Json => matches!(typ, Type::Application),
            SubType::Jsonld => matches!(typ, Type::Application),
            SubType::Markdown => matches!(typ, Type::Text),
            SubType::Mathml => matches!(typ, Type::Text),
            SubType::Midi => matches!(typ, Type::Audio),
            SubType::Mp4 => matches!(typ, Type::Application) || matches!(typ, Type::Audio) || matches!(typ, Type::Video),
            SubType::Mpa => matches!(typ, Type::Audio),
            SubType::Mpeg => matches!(typ, Type::Audio) || matches!(typ, Type::Video),
            SubType::Msword => matches!(typ, Type::Application),
            SubType::OctetStream => matches!(typ, Type::Application),
            SubType::Ogg => matches!(typ, Type::Application) || matches!(typ, Type::Audio) || matches!(typ, Type::Video),
            SubType::Opus => matches!(typ, Type::Audio),
            SubType::Otf => matches!(typ, Type::Font),
            SubType::Pdf => matches!(typ, Type::Application),
            SubType::Plain => matches!(typ, Type::Text),
            SubType::Png => matches!(typ, Type::Image),
            SubType::Raw => matches!(typ, Type::Image) || matches!(typ, Type::Video),
            SubType::RichText => matches!(typ, Type::Text),
            SubType::Rss => matches!(typ, Type::Application),
            SubType::Rtf => matches!(typ, Type::Application) || matches!(typ, Type::Text),
            SubType::Rtx => matches!(typ, Type::Application) || matches!(typ, Type::Audio) || matches!(typ, Type::Video) || matches!(typ, Type::Text),
            SubType::Sgml => matches!(typ, Type::Text),
            SubType::Signed => matches!(typ, Type::Multipart),
            SubType::Sql => matches!(typ, Type::Application),
            SubType::Svg => matches!(typ, Type::Image),
            SubType::Tiff => matches!(typ, Type::Image),
            SubType::Troff => matches!(typ, Type::Text),
            SubType::Tsv => matches!(typ, Type::Text),
            SubType::Ttf => matches!(typ, Type::Font),
            SubType::UriList => matches!(typ, Type::Text),
            SubType::UrlEncoded => matches!(typ, Type::Application),
            SubType::Wasm => matches!(typ, Type::Application),
            SubType::Webm => matches!(typ, Type::Audio) || matches!(typ, Type::Video),
            SubType::Webp => matches!(typ, Type::Image),
            SubType::Woff => matches!(typ, Type::Font),
            SubType::Woff2 => matches!(typ, Type::Font),
            SubType::Xhtml => matches!(typ, Type::Application),
            SubType::Xml => matches!(typ, Type::Application),
            SubType::Yaml => matches!(typ, Type::Application),
            SubType::Zip => matches!(typ, Type::Application),
        }
    }

    /// Whether this subtype may stand under `audio`.
    pub fn can_audio(&self) -> (r: bool)
        ensures
            r == valid_type_spec(*self, Type::Audio),
    {
        self.valid_type(Type::Audio)
    }

    /// Whether this subtype may stand under `video`.
    pub fn can_video(&self) -> (r: bool)
        ensures
            r == valid_type_spec(*self, Type::Video),
    {
        self.valid_type(Type::Video)
    }

    /// Whether this subtype may stand under `image`.
    pub fn can_image(&self) -> (r: bool)
        ensures
            r == valid_type_spec(*self, Type::Image),
    {
        self.valid_type(Type::Image)
    }

    /// Whether this subtype may stand under `font`.
    pub fn can_font(&self) -> (r: bool)
        ensures
            r == valid_type_spec(*self, Type::Font),
    {
        self.valid_type(Type::Font)
    }

    /// Whether this subtype may stand under `text`.
    pub fn can_text(&self) -> (r: bool)
        ensures
            r == valid_type_spec(*self, Type::Text),
    {
        self.valid_type(Type::Text)
    }

    /// Whether this subtype names a compressed container.
    pub fn compressed(&self) -> (r: bool)
        ensures
            r == (*self == SubType::Gzip || *self == SubType::Zip || *self == SubType::Bzip
                || *self == SubType::Bzip2),
    {
        matches!(self, SubType::Gzip | SubType::Zip | SubType::Bzip | SubType::Bzip2)
    }

    /// The canonical spelling of this subtype.
    pub fn to_str(self) -> (r: &'static str)
        ensures
            r@ == sub_name_spec(self),
    {
        proof {
            reveal_strlit("");
        }
        match self {
            SubType::Ac3 => "ac3",
            SubType::Acc => "acc",
            SubType::Aiff => "aiff",
            SubType::Atom => "atom+xml",
            SubType::Avif => "avif",
            SubType::Basic => "basic",
            SubType::Bmp => "bmp",
            SubType::BytesRange => "bytesrange",
            SubType::Bzip => "x-bzip",
            SubType::Bzip2 => "x-bzip2",
            SubType::Calendar => "calendar",
            SubType::Css => "css",
            SubType::Csv => "csv",
            SubType::Digest => "digest",
            SubType::Dns => "dns",
            SubType::DnsJson => "dns+json",
            SubType::DnsMessage => "dns+message",
            SubType::Encrypted => "encrypted",
            SubType::Epub => "epub+zip",
            SubType::Example => "example",
            SubType::Flac => "flac",
            SubType::FormData => "form-data",
            SubType::Gif => "gif",
            SubType::Global => "global",
            SubType::Gzip => "gzip",
            SubType::Html => "html",
            SubType::Http => "http",
            SubType::Icon => "x-icon",
            SubType::Javascript => "javascript",
            SubType::Jpeg => "jpeg",
            SubType::Json => "json",
            SubType::Jsonld => "ld+json",
            SubType::Markdown => "markdown",
            SubType::Mathml => "mathml",
            SubType::Midi => "midi",
            SubType::Mp4 => "mp4",
            SubType::Mpa => "mpa",
            SubType::Mpeg => "mpeg",
            SubType::Msword => "msword",
            SubType::OctetStream => "octet-stream",
            SubType::Ogg => "ogg",
            SubType::Opus => "opus",
            SubType::Otf => "otf",
            SubType::Pdf => "pdf",
            SubType::Plain => "plain",
            SubType::Png => "png",
            SubType::Raw => "raw",
            SubType::RichText => "richtext",
            SubType::Rss => "rss+xml",
            SubType::Rtf => "rtf",
            SubType::Rtx => "rtx",
            SubType::Sgml => "sgml",
            SubType::Signed => "signed",
            SubType::Sql => "sql",
            SubType::Svg => "svg",
            SubType::Tiff => "tiff",
            SubType::Troff => "troff",
            SubType::Tsv => "tab-separated-values",
            SubType::Ttf => "ttf",
            SubType::UriList => "uri-list",
            SubType::UrlEncoded => "x-www-form-urlencoded",
            SubType::Wasm => "wasm",
            SubType::Webm => "webm",
            SubType::Webp => "webp",
            SubType::Woff => "woff",
            SubType::Woff2 => "woff2",
            SubType::Xhtml => "xhtml+xml",
            SubType::Xml => "xml",
            SubType::Yaml => "yaml",
            SubType::Zip => "zip",
            SubType::Any => "*",
            SubType::Unknown => "",
        }
    }
}

impl Mime {
    /// Parse a `type "/" subtype` string; a string without `/` gives the
    /// invalid media type.
    pub fn from(v: &str) -> (r: Mime)
        ensures
            r == mime_from_spec(v@),
    {
        let cs = chars_of(v);
        Mime::from_chars(cs.as_slice())
    }

    /// Parse a media type given as characters.
    pub fn from_chars(s: &[char]) -> (r: Mime)
        ensures
            r == mime_from_spec(s@),
    {
        let slash = find_char(s, 0, '/');
        proof {
            lemma_first_index(s@, '/');
            if slash < s@.len() {
                crate::strutil::lemma_first_index_unique(s@, '/', slash as int);
            } else {
                crate::strutil::lemma_first_index_unique(s@, '/', s@.len() as int);
            }
        }
        if slash == s.len() {
            Mime { typ: Type::Unknown, sub: SubType::Unknown }
        } else {
            let mut t: Vec<char> = Vec::new();
            let mut i: usize = 0;
            while i < slash
                invariant
                    i <= slash <= s@.len(),
                    t@ == s@.subrange(0, i as int),
                decreases slash - i,
            {
                t.push(s[i]);
                i = i + 1;
                proof {
                    assert(t@ =~= s@.subrange(0, i as int));
                }
            }
            let mut u: Vec<char> = Vec::new();
            let mut j: usize = slash + 1;
            while j < s.len()
                invariant
                    slash + 1 <= j <= s@.len(),
                    u@ == s@.subrange(slash + 1, j as int),
                decreases s@.len() - j,
            {
                u.push(s[j]);
                j = j + 1;
                proof {
                    assert(u@ =~= s@.subrange(slash + 1, j as int));
                }
            }
            Mime { typ: Type::from_chars(t.as_slice()), sub: SubType::parse_chars(u.as_slice()) }
        }
    }

    /// The invalid media type.
    pub fn invalid() -> (r: Mime)
        ensures
            r == (Mime { typ: Type::Unknown, sub: SubType::Unknown }),
    {
        Mime { typ: Type::Unknown, sub: SubType::Unknown }
    }

    /// The full wildcard `*/*`.
    pub fn any() -> (r: Mime)
        ensures
            r == (Mime { typ: Type::Any, sub: SubType::Any }),
    {
        Mime { typ: Type::Any, sub: SubType::Any }
    }

    /// Whether both components are known and registered together.
    pub fn valid(&self) -> (r: bool)
        ensures
            r == mime_valid_spec(*self),
    {
        if matches!(self.typ, Type::Unknown) || matches!(self.sub, SubType::Unknown) {
            false
        } else {
            self.sub.valid_type(self.typ)
        }
    }

    /// Whether this media type matches the one denoted by `text`.
    pub fn matches_str(&self, text: &str) -> (r: bool)
        ensures
            r == mime_matches_spec(*self, mime_from_spec(text@)),
    {
        let other = Mime::from(text);
        self.matches(&other)
    }

    /// Whether this media type matches `other`, wildcards on either side.
    pub fn matches(&self, other: &Mime) -> (r: bool)
        ensures
            r == mime_matches_spec(*self, *other),
    {
        self.matches_pair(other.typ, other.sub)
    }

    /// Whether this media type matches the pair `(typ, sub)`.
    pub fn matches_pair(&self, typ: Type, sub: SubType) -> (r: bool)
        ensures
            r == mime_matches_spec(*self, (Mime { typ, sub })),
    {
        if matches!(self.typ, Type::Unknown) || matches!(self.sub, SubType::Unknown)
            || matches!(typ, Type::Unknown) || matches!(sub, SubType::Unknown) {
            return false;
        }
        let t_ok = matches!(self.typ, Type::Any) || matches!(typ, Type::Any) || self.typ == typ;
        let s_ok = matches!(self.sub, SubType::Any) || matches!(sub, SubType::Any) || self.sub
            == sub;
        t_ok && s_ok
    }

    /// The canonical spelling `type "/" subtype` of this media type.
    pub fn to_str(&self) -> (r: String)
        ensures
            r@ == mime_str_spec(*self),
    {
        let mut cs = chars_of(self.typ.to_str());
        cs.push('/');
        let rest = chars_of(self.sub.to_str());
        let mut k: usize = 0;
        while k < rest.len()
            invariant
                k <= rest@.len(),
                cs@ == type_name_spec(self.typ) + seq!['/'] + rest@.subrange(0, k as int),
            decreases rest@.len() - k,
        {
            cs.push(rest[k]);
            k = k + 1;
            proof {
                assert(cs@ =~= type_name_spec(self.typ) + seq!['/'] + rest@.subrange(0, k as int));
            }
        }
        proof {
            assert(cs@ =~= mime_str_spec(*self));
        }
        string_of(cs.as_slice())
    }
}

impl Default for Mime {
    /// The invalid media type: both components unknown.
    fn default() -> (r: Mime)
        ensures
            r == (Mime { typ: Type::Unknown, sub: SubType::Unknown }),
    {
        Mime { typ: Type::Unknown, sub: SubType::Unknown }
    }
}





/// A valid media type matches itself.
pub proof fn lemma_self_match(m: Mime)
    requires
        mime_valid_spec(m),
    ensures
        mime_matches_spec(m, m),
{
}

/// Type parsing never yields `Message`: that name has no header spelling.
pub proof fn lemma_type_from_range(s: Seq<char>)
    ensures
        type_from_spec(s) != Type::Message,
{
}

/// Subtype parsing never yields `Raw`: that name has no header spelling.
pub proof fn lemma_sub_from_range(s: Seq<char>)
    ensures
        sub_from_spec(s) != SubType::Raw,
{
}

/// The concrete characters of every canonical type spelling.
proof fn lemma_type_literal_values()
    ensures
        "*"@ == seq!['*'],
        "application"@ == seq!['a', 'p', 'p', 'l', 'i', 'c', 'a', 't', 'i', 'o', 'n'],
        "audio"@ == seq!['a', 'u', 'd', 'i', 'o'],
        "font"@ == seq!['f', 'o', 'n', 't'],
        "image"@ == seq!['i', 'm', 'a', 'g', 'e'],
        "multipart"@ == seq!['m', 'u', 'l', 't', 'i', 'p', 'a', 'r', 't'],
        "text"@ == seq!['t', 'e', 'x', 't'],
        "video"@ == seq!['v', 'i', 'd', 'e', 'o'],
        "message"@ == seq!['m', 'e', 's', 's', 'a', 'g', 'e'],
{
    reveal_strlit("*");
    reveal_strlit("application");
    reveal_strlit("audio");
    reveal_strlit("font");
    reveal_strlit("image");
    reveal_strlit("multipart");
    reveal_strlit("text");
    reveal_strlit("video");
    reveal_strlit("message");
}

#[verifier::spinoff_prover]
proof fn lemma_sub_literal_values_part1()
    ensures
        "ac3"@.len() == 3,
        "ac3"@[0] == 'a',
        "ac3"@[1] == 'c',
        "ac3"@[2] == '3',
        "acc"@.len() == 3,
        "acc"@[0] == 'a',
        "acc"@[1] == 'c',
        "acc"@[2] == 'c',
        "aiff"@.len() == 4,
        "aiff"@[0] == 'a',
        "aiff"@[1] == 'i',
        "aiff"@[2] == 'f',
        "aiff"@[3] == 'f',
        "x-aiff"@.len() == 6,
        "x-aiff"@[0] == 'x',
        "x-aiff"@[1] == '-',
        "x-aiff"@[2] == 'a',
        "x-aiff"@[3] == 'i',
        "x-aiff"@[4] == 'f',
        "x-aiff"@[5] == 'f',
        "atom+xml"@.len() == 8,
        "atom+xml"@[0] == 'a',
        "atom+xml"@[1] == 't',
        "atom+xml"@[2] == 'o',
        "atom+xml"@[3] == 'm',
        "atom+xml"@[4] == '+',
        "atom+xml"@[5] == 'x',
        "atom+xml"@[6] == 'm',
        "atom+xml"@[7] == 'l',
        "avif"@.len() == 4,
        "avif"@[0] == 'a',
        "avif"@[1] == 'v',
        "avif"@[2] == 'i',
        "avif"@[3] == 'f',
        "basic"@.len() == 5,
        "basic"@[0] == 'b',
        "basic"@[1] == 'a',
        "basic"@[2] == 's',
        "basic"@[3] == 'i',
        "basic"@[4] == 'c',
        "bmp"@.len() == 3,
        "bmp"@[0] == 'b',
        "bmp"@[1] == 'm',
        "bmp"@[2] == 'p',
        "bytesrange"@.len() == 10,
        "bytesrange"@[0] == 'b',
        "bytesrange"@[1] == 'y',
        "bytesrange"@[2] == 't',
        "bytesrange"@[3] == 'e',
        "bytesrange"@[4] == 's',
        "bytesrange"@[5] == 'r',
        "bytesrange"@[6] == 'a',
        "bytesrange"@[7] == 'n',
        "bytesrange"@[8] == 'g',
        "bytesrange"@[9] == 'e',
        "x-bzip"@.len() == 6,
        "x-bzip"@[0] == 'x',
        "x-bzip"@[1] == '-',
        "x-bzip"@[2] == 'b',
        "x-bzip"@[3] == 'z',
        "x-bzip"@[4] == 'i',
        "x-bzip"@[5] == 'p',
        "x-bzip2"@.len() == 7,
        "x-bzip2"@[0] == 'x',
        "x-bzip2"@[1] == '-',
        "x-bzip2"@[2] == 'b',
        "x-bzip2"@[3] == 'z',
        "x-bzip2"@[4] == 'i',
        "x-bzip2"@[5] == 'p',
        "x-bzip2"@[6] == '2',
        "calendar"@.len() == 8,
        "calendar"@[0] == 'c',
        "calendar"@[1] == 'a',
        "calendar"@[2] == 'l',
        "calendar"@[3] == 'e',
        "calendar"@[4] == 'n',
        "calendar"@[5] == 'd',
        "calendar"@[6] == 'a',
        "calendar"@[7] == 'r',
        "css"@.len() == 3,
        "css"@[0] == 'c',
        "css"@[1] == 's',
        "css"@[2] == 's',
        "csv"@.len() == 3,
        "csv"@[0] == 'c',
        "csv"@[1] == 's',
        "csv"@[2] == 'v',
{
    reveal_strlit("ac3");
    reveal_strlit("acc");
    reveal_strlit("aiff");
    reveal_strlit("x-aiff");
    reveal_strlit("atom+xml");
    reveal_strlit("avif");
    reveal_strlit("basic");
    reveal_strlit("bmp");
    reveal_strlit("bytesrange");
    reveal_strlit("x-bzip");
    reveal_strlit("x-bzip2");
    reveal_strlit("calendar");
    reveal_strlit("css");
    reveal_strlit("csv");
}

#[verifier::spinoff_prover]
proof fn lemma_sub_literal_values_part2()
    ensures
        "digest"@.len() == 6,
        "digest"@[0] == 'd',
        "digest"@[1] == 'i',
        "digest"@[2] == 'g',
        "digest"@[3] == 'e',
        "digest"@[4] == 's',
        "digest"@[5] == 't',
        "dns"@.len() == 3,
        "dns"@[0] == 'd',
        "dns"@[1] == 'n',
        "dns"@[2] == 's',
        "dns+json"@.len() == 8,
        "dns+json"@[0] == 'd',
        "dns+json"@[1] == 'n',
        "dns+json"@[2] == 's',
        "dns+json"@[3] == '+',
        "dns+json"@[4] == 'j',
        "dns+json"@[5] == 's',
        "dns+json"@[6] == 'o',
        "dns+json"@[7] == 'n',
        "dns+message"@.len() == 11,
        "dns+message"@[0] == 'd',
        "dns+message"@[1] == 'n',
        "dns+message"@[2] == 's',
        "dns+message"@[3] == '+',
        "dns+message"@[4] == 'm',
        "dns+message"@[5] == 'e',
        "dns+message"@[6] == 's',
        "dns+message"@[7] == 's',
        "dns+message"@[8] == 'a',
        "dns+message"@[9] == 'g',
        "dns+message"@[10] == 'e',
        "encrypted"@.len() == 9,
        "encrypted"@[0] == 'e',
        "encrypted"@[1] == 'n',
        "encrypted"@[2] == 'c',
        "encrypted"@[3] == 'r',
        "encrypted"@[4] == 'y',
        "encrypted"@[5] == 'p',
        "encrypted"@[6] == 't',
        "encrypted"@[7] == 'e',
        "encrypted"@[8] == 'd',
        "epub+zip"@.len() == 8,
        "epub+zip"@[0] == 'e',
        "epub+zip"@[1] == 'p',
        "epub+zip"@[2] == 'u',
        "epub+zip"@[3] == 'b',
        "epub+zip"@[4] == '+',
        "epub+zip"@[5] == 'z',
        "epub+zip"@[6] == 'i',
        "epub+zip"@[7] == 'p',
        "example"@.len() == 7,
        "example"@[0] == 'e',
        "example"@[1] == 'x',
        "example"@[2] == 'a',
        "example"@[3] == 'm',
        "example"@[4] == 'p',
        "example"@[5] == 'l',
        "example"@[6] == 'e',
        "flac"@.len() == 4,
        "flac"@[0] == 'f',
        "flac"@[1] == 'l',
        "flac"@[2] == 'a',
        "flac"@[3] == 'c',
        "form-data"@.len() == 9,
        "form-data"@[0] == 'f',
        "form-data"@[1] == 'o',
        "form-data"@[2] == 'r',
        "form-data"@[3] == 'm',
        "form-data"@[4] == '-',
        "form-data"@[5] == 'd',
        "form-data"@[6] == 'a',
        "form-data"@[7] == 't',
        "form-data"@[8] == 'a',
        "gif"@.len() == 3,
        "gif"@[0] == 'g',
        "gif"@[1] == 'i',
        "gif"@[2] == 'f',
        "global"@.len() == 6,
        "global"@[0] == 'g',
        "global"@[1] == 'l',
        "global"@[2] == 'o',
        "global"@[3] == 'b',
        "global"@[4] == 'a',
        "global"@[5] == 'l',
        "gzip"@.len() == 4,
        "gzip"@[0] == 'g',
        "gzip"@[1] == 'z',
        "gzip"@[2] == 'i',
        "gzip"@[3] == 'p',
        "x-gzip"@.len() == 6,
        "x-gzip"@[0] == 'x',
        "x-gzip"@[1] == '-',
        "x-gzip"@[2] == 'g',
        "x-gzip"@[3] == 'z',
        "x-gzip"@[4] == 'i',
        "x-gzip"@[5] == 'p',
        "html"@.len() == 4,
        "html"@[0] == 'h',
        "html"@[1] == 't',
        "html"@[2] == 'm',
        "html"@[3] == 'l',
{
    reveal_strlit("digest");
    reveal_strlit("dns");
    reveal_strlit("dns+json");
    reveal_strlit("dns+message");
    reveal_strlit("encrypted");
    reveal_strlit("epub+zip");
    reveal_strlit("example");
    reveal_strlit("flac");
    reveal_strlit("form-data");
    reveal_strlit("gif");
    reveal_strlit("global");
    reveal_strlit("gzip");
    reveal_strlit("x-gzip");
    reveal_strlit("html");
}

#[verifier::spinoff_prover]
proof fn lemma_sub_literal_values_part3()
    ensures
        "http"@.len() == 4,
        "http"@[0] == 'h',
        "http"@[1] == 't',
        "http"@[2] == 't',
        "http"@[3] == 'p',
        "x-icon"@.len() == 6,
        "x-icon"@[0] == 'x',
        "x-icon"@[1] == '-',
        "x-icon"@[2] == 'i',
        "x-icon"@[3] == 'c',
        "x-icon"@[4] == 'o',
        "x-icon"@[5] == 'n',
        "javascript"@.len() == 10,
        "javascript"@[0] == 'j',
        "javascript"@[1] == 'a',
        "javascript"@[2] == 'v',
        "javascript"@[3] == 'a',
        "javascript"@[4] == 's',
        "javascript"@[5] == 'c',
        "javascript"@[6] == 'r',
        "javascript"@[7] == 'i',
        "javascript"@[8] == 'p',
        "javascript"@[9] == 't',
        "ecmascript"@.len() == 10,
        "ecmascript"@[0] == 'e',
        "ecmascript"@[1] == 'c',
        "ecmascript"@[2] == 'm',
        "ecmascript"@[3] == 'a',
        "ecmascript"@[4] == 's',
        "ecmascript"@[5] == 'c',
        "ecmascript"@[6] == 'r',
        "ecmascript"@[7] == 'i',
        "ecmascript"@[8] == 'p',
        "ecmascript"@[9] == 't',
        "jpeg"@.len() == 4,
        "jpeg"@[0] == 'j',
        "jpeg"@[1] == 'p',
        "jpeg"@[2] == 'e',
        "jpeg"@[3] == 'g',
        "json"@.len() == 4,
        "json"@[0] == 'j',
        "json"@[1] == 's',
        "json"@[2] == 'o',
        "json"@[3] == 'n',
        "ld+json"@.len() == 7,
        "ld+json"@[0] == 'l',
        "ld+json"@[1] == 'd',
        "ld+json"@[2] == '+',
        "ld+json"@[3] == 'j',
        "ld+json"@[4] == 's',
        "ld+json"@[5] == 'o',
        "ld+json"@[6] == 'n',
        "markdown"@.len() == 8,
        "markdown"@[0] == 'm',
        "markdown"@[1] == 'a',
        "markdown"@[2] == 'r',
        "markdown"@[3] == 'k',
        "markdown"@[4] == 'd',
        "markdown"@[5] == 'o',
        "markdown"@[6] == 'w',
        "markdown"@[7] == 'n',
        "x-markdown"@.len() == 10,
        "x-markdown"@[0] == 'x',
        "x-markdown"@[1] == '-',
        "x-markdown"@[2] == 'm',
        "x-markdown"@[3] == 'a',
        "x-markdown"@[4] == 'r',
        "x-markdown"@[5] == 'k',
        "x-markdown"@[6] == 'd',
        "x-markdown"@[7] == 'o',
        "x-markdown"@[8] == 'w',
        "x-markdown"@[9] == 'n',
        "mathml"@.len() == 6,
        "mathml"@[0] == 'm',
        "mathml"@[1] == 'a',
        "mathml"@[2] == 't',
        "mathml"@[3] == 'h',
        "mathml"@[4] == 'm',
        "mathml"@[5] == 'l',
        "midi"@.len() == 4,
        "midi"@[0] == 'm',
        "midi"@[1] == 'i',
        "midi"@[2] == 'd',
        "midi"@[3] == 'i',
        "mp4"@.len() == 3,
        "mp4"@[0] == 'm',
        "mp4"@[1] == 'p',
        "mp4"@[2] == '4',
        "mpa"@.len() == 3,
        "mpa"@[0] == 'm',
        "mpa"@[1] == 'p',
        "mpa"@[2] == 'a',
        "mpeg"@.len() == 4,
        "mpeg"@[0] == 'm',
        "mpeg"@[1] == 'p',
        "mpeg"@[2] == 'e',
        "mpeg"@[3] == 'g',
{
    reveal_strlit("http");
    reveal_strlit("x-icon");
    reveal_strlit("javascript");
    reveal_strlit("ecmascript");
    reveal_strlit("jpeg");
    reveal_strlit("json");
    reveal_strlit("ld+json");
    reveal_strlit("markdown");
    reveal_strlit("x-markdown");
    reveal_strlit("mathml");
    reveal_strlit("midi");
    reveal_strlit("mp4");
    reveal_strlit("mpa");
    reveal_strlit("mpeg");
}

#[verifier::spinoff_prover]
proof fn lemma_sub_literal_values_part4()
    ensures
        "msword"@.len() == 6,
        "msword"@[0] == 'm',
        "msword"@[1] == 's',
        "msword"@[2] == 'w',
        "msword"@[3] == 'o',
        "msword"@[4] == 'r',
        "msword"@[5] == 'd',
        "octet-stream"@.len() == 12,
        "octet-stream"@[0] == 'o',
        "octet-stream"@[1] == 'c',
        "octet-stream"@[2] == 't',
        "octet-stream"@[3] == 'e',
        "octet-stream"@[4] == 't',
        "octet-stream"@[5] == '-',
        "octet-stream"@[6] == 's',
        "octet-stream"@[7] == 't',
        "octet-stream"@[8] == 'r',
        "octet-stream"@[9] == 'e',
        "octet-stream"@[10] == 'a',
        "octet-stream"@[11] == 'm',
        "ogg"@.len() == 3,
        "ogg"@[0] == 'o',
        "ogg"@[1] == 'g',
        "ogg"@[2] == 'g',
        "opus"@.len() == 4,
        "opus"@[0] == 'o',
        "opus"@[1] == 'p',
        "opus"@[2] == 'u',
        "opus"@[3] == 's',
        "otf"@.len() == 3,
        "otf"@[0] == 'o',
        "otf"@[1] == 't',
        "otf"@[2] == 'f',
        "x-font-otf"@.len() == 10,
        "x-font-otf"@[0] == 'x',
        "x-font-otf"@[1] == '-',
        "x-font-otf"@[2] == 'f',
        "x-font-otf"@[3] == 'o',
        "x-font-otf"@[4] == 'n',
        "x-font-otf"@[5] == 't',
        "x-font-otf"@[6] == '-',
        "x-font-otf"@[7] == 'o',
        "x-font-otf"@[8] == 't',
        "x-font-otf"@[9] == 'f',
        "pdf"@.len() == 3,
        "pdf"@[0] == 'p',
        "pdf"@[1] == 'd',
        "pdf"@[2] == 'f',
        "plain"@.len() == 5,
        "plain"@[0] == 'p',
        "plain"@[1] == 'l',
        "plain"@[2] == 'a',
        "plain"@[3] == 'i',
        "plain"@[4] == 'n',
        "png"@.len() == 3,
        "png"@[0] == 'p',
        "png"@[1] == 'n',
        "png"@[2] == 'g',
        "richtext"@.len() == 8,
        "richtext"@[0] == 'r',
        "richtext"@[1] == 'i',
        "richtext"@[2] == 'c',
        "richtext"@[3] == 'h',
        "richtext"@[4] == 't',
        "richtext"@[5] == 'e',
        "richtext"@[6] == 'x',
        "richtext"@[7] == 't',
        "rss+xml"@.len() == 7,
        "rss+xml"@[0] == 'r',
        "rss+xml"@[1] == 's',
        "rss+xml"@[2] == 's',
        "rss+xml"@[3] == '+',
        "rss+xml"@[4] == 'x',
        "rss+xml"@[5] == 'm',
        "rss+xml"@[6] == 'l',
        "rtf"@.len() == 3,
        "rtf"@[0] == 'r',
        "rtf"@[1] == 't',
        "rtf"@[2] == 'f',
        "rtx"@.len() == 3,
        "rtx"@[0] == 'r',
        "rtx"@[1] == 't',
        "rtx"@[2] == 'x',
        "sgml"@.len() == 4,
        "sgml"@[0] == 's',
        "sgml"@[1] == 'g',
        "sgml"@[2] == 'm',
        "sgml"@[3] == 'l',
{
    reveal_strlit("msword");
    reveal_strlit("octet-stream");
    reveal_strlit("ogg");
    reveal_strlit("opus");
    reveal_strlit("otf");
    reveal_strlit("x-font-otf");
    reveal_strlit("pdf");
    reveal_strlit("plain");
    reveal_strlit("png");
    reveal_strlit("richtext");
    reveal_strlit("rss+xml");
    reveal_strlit("rtf");
    reveal_strlit("rtx");
    reveal_strlit("sgml");
}

#[verifier::spinoff_prover]
proof fn lemma_sub_literal_values_part5()
    ensures
        "signed"@.len() == 6,
        "signed"@[0] == 's',
        "signed"@[1] == 'i',
        "signed"@[2] == 'g',
        "signed"@[3] == 'n',
        "signed"@[4] == 'e',
        "signed"@[5] == 'd',
        "sql"@.len() == 3,
        "sql"@[0] == 's',
        "sql"@[1] == 'q',
        "sql"@[2] == 'l',
        "svg"@.len() == 3,
        "svg"@[0] == 's',
        "svg"@[1] == 'v',
        "svg"@[2] == 'g',
        "svg+xml"@.len() == 7,
        "svg+xml"@[0] == 's',
        "svg+xml"@[1] == 'v',
        "svg+xml"@[2] == 'g',
        "svg+xml"@[3] == '+',
        "svg+xml"@[4] == 'x',
        "svg+xml"@[5] == 'm',
        "svg+xml"@[6] == 'l',
        "tiff"@.len() == 4,
        "tiff"@[0] == 't',
        "tiff"@[1] == 'i',
        "tiff"@[2] == 'f',
        "tiff"@[3] == 'f',
        "troff"@.len() == 5,
        "troff"@[0] == 't',
        "troff"@[1] == 'r',
        "troff"@[2] == 'o',
        "troff"@[3] == 'f',
        "troff"@[4] == 'f',
        "tab-separated-values"@.len() == 20,
        "tab-separated-values"@[0] == 't',
        "tab-separated-values"@[1] == 'a',
        "tab-separated-values"@[2] == 'b',
        "tab-separated-values"@[3] == '-',
        "tab-separated-values"@[4] == 's',
        "tab-separated-values"@[5] == 'e',
        "tab-separated-values"@[6] == 'p',
        "tab-separated-values"@[7] == 'a',
        "tab-separated-values"@[8] == 'r',
        "tab-separated-values"@[9] == 'a',
        "tab-separated-values"@[10] == 't',
        "tab-separated-values"@[11] == 'e',
        "tab-separated-values"@[12] == 'd',
        "tab-separated-values"@[13] == '-',
        "tab-separated-values"@[14] == 'v',
        "tab-separated-values"@[15] == 'a',
        "tab-separated-values"@[16] == 'l',
        "tab-separated-values"@[17] == 'u',
        "tab-separated-values"@[18] == 'e',
        "tab-separated-values"@[19] == 's',
        "ttf"@.len() == 3,
        "ttf"@[0] == 't',
        "ttf"@[1] == 't',
        "ttf"@[2] == 'f',
        "x-font-ttf"@.len() == 10,
        "x-font-ttf"@[0] == 'x',
        "x-font-ttf"@[1] == '-',
        "x-font-ttf"@[2] == 'f',
        "x-font-ttf"@[3] == 'o',
        "x-font-ttf"@[4] == 'n',
        "x-font-ttf"@[5] == 't',
        "x-font-ttf"@[6] == '-',
        "x-font-ttf"@[7] == 't',
        "x-font-ttf"@[8] == 't',
        "x-font-ttf"@[9] == 'f',
        "uri-list"@.len() == 8,
        "uri-list"@[0] == 'u',
        "uri-list"@[1] == 'r',
        "uri-list"@[2] == 'i',
        "uri-list"@[3] == '-',
        "uri-list"@[4] == 'l',
        "uri-list"@[5] == 'i',
        "uri-list"@[6] == 's',
        "uri-list"@[7] == 't',
        "x-www-form-urlencoded"@.len() == 21,
        "x-www-form-urlencoded"@[0] == 'x',
        "x-www-form-urlencoded"@[1] == '-',
        "x-www-form-urlencoded"@[2] == 'w',
        "x-www-form-urlencoded"@[3] == 'w',
        "x-www-form-urlencoded"@[4] == 'w',
        "x-www-form-urlencoded"@[5] == '-',
        "x-www-form-urlencoded"@[6] == 'f',
        "x-www-form-urlencoded"@[7] == 'o',
        "x-www-form-urlencoded"@[8] == 'r',
        "x-www-form-urlencoded"@[9] == 'm',
        "x-www-form-urlencoded"@[10] == '-',
        "x-www-form-urlencoded"@[11] == 'u',
        "x-www-form-urlencoded"@[12] == 'r',
        "x-www-form-urlencoded"@[13] == 'l',
        "x-www-form-urlencoded"@[14] == 'e',
        "x-www-form-urlencoded"@[15] == 'n',
        "x-www-form-urlencoded"@[16] == 'c',
        "x-www-form-urlencoded"@[17] == 'o',
        "x-www-form-urlencoded"@[18] == 'd',
        "x-www-form-urlencoded"@[19] == 'e',
        "x-www-form-urlencoded"@[20] == 'd',
        "wasm"@.len() == 4,
        "wasm"@[0] == 'w',
        "wasm"@[1] == 'a',
        "wasm"@[2] == 's',
        "wasm"@[3] == 'm',
        "webm"@.len() == 4,
        "webm"@[0] == 'w',
        "webm"@[1] == 'e',
        "webm"@[2] == 'b',
        "webm"@[3] == 'm',
        "webp"@.len() == 4,
        "webp"@[0] == 'w',
        "webp"@[1] == 'e',
        "webp"@[2] == 'b',
        "webp"@[3] == 'p',
{
    reveal_strlit("signed");
    reveal_strlit("sql");
    reveal_strlit("svg");
    reveal_strlit("svg+xml");
    reveal_strlit("tiff");
    reveal_strlit("troff");
    reveal_strlit("tab-separated-values");
    reveal_strlit("ttf");
    reveal_strlit("x-font-ttf");
    reveal_strlit("uri-list");
    reveal_strlit("x-www-form-urlencoded");
    reveal_strlit("wasm");
    reveal_strlit("webm");
    reveal_strlit("webp");
}

#[verifier::spinoff_prover]
proof fn lemma_sub_literal_values_part6()
    ensures
        "woff"@.len() == 4,
        "woff"@[0] == 'w',
        "woff"@[1] == 'o',
        "woff"@[2] == 'f',
        "woff"@[3] == 'f',
        "woff2"@.len() == 5,
        "woff2"@[0] == 'w',
        "woff2"@[1] == 'o',
        "woff2"@[2] == 'f',
        "woff2"@[3] == 'f',
        "woff2"@[4] == '2',
        "xhtml+xml"@.len() == 9,
        "xhtml+xml"@[0] == 'x',
        "xhtml+xml"@[1] == 'h',
        "xhtml+xml"@[2] == 't',
        "xhtml+xml"@[3] == 'm',
        "xhtml+xml"@[4] == 'l',
        "xhtml+xml"@[5] == '+',
        "xhtml+xml"@[6] == 'x',
        "xhtml+xml"@[7] == 'm',
        "xhtml+xml"@[8] == 'l',
        "xml"@.len() == 3,
        "xml"@[0] == 'x',
        "xml"@[1] == 'm',
        "xml"@[2] == 'l',
        "yaml"@.len() == 4,
        "yaml"@[0] == 'y',
        "yaml"@[1] == 'a',
        "yaml"@[2] == 'm',
        "yaml"@[3] == 'l',
        "yml"@.len() == 3,
        "yml"@[0] == 'y',
        "yml"@[1] == 'm',
        "yml"@[2] == 'l',
        "zip"@.len() == 3,
        "zip"@[0] == 'z',
        "zip"@[1] == 'i',
        "zip"@[2] == 'p',
        "zip-compressed"@.len() == 14,
        "zip-compressed"@[0] == 'z',
        "zip-compressed"@[1] == 'i',
        "zip-compressed"@[2] == 'p',
        "zip-compressed"@[3] == '-',
        "zip-compressed"@[4] == 'c',
        "zip-compressed"@[5] == 'o',
        "zip-compressed"@[6] == 'm',
        "zip-compressed"@[7] == 'p',
        "zip-compressed"@[8] == 'r',
        "zip-compressed"@[9] == 'e',
        "zip-compressed"@[10] == 's',
        "zip-compressed"@[11] == 's',
        "zip-compressed"@[12] == 'e',
        "zip-compressed"@[13] == 'd',
        "x-zip-compressed"@.len() == 16,
        "x-zip-compressed"@[0] == 'x',
        "x-zip-compressed"@[1] == '-',
        "x-zip-compressed"@[2] == 'z',
        "x-zip-compressed"@[3] == 'i',
        "x-zip-compressed"@[4] == 'p',
        "x-zip-compressed"@[5] == '-',
        "x-zip-compressed"@[6] == 'c',
        "x-zip-compressed"@[7] == 'o',
        "x-zip-compressed"@[8] == 'm',
        "x-zip-compressed"@[9] == 'p',
        "x-zip-compressed"@[10] == 'r',
        "x-zip-compressed"@[11] == 'e',
        "x-zip-compressed"@[12] == 's',
        "x-zip-compressed"@[13] == 's',
        "x-zip-compressed"@[14] == 'e',
        "x-zip-compressed"@[15] == 'd',
        "*"@.len() == 1,
        "*"@[0] == '*',
{
    reveal_strlit("woff");
    reveal_strlit("woff2");
    reveal_strlit("xhtml+xml");
    reveal_strlit("xml");
    reveal_strlit("yaml");
    reveal_strlit("yml");
    reveal_strlit("zip");
    reveal_strlit("zip-compressed");
    reveal_strlit("x-zip-compressed");
    reveal_strlit("*");
}

/// The concrete characters of every subtype spelling in the registry.
proof fn lemma_sub_literal_values()
    ensures
        "ac3"@.len() == 3,
        "ac3"@[0] == 'a',
        "ac3"@[1] == 'c',
        "ac3"@[2] == '3',
        "acc"@.len() == 3,
        "acc"@[0] == 'a',
        "acc"@[1] == 'c',
        "acc"@[2] == 'c',
        "aiff"@.len() == 4,
        "aiff"@[0] == 'a',
        "aiff"@[1] == 'i',
        "aiff"@[2] == 'f',
        "aiff"@[3] == 'f',
        "x-aiff"@.len() == 6,
        "x-aiff"@[0] == 'x',
        "x-aiff"@[1] == '-',
        "x-aiff"@[2] == 'a',
        "x-aiff"@[3] == 'i',
        "x-aiff"@[4] == 'f',
        "x-aiff"@[5] == 'f',
        "atom+xml"@.len() == 8,
        "atom+xml"@[0] == 'a',
        "atom+xml"@[1] == 't',
        "atom+xml"@[2] == 'o',
        "atom+xml"@[3] == 'm',
        "atom+xml"@[4] == '+',
        "atom+xml"@[5] == 'x',
        "atom+xml"@[6] == 'm',
        "atom+xml"@[7] == 'l',
        "avif"@.len() == 4,
        "avif"@[0] == 'a',
        "avif"@[1] == 'v',
        "avif"@[2] == 'i',
        "avif"@[3] == 'f',
        "basic"@.len() == 5,
        "basic"@[0] == 'b',
        "basic"@[1] == 'a',
        "basic"@[2] == 's',
        "basic"@[3] == 'i',
        "basic"@[4] == 'c',
        "bmp"@.len() == 3,
        "bmp"@[0] == 'b',
        "bmp"@[1] == 'm',
        "bmp"@[2] == 'p',
        "bytesrange"@.len() == 10,
        "bytesrange"@[0] == 'b',
        "bytesrange"@[1] == 'y',
        "bytesrange"@[2] == 't',
        "bytesrange"@[3] == 'e',
        "bytesrange"@[4] == 's',
        "bytesrange"@[5] == 'r',
        "bytesrange"@[6] == 'a',
        "bytesrange"@[7] == 'n',
        "bytesrange"@[8] == 'g',
        "bytesrange"@[9] == 'e',
        "x-bzip"@.len() == 6,
        "x-bzip"@[0] == 'x',
        "x-bzip"@[1] == '-',
        "x-bzip"@[2] == 'b',
        "x-bzip"@[3] == 'z',
        "x-bzip"@[4] == 'i',
        "x-bzip"@[5] == 'p',
        "x-bzip2"@.len() == 7,
        "x-bzip2"@[0] == 'x',
        "x-bzip2"@[1] == '-',
        "x-bzip2"@[2] == 'b',
        "x-bzip2"@[3] == 'z',
        "x-bzip2"@[4] == 'i',
        "x-bzip2"@[5] == 'p',
        "x-bzip2"@[6] == '2',
        "calendar"@.len() == 8,
        "calendar"@[0] == 'c',
        "calendar"@[1] == 'a',
        "calendar"@[2] == 'l',
        "calendar"@[3] == 'e',
        "calendar"@[4] == 'n',
        "calendar"@[5] == 'd',
        "calendar"@[6] == 'a',
        "calendar"@[7] == 'r',
        "css"@.len() == 3,
        "css"@[0] == 'c',
        "css"@[1] == 's',
        "css"@[2] == 's',
        "csv"@.len() == 3,
        "csv"@[0] == 'c',
        "csv"@[1] == 's',
        "csv"@[2] == 'v',
        "digest"@.len() == 6,
        "digest"@[0] == 'd',
        "digest"@[1] == 'i',
        "digest"@[2] == 'g',
        "digest"@[3] == 'e',
        "digest"@[4] == 's',
        "digest"@[5] == 't',
        "dns"@.len() == 3,
        "dns"@[0] == 'd',
        "dns"@[1] == 'n',
        "dns"@[2] == 's',
        "dns+json"@.len() == 8,
        "dns+json"@[0] == 'd',
        "dns+json"@[1] == 'n',
        "dns+json"@[2] == 's',
        "dns+json"@[3] == '+',
        "dns+json"@[4] == 'j',
        "dns+json"@[5] == 's',
        "dns+json"@[6] == 'o',
        "dns+json"@[7] == 'n',
        "dns+message"@.len() == 11,
        "dns+message"@[0] == 'd',
        "dns+message"@[1] == 'n',
        "dns+message"@[2] == 's',
        "dns+message"@[3] == '+',
        "dns+message"@[4] == 'm',
        "dns+message"@[5] == 'e',
        "dns+message"@[6] == 's',
        "dns+message"@[7] == 's',
        "dns+message"@[8] == 'a',
        "dns+message"@[9] == 'g',
        "dns+message"@[10] == 'e',
        "encrypted"@.len() == 9,
        "encrypted"@[0] == 'e',
        "encrypted"@[1] == 'n',
        "encrypted"@[2] == 'c',
        "encrypted"@[3] == 'r',
        "encrypted"@[4] == 'y',
        "encrypted"@[5] == 'p',
        "encrypted"@[6] == 't',
        "encrypted"@[7] == 'e',
        "encrypted"@[8] == 'd',
        "epub+zip"@.len() == 8,
        "epub+zip"@[0] == 'e',
        "epub+zip"@[1] == 'p',
        "epub+zip"@[2] == 'u',
        "epub+zip"@[3] == 'b',
        "epub+zip"@[4] == '+',
        "epub+zip"@[5] == 'z',
        "epub+zip"@[6] == 'i',
        "epub+zip"@[7] == 'p',
        "example"@.len() == 7,
        "example"@[0] == 'e',
        "example"@[1] == 'x',
        "example"@[2] == 'a',
        "example"@[3] == 'm',
        "example"@[4] == 'p',
        "example"@[5] == 'l',
        "example"@[6] == 'e',
        "flac"@.len() == 4,
        "flac"@[0] == 'f',
        "flac"@[1] == 'l',
        "flac"@[2] == 'a',
        "flac"@[3] == 'c',
        "form-data"@.len() == 9,
        "form-data"@[0] == 'f',
        "form-data"@[1] == 'o',
        "form-data"@[2] == 'r',
        "form-data"@[3] == 'm',
        "form-data"@[4] == '-',
        "form-data"@[5] == 'd',
        "form-data"@[6] == 'a',
        "form-data"@[7] == 't',
        "form-data"@[8] == 'a',
        "gif"@.len() == 3,
        "gif"@[0] == 'g',
        "gif"@[1] == 'i',
        "gif"@[2] == 'f',
        "global"@.len() == 6,
        "global"@[0] == 'g',
        "global"@[1] == 'l',
        "global"@[2] == 'o',
        "global"@[3] == 'b',
        "global"@[4] == 'a',
        "global"@[5] == 'l',
        "gzip"@.len() == 4,
        "gzip"@[0] == 'g',
        "gzip"@[1] == 'z',
        "gzip"@[2] == 'i',
        "gzip"@[3] == 'p',
        "x-gzip"@.len() == 6,
        "x-gzip"@[0] == 'x',
        "x-gzip"@[1] == '-',
        "x-gzip"@[2] == 'g',
        "x-gzip"@[3] == 'z',
        "x-gzip"@[4] == 'i',
        "x-gzip"@[5] == 'p',
        "html"@.len() == 4,
        "html"@[0] == 'h',
        "html"@[1] == 't',
        "html"@[2] == 'm',
        "html"@[3] == 'l',
        "http"@.len() == 4,
        "http"@[0] == 'h',
        "http"@[1] == 't',
        "http"@[2] == 't',
        "http"@[3] == 'p',
        "x-icon"@.len() == 6,
        "x-icon"@[0] == 'x',
        "x-icon"@[1] == '-',
        "x-icon"@[2] == 'i',
        "x-icon"@[3] == 'c',
        "x-icon"@[4] == 'o',
        "x-icon"@[5] == 'n',
        "javascript"@.len() == 10,
        "javascript"@[0] == 'j',
        "javascript"@[1] == 'a',
        "javascript"@[2] == 'v',
        "javascript"@[3] == 'a',
        "javascript"@[4] == 's',
        "javascript"@[5] == 'c',
        "javascript"@[6] == 'r',
        "javascript"@[7] == 'i',
        "javascript"@[8] == 'p',
        "javascript"@[9] == 't',
        "ecmascript"@.len() == 10,
        "ecmascript"@[0] == 'e',
        "ecmascript"@[1] == 'c',
        "ecmascript"@[2] == 'm',
        "ecmascript"@[3] == 'a',
        "ecmascript"@[4] == 's',
        "ecmascript"@[5] == 'c',
        "ecmascript"@[6] == 'r',
        "ecmascript"@[7] == 'i',
        "ecmascript"@[8] == 'p',
        "ecmascript"@[9] == 't',
        "jpeg"@.len() == 4,
        "jpeg"@[0] == 'j',
        "jpeg"@[1] == 'p',
        "jpeg"@[2] == 'e',
        "jpeg"@[3] == 'g',
        "json"@.len() == 4,
        "json"@[0] == 'j',
        "json"@[1] == 's',
        "json"@[2] == 'o',
        "json"@[3] == 'n',
        "ld+json"@.len() == 7,
        "ld+json"@[0] == 'l',
        "ld+json"@[1] == 'd',
        "ld+json"@[2] == '+',
        "ld+json"@[3] == 'j',
        "ld+json"@[4] == 's',
        "ld+json"@[5] == 'o',
        "ld+json"@[6] == 'n',
        "markdown"@.len() == 8,
        "markdown"@[0] == 'm',
        "markdown"@[1] == 'a',
        "markdown"@[2] == 'r',
        "markdown"@[3] == 'k',
        "markdown"@[4] == 'd',
        "markdown"@[5] == 'o',
        "markdown"@[6] == 'w',
        "markdown"@[7] == 'n',
        "x-markdown"@.len() == 10,
        "x-markdown"@[0] == 'x',
        "x-markdown"@[1] == '-',
        "x-markdown"@[2] == 'm',
        "x-markdown"@[3] == 'a',
        "x-markdown"@[4] == 'r',
        "x-markdown"@[5] == 'k',
        "x-markdown"@[6] == 'd',
        "x-markdown"@[7] == 'o',
        "x-markdown"@[8] == 'w',
        "x-markdown"@[9] == 'n',
        "mathml"@.len() == 6,
        "mathml"@[0] == 'm',
        "mathml"@[1] == 'a',
        "mathml"@[2] == 't',
        "mathml"@[3] == 'h',
        "mathml"@[4] == 'm',
        "mathml"@[5] == 'l',
        "midi"@.len() == 4,
        "midi"@[0] == 'm',
        "midi"@[1] == 'i',
        "midi"@[2] == 'd',
        "midi"@[3] == 'i',
        "mp4"@.len() == 3,
        "mp4"@[0] == 'm',
        "mp4"@[1] == 'p',
        "mp4"@[2] == '4',
        "mpa"@.len() == 3,
        "mpa"@[0] == 'm',
        "mpa"@[1] == 'p',
        "mpa"@[2] == 'a',
        "mpeg"@.len() == 4,
        "mpeg"@[0] == 'm',
        "mpeg"@[1] == 'p',
        "mpeg"@[2] == 'e',
        "mpeg"@[3] == 'g',
        "msword"@.len() == 6,
        "msword"@[0] == 'm',
        "msword"@[1] == 's',
        "msword"@[2] == 'w',
        "msword"@[3] == 'o',
        "msword"@[4] == 'r',
        "msword"@[5] == 'd',
        "octet-stream"@.len() == 12,
        "octet-stream"@[0] == 'o',
        "octet-stream"@[1] == 'c',
        "octet-stream"@[2] == 't',
        "octet-stream"@[3] == 'e',
        "octet-stream"@[4] == 't',
        "octet-stream"@[5] == '-',
        "octet-stream"@[6] == 's',
        "octet-stream"@[7] == 't',
        "octet-stream"@[8] == 'r',
        "octet-stream"@[9] == 'e',
        "octet-stream"@[10] == 'a',
        "octet-stream"@[11] == 'm',
        "ogg"@.len() == 3,
        "ogg"@[0] == 'o',
        "ogg"@[1] == 'g',
        "ogg"@[2] == 'g',
        "opus"@.len() == 4,
        "opus"@[0] == 'o',
        "opus"@[1] == 'p',
        "opus"@[2] == 'u',
        "opus"@[3] == 's',
        "otf"@.len() == 3,
        "otf"@[0] == 'o',
        "otf"@[1] == 't',
        "otf"@[2] == 'f',
        "x-font-otf"@.len() == 10,
        "x-font-otf"@[0] == 'x',
        "x-font-otf"@[1] == '-',
        "x-font-otf"@[2] == 'f',
        "x-font-otf"@[3] == 'o',
        "x-font-otf"@[4] == 'n',
        "x-font-otf"@[5] == 't',
        "x-font-otf"@[6] == '-',
        "x-font-otf"@[7] == 'o',
        "x-font-otf"@[8] == 't',
        "x-font-otf"@[9] == 'f',
        "pdf"@.len() == 3,
        "pdf"@[0] == 'p',
        "pdf"@[1] == 'd',
        "pdf"@[2] == 'f',
        "plain"@.len() == 5,
        "plain"@[0] == 'p',
        "plain"@[1] == 'l',
        "plain"@[2] == 'a',
        "plain"@[3] == 'i',
        "plain"@[4] == 'n',
        "png"@.len() == 3,
        "png"@[0] == 'p',
        "png"@[1] == 'n',
        "png"@[2] == 'g',
        "richtext"@.len() == 8,
        "richtext"@[0] == 'r',
        "richtext"@[1] == 'i',
        "richtext"@[2] == 'c',
        "richtext"@[3] == 'h',
        "richtext"@[4] == 't',
        "richtext"@[5] == 'e',
        "richtext"@[6] == 'x',
        "richtext"@[7] == 't',
        "rss+xml"@.len() == 7,
        "rss+xml"@[0] == 'r',
        "rss+xml"@[1] == 's',
        "rss+xml"@[2] == 's',
        "rss+xml"@[3] == '+',
        "rss+xml"@[4] == 'x',
        "rss+xml"@[5] == 'm',
        "rss+xml"@[6] == 'l',
        "rtf"@.len() == 3,
        "rtf"@[0] == 'r',
        "rtf"@[1] == 't',
        "rtf"@[2] == 'f',
        "rtx"@.len() == 3,
        "rtx"@[0] == 'r',
        "rtx"@[1] == 't',
        "rtx"@[2] == 'x',
        "sgml"@.len() == 4,
        "sgml"@[0] == 's',
        "sgml"@[1] == 'g',
        "sgml"@[2] == 'm',
        "sgml"@[3] == 'l',
        "signed"@.len() == 6,
        "signed"@[0] == 's',
        "signed"@[1] == 'i',
        "signed"@[2] == 'g',
        "signed"@[3] == 'n',
        "signed"@[4] == 'e',
        "signed"@[5] == 'd',
        "sql"@.len() == 3,
        "sql"@[0] == 's',
        "sql"@[1] == 'q',
        "sql"@[2] == 'l',
        "svg"@.len() == 3,
        "svg"@[0] == 's',
        "svg"@[1] == 'v',
        "svg"@[2] == 'g',
        "svg+xml"@.len() == 7,
        "svg+xml"@[0] == 's',
        "svg+xml"@[1] == 'v',
        "svg+xml"@[2] == 'g',
        "svg+xml"@[3] == '+',
        "svg+xml"@[4] == 'x',
        "svg+xml"@[5] == 'm',
        "svg+xml"@[6] == 'l',
        "tiff"@.len() == 4,
        "tiff"@[0] == 't',
        "tiff"@[1] == 'i',
        "tiff"@[2] == 'f',
        "tiff"@[3] == 'f',
        "troff"@.len() == 5,
        "troff"@[0] == 't',
        "troff"@[1] == 'r',
        "troff"@[2] == 'o',
        "troff"@[3] == 'f',
        "troff"@[4] == 'f',
        "tab-separated-values"@.len() == 20,
        "tab-separated-values"@[0] == 't',
        "tab-separated-values"@[1] == 'a',
        "tab-separated-values"@[2] == 'b',
        "tab-separated-values"@[3] == '-',
        "tab-separated-values"@[4] == 's',
        "tab-separated-values"@[5] == 'e',
        "tab-separated-values"@[6] == 'p',
        "tab-separated-values"@[7] == 'a',
        "tab-separated-values"@[8] == 'r',
        "tab-separated-values"@[9] == 'a',
        "tab-separated-values"@[10] == 't',
        "tab-separated-values"@[11] == 'e',
        "tab-separated-values"@[12] == 'd',
        "tab-separated-values"@[13] == '-',
        "tab-separated-values"@[14] == 'v',
        "tab-separated-values"@[15] == 'a',
        "tab-separated-values"@[16] == 'l',
        "tab-separated-values"@[17] == 'u',
        "tab-separated-values"@[18] == 'e',
        "tab-separated-values"@[19] == 's',
        "ttf"@.len() == 3,
        "ttf"@[0] == 't',
        "ttf"@[1] == 't',
        "ttf"@[2] == 'f',
        "x-font-ttf"@.len() == 10,
        "x-font-ttf"@[0] == 'x',
        "x-font-ttf"@[1] == '-',
        "x-font-ttf"@[2] == 'f',
        "x-font-ttf"@[3] == 'o',
        "x-font-ttf"@[4] == 'n',
        "x-font-ttf"@[5] == 't',
        "x-font-ttf"@[6] == '-',
        "x-font-ttf"@[7] == 't',
        "x-font-ttf"@[8] == 't',
        "x-font-ttf"@[9] == 'f',
        "uri-list"@.len() == 8,
        "uri-list"@[0] == 'u',
        "uri-list"@[1] == 'r',
        "uri-list"@[2] == 'i',
        "uri-list"@[3] == '-',
        "uri-list"@[4] == 'l',
        "uri-list"@[5] == 'i',
        "uri-list"@[6] == 's',
        "uri-list"@[7] == 't',
        "x-www-form-urlencoded"@.len() == 21,
        "x-www-form-urlencoded"@[0] == 'x',
        "x-www-form-urlencoded"@[1] == '-',
        "x-www-form-urlencoded"@[2] == 'w',
        "x-www-form-urlencoded"@[3] == 'w',
        "x-www-form-urlencoded"@[4] == 'w',
        "x-www-form-urlencoded"@[5] == '-',
        "x-www-form-urlencoded"@[6] == 'f',
        "x-www-form-urlencoded"@[7] == 'o',
        "x-www-form-urlencoded"@[8] == 'r',
        "x-www-form-urlencoded"@[9] == 'm',
        "x-www-form-urlencoded"@[10] == '-',
        "x-www-form-urlencoded"@[11] == 'u',
        "x-www-form-urlencoded"@[12] == 'r',
        "x-www-form-urlencoded"@[13] == 'l',
        "x-www-form-urlencoded"@[14] == 'e',
        "x-www-form-urlencoded"@[15] == 'n',
        "x-www-form-urlencoded"@[16] == 'c',
        "x-www-form-urlencoded"@[17] == 'o',
        "x-www-form-urlencoded"@[18] == 'd',
        "x-www-form-urlencoded"@[19] == 'e',
        "x-www-form-urlencoded"@[20] == 'd',
        "wasm"@.len() == 4,
        "wasm"@[0] == 'w',
        "wasm"@[1] == 'a',
        "wasm"@[2] == 's',
        "wasm"@[3] == 'm',
        "webm"@.len() == 4,
        "webm"@[0] == 'w',
        "webm"@[1] == 'e',
        "webm"@[2] == 'b',
        "webm"@[3] == 'm',
        "webp"@.len() == 4,
        "webp"@[0] == 'w',
        "webp"@[1] == 'e',
        "webp"@[2] == 'b',
        "webp"@[3] == 'p',
        "woff"@.len() == 4,
        "woff"@[0] == 'w',
        "woff"@[1] == 'o',
        "woff"@[2] == 'f',
        "woff"@[3] == 'f',
        "woff2"@.len() == 5,
        "woff2"@[0] == 'w',
        "woff2"@[1] == 'o',
        "woff2"@[2] == 'f',
        "woff2"@[3] == 'f',
        "woff2"@[4] == '2',
        "xhtml+xml"@.len() == 9,
        "xhtml+xml"@[0] == 'x',
        "xhtml+xml"@[1] == 'h',
        "xhtml+xml"@[2] == 't',
        "xhtml+xml"@[3] == 'm',
        "xhtml+xml"@[4] == 'l',
        "xhtml+xml"@[5] == '+',
        "xhtml+xml"@[6] == 'x',
        "xhtml+xml"@[7] == 'm',
        "xhtml+xml"@[8] == 'l',
        "xml"@.len() == 3,
        "xml"@[0] == 'x',
        "xml"@[1] == 'm',
        "xml"@[2] == 'l',
        "yaml"@.len() == 4,
        "yaml"@[0] == 'y',
        "yaml"@[1] == 'a',
        "yaml"@[2] == 'm',
        "yaml"@[3] == 'l',
        "yml"@.len() == 3,
        "yml"@[0] == 'y',
        "yml"@[1] == 'm',
        "yml"@[2] == 'l',
        "zip"@.len() == 3,
        "zip"@[0] == 'z',
        "zip"@[1] == 'i',
        "zip"@[2] == 'p',
        "zip-compressed"@.len() == 14,
        "zip-compressed"@[0] == 'z',
        "zip-compressed"@[1] == 'i',
        "zip-compressed"@[2] == 'p',
        "zip-compressed"@[3] == '-',
        "zip-compressed"@[4] == 'c',
        "zip-compressed"@[5] == 'o',
        "zip-compressed"@[6] == 'm',
        "zip-compressed"@[7] == 'p',
        "zip-compressed"@[8] == 'r',
        "zip-compressed"@[9] == 'e',
        "zip-compressed"@[10] == 's',
        "zip-compressed"@[11] == 's',
        "zip-compressed"@[12] == 'e',
        "zip-compressed"@[13] == 'd',
        "x-zip-compressed"@.len() == 16,
        "x-zip-compressed"@[0] == 'x',
        "x-zip-compressed"@[1] == '-',
        "x-zip-compressed"@[2] == 'z',
        "x-zip-compressed"@[3] == 'i',
        "x-zip-compressed"@[4] == 'p',
        "x-zip-compressed"@[5] == '-',
        "x-zip-compressed"@[6] == 'c',
        "x-zip-compressed"@[7] == 'o',
        "x-zip-compressed"@[8] == 'm',
        "x-zip-compressed"@[9] == 'p',
        "x-zip-compressed"@[10] == 'r',
        "x-zip-compressed"@[11] == 'e',
        "x-zip-compressed"@[12] == 's',
        "x-zip-compressed"@[13] == 's',
        "x-zip-compressed"@[14] == 'e',
        "x-zip-compressed"@[15] == 'd',
        "*"@.len() == 1,
        "*"@[0] == '*',
{
    lemma_sub_literal_values_part1();
    lemma_sub_literal_values_part2();
    lemma_sub_literal_values_part3();
    lemma_sub_literal_values_part4();
    lemma_sub_literal_values_part5();
    lemma_sub_literal_values_part6();
}

/// No canonical type name holds a `/`.
proof fn lemma_type_name_no_slash(t: Type)
    ensures
        forall|j: int| 0 <= j < type_name_spec(t).len() ==> type_name_spec(t)[j] != '/',
{
    lemma_type_literal_values();
    reveal_strlit("");
}

/// Parsing the canonical spelling of a type gives the type back.
pub proof fn lemma_type_round_trip(t: Type)
    requires
        t != Type::Unknown,
        t != Type::Message,
    ensures
        type_from_spec(type_name_spec(t)) == t,
{
    lemma_type_literal_values();
}

#[verifier::spinoff_prover]
#[verifier::rlimit(60)]
proof fn lemma_sub_round_trip_part1(sub: SubType)
    requires
        sub == SubType::Ac3 || sub == SubType::Acc || sub == SubType::Aiff || sub == SubType::Atom,
    ensures
        sub_from_spec(sub_name_spec(sub)) == sub,
{
    lemma_sub_literal_values();
}

#[verifier::spinoff_prover]
#[verifier::rlimit(60)]
proof fn lemma_sub_round_trip_part2(sub: SubType)
    requires
        sub == SubType::Avif || sub == SubType::Basic || sub == SubType::Bmp || sub == SubType::BytesRange,
    ensures
        sub_from_spec(sub_name_spec(sub)) == sub,
{
    lemma_sub_literal_values();
}

#[verifier::spinoff_prover]
#[verifier::rlimit(60)]
proof fn lemma_sub_round_trip_part3(sub: SubType)
    requires
        sub == SubType::Bzip || sub == SubType::Bzip2 || sub == SubType::Calendar || sub == SubType::Css,
    ensures
        sub_from_spec(sub_name_spec(sub)) == sub,
{
    lemma_sub_literal_values();
}

#[verifier::spinoff_prover]
#[verifier::rlimit(60)]
proof fn lemma_sub_round_trip_part4(sub: SubType)
    requires
        sub == SubType::Csv || sub == SubType::Digest || sub == SubType::Dns || sub == SubType::DnsJson,
    ensures
        sub_from_spec(sub_name_spec(sub)) == sub,
{
    lemma_sub_literal_values();
}

#[verifier::spinoff_prover]
#[verifier::rlimit(60)]
proof fn lemma_sub_round_trip_part5(sub: SubType)
    requires
        sub == SubType::DnsMessage || sub == SubType::Encrypted || sub == SubType::Epub || sub == SubType::Example,
    ensures
        sub_from_spec(sub_name_spec(sub)) == sub,
{
    lemma_sub_literal_values();
}

#[verifier::spinoff_prover]
#[verifier::rlimit(60)]
proof fn lemma_sub_round_trip_part6(sub: SubType)
    requires
        sub == SubType::Flac || sub == SubType::FormData || sub == SubType::Gif || sub == SubType::Global,
    ensures
        sub_from_spec(sub_name_spec(sub)) == sub,
{
    lemma_sub_literal_values();
}

#[verifier::spinoff_prover]
#[verifier::rlimit(60)]
proof fn lemma_sub_round_trip_part7(sub: SubType)
    requires
        sub == SubType::Gzip || sub == SubType::Html || sub == SubType::Http || sub == SubType::Icon,
    ensures
        sub_from_spec(sub_name_spec(sub)) == sub,
{
    lemma_sub_literal_values();
}

#[verifier::spinoff_prover]
#[verifier::rlimit(60)]
proof fn lemma_sub_round_trip_part8(sub: SubType)
    requires
        sub == SubType::Javascript || sub == SubType::Jpeg || sub == SubType::Json || sub == SubType::Jsonld,
    ensures
        sub_from_spec(sub_name_spec(sub)) == sub,
{
    lemma_sub_literal_values();
}

#[verifier::spinoff_prover]
#[verifier::rlimit(60)]
proof fn lemma_sub_round_trip_part9(sub: SubType)
    requires
        sub == SubType::Markdown || sub == SubType::Mathml || sub == SubType::Midi || sub == SubType::Mp4,
    ensures
        sub_from_spec(sub_name_spec(sub)) == sub,
{
    lemma_sub_literal_values();
}

#[verifier::spinoff_prover]
#[verifier::rlimit(60)]
proof fn lemma_sub_round_trip_part10(sub: SubType)
    requires
        sub == SubType::Mpa || sub == SubType::Mpeg || sub == SubType::Msword || sub == SubType::OctetStream,
    ensures
        sub_from_spec(sub_name_spec(sub)) == sub,
{
    lemma_sub_literal_values();
}

#[verifier::spinoff_prover]
#[verifier::rlimit(60)]
proof fn lemma_sub_round_trip_part11(sub: SubType)
    requires
        sub == SubType::Ogg || sub == SubType::Opus || sub == SubType::Otf || sub == SubType::Pdf,
    ensures
        sub_from_spec(sub_name_spec(sub)) == sub,
{
    lemma_sub_literal_values();
}

#[verifier::spinoff_prover]
#[verifier::rlimit(60)]
proof fn lemma_sub_round_trip_part12(sub: SubType)
    requires
        sub == SubType::Plain || sub == SubType::Png || sub == SubType::RichText,
    ensures
        sub_from_spec(sub_name_spec(sub)) == sub,
{
    lemma_sub_literal_values();
}

#[verifier::spinoff_prover]
#[verifier::rlimit(60)]
proof fn lemma_sub_round_trip_part13(sub: SubType)
    requires
        sub == SubType::Rss || sub == SubType::Rtf || sub == SubType::Rtx || sub == SubType::Sgml,
    ensures
        sub_from_spec(sub_name_spec(sub)) == sub,
{
    lemma_sub_literal_values();
}

#[verifier::spinoff_prover]
#[verifier::rlimit(60)]
proof fn lemma_sub_round_trip_part14(sub: SubType)
    requires
        sub == SubType::Signed || sub == SubType::Sql || sub == SubType::Svg || sub == SubType::Tiff,
    ensures
        sub_from_spec(sub_name_spec(sub)) == sub,
{
    lemma_sub_literal_values();
}

#[verifier::spinoff_prover]
#[verifier::rlimit(60)]
proof fn lemma_sub_round_trip_part15(sub: SubType)
    requires
        sub == SubType::Troff || sub == SubType::Tsv || sub == SubType::Ttf || sub == SubType::UriList,
    ensures
        sub_from_spec(sub_name_spec(sub)) == sub,
{
    lemma_sub_literal_values();
}

#[verifier::spinoff_prover]
#[verifier::rlimit(60)]
proof fn lemma_sub_round_trip_part16(sub: SubType)
    requires
        sub == SubType::UrlEncoded || sub == SubType::Wasm || sub == SubType::Webm || sub == SubType::Webp,
    ensures
        sub_from_spec(sub_name_spec(sub)) == sub,
{
    lemma_sub_literal_values();
}

#[verifier::spinoff_prover]
#[verifier::rlimit(60)]
proof fn lemma_sub_round_trip_part17(sub: SubType)
    requires
        sub == SubType::Woff || sub == SubType::Woff2 || sub == SubType::Xhtml || sub == SubType::Xml,
    ensures
        sub_from_spec(sub_name_spec(sub)) == sub,
{
    lemma_sub_literal_values();
}

#[verifier::spinoff_prover]
#[verifier::rlimit(60)]
proof fn lemma_sub_round_trip_part18(sub: SubType)
    requires
        sub == SubType::Yaml || sub == SubType::Zip,
    ensures
        sub_from_spec(sub_name_spec(sub)) == sub,
{
    lemma_sub_literal_values();
}

/// Parsing the canonical spelling of a subtype gives the subtype back.
pub proof fn lemma_sub_round_trip(sub: SubType)
    requires
        sub != SubType::Unknown,
        sub != SubType::Raw,
    ensures
        sub_from_spec(sub_name_spec(sub)) == sub,
{
    if sub == SubType::Any {
        lemma_sub_literal_values();
    } else if sub == SubType::Ac3 || sub == SubType::Acc || sub == SubType::Aiff || sub == SubType::Atom {
        lemma_sub_round_trip_part1(sub);
    } else if sub == SubType::Avif || sub == SubType::Basic || sub == SubType::Bmp || sub == SubType::BytesRange {
        lemma_sub_round_trip_part2(sub);
    } else if sub == SubType::Bzip || sub == SubType::Bzip2 || sub == SubType::Calendar || sub == SubType::Css {
        lemma_sub_round_trip_part3(sub);
    } else if sub == SubType::Csv || sub == SubType::Digest || sub == SubType::Dns || sub == SubType::DnsJson {
        lemma_sub_round_trip_part4(sub);
    } else if sub == SubType::DnsMessage || sub == SubType::Encrypted || sub == SubType::Epub || sub == SubType::Example {
        lemma_sub_round_trip_part5(sub);
    } else if sub == SubType::Flac || sub == SubType::FormData || sub == SubType::Gif || sub == SubType::Global {
        lemma_sub_round_trip_part6(sub);
    } else if sub == SubType::Gzip || sub == SubType::Html || sub == SubType::Http || sub == SubType::Icon {
        lemma_sub_round_trip_part7(sub);
    } else if sub == SubType::Javascript || sub == SubType::Jpeg || sub == SubType::Json || sub == SubType::Jsonld {
        lemma_sub_round_trip_part8(sub);
    } else if sub == SubType::Markdown || sub == SubType::Mathml || sub == SubType::Midi || sub == SubType::Mp4 {
        lemma_sub_round_trip_part9(sub);
    } else if sub == SubType::Mpa || sub == SubType::Mpeg || sub == SubType::Msword || sub == SubType::OctetStream {
        lemma_sub_round_trip_part10(sub);
    } else if sub == SubType::Ogg || sub == SubType::Opus || sub == SubType::Otf || sub == SubType::Pdf {
        lemma_sub_round_trip_part11(sub);
    } else if sub == SubType::Plain || sub == SubType::Png || sub == SubType::RichText {
        lemma_sub_round_trip_part12(sub);
    } else if sub == SubType::Rss || sub == SubType::Rtf || sub == SubType::Rtx || sub == SubType::Sgml {
        lemma_sub_round_trip_part13(sub);
    } else if sub == SubType::Signed || sub == SubType::Sql || sub == SubType::Svg || sub == SubType::Tiff {
        lemma_sub_round_trip_part14(sub);
    } else if sub == SubType::Troff || sub == SubType::Tsv || sub == SubType::Ttf || sub == SubType::UriList {
        lemma_sub_round_trip_part15(sub);
    } else if sub == SubType::UrlEncoded || sub == SubType::Wasm || sub == SubType::Webm || sub == SubType::Webp {
        lemma_sub_round_trip_part16(sub);
    } else if sub == SubType::Woff || sub == SubType::Woff2 || sub == SubType::Xhtml || sub == SubType::Xml {
        lemma_sub_round_trip_part17(sub);
    } else if sub == SubType::Yaml || sub == SubType::Zip {
        lemma_sub_round_trip_part18(sub);
    }
}

/// Parsing the canonical spelling of a media type gives the value back,
/// for every value that parsing can produce.
pub proof fn lemma_mime_round_trip(m: Mime)
    requires
        m.typ != Type::Unknown,
        m.typ != Type::Message,
        m.sub != SubType::Unknown,
        m.sub != SubType::Raw,
    ensures
        mime_from_spec(mime_str_spec(m)) == m,
{
    let tn = type_name_spec(m.typ);
    let sn = sub_name_spec(m.sub);
    let full = mime_str_spec(m);
    lemma_type_name_no_slash(m.typ);
    assert(full[tn.len() as int] == '/');
    assert forall|j: int| 0 <= j < tn.len() implies full[j] != '/' by {
        assert(full[j] == tn[j]);
    }
    crate::strutil::lemma_first_index_unique(full, '/', tn.len() as int);
    assert(full.subrange(0, tn.len() as int) =~= tn);
    assert(full.subrange(tn.len() as int + 1, full.len() as int) =~= sn);
    lemma_type_round_trip(m.typ);
    lemma_sub_round_trip(m.sub);
}

/// Parsing a valid media string and re-emitting its media type yields a
/// media type that matches the string.
pub proof fn lemma_parse_emit_matches(s: Seq<char>)
    requires
        mime_valid_spec(mime_from_spec(s)),
    ensures
        mime_matches_spec(mime_from_spec(mime_str_spec(mime_from_spec(s))), mime_from_spec(s)),
{
    let m = mime_from_spec(s);
    crate::strutil::lemma_first_index(s, '/');
    assert(first_index(s, '/') < s.len());
    lemma_type_from_range(s.subrange(0, first_index(s, '/')));
    lemma_sub_from_range(s.subrange(first_index(s, '/') + 1, s.len() as int));
    lemma_mime_round_trip(m);
    lemma_self_match(m);
}

} // verus!
