//! Enumerated values of the configuration files, with their names in the
//! files.

use vstd::prelude::*;
use crate::text::{all_ascii, ascii_lower, is_ws, lowercase, lowercase_of, trim, trim_str};
use crate::tbl_laws::lemma_trim_plain;

verus! {

/// Text encoding of exported files.
#[derive(Clone, Copy, Debug, PartialEq, Eq, Structural, Hash)]
pub enum Encoding {
    Utf8,
    Utf8Bom,
    Utf16Le,
    Utf16Be,
    Gb2312,
    Gbk,
    Big5,
}

impl Encoding {
    /// Name of the value in configuration files.
    pub open spec fn spec_name(self) -> Seq<char> {
        match self {
            Encoding::Utf8 => "utf-8"@,
            Encoding::Utf8Bom => "utf-8-bom"@,
            Encoding::Utf16Le => "utf-16le"@,
            Encoding::Utf16Be => "utf-16be"@,
            Encoding::Gb2312 => "gb2312"@,
            Encoding::Gbk => "gbk"@,
            Encoding::Big5 => "big5"@,
        }
    }

    /// The value that the lower-cased, trimmed text `w` names.
    pub open spec fn spec_from_word(w: Seq<char>) -> Option<Encoding> {
        if w == "utf-8"@ || w == "utf8"@ {
            Some(Encoding::Utf8)
        } else if w == "utf-8-bom"@ || w == "utf8-bom"@ {
            Some(Encoding::Utf8Bom)
        } else if w == "utf-16le"@ || w == "utf16le"@ {
            Some(Encoding::Utf16Le)
        } else if w == "utf-16be"@ || w == "utf16be"@ {
            Some(Encoding::Utf16Be)
        } else if w == "gb2312"@ {
            Some(Encoding::Gb2312)
        } else if w == "gbk"@ {
            Some(Encoding::Gbk)
        } else if w == "big5"@ {
            Some(Encoding::Big5)
        } else {
            None
        }
    }

    /// Name of the value in configuration files.
    pub fn as_str(&self) -> (r: &'static str)
        ensures
            r@ == self.spec_name(),
    {
        match self {
            Encoding::Utf8 => "utf-8",
            Encoding::Utf8Bom => "utf-8-bom",
            Encoding::Utf16Le => "utf-16le",
            Encoding::Utf16Be => "utf-16be",
            Encoding::Gb2312 => "gb2312",
            Encoding::Gbk => "gbk",
            Encoding::Big5 => "big5",
        }
    }

    /// Reads a value from its name, ignoring surrounding white space and
    /// letter case; an unknown name is an error that quotes the text.
    pub fn parse_name(s: &str) -> (r: Result<Encoding, String>)
        ensures
            match r {
                Ok(v) => Self::spec_from_word(lowercase_of(trim(s@))) == Some(v),
                Err(e) => Self::spec_from_word(lowercase_of(trim(s@))) is None && e@ == "Unknown encoding: "@ + s@,
            },
            forall|e: Encoding| #[trigger] e.spec_name() == s@ ==> (r matches Ok(v) && v == e),
    {
        let t = trim_str(s);
        let w = lowercase(t.as_str());
        let ws = w.as_str();
        proof {
            lemma_encoding_name_reads_back(s@, t@, w@);
        }
        if crate::text::str_is(ws, "utf-8") || crate::text::str_is(ws, "utf8") {
            Ok(Encoding::Utf8)
        } else if crate::text::str_is(ws, "utf-8-bom") || crate::text::str_is(ws, "utf8-bom") {
            Ok(Encoding::Utf8Bom)
        } else if crate::text::str_is(ws, "utf-16le") || crate::text::str_is(ws, "utf16le") {
            Ok(Encoding::Utf16Le)
        } else if crate::text::str_is(ws, "utf-16be") || crate::text::str_is(ws, "utf16be") {
            Ok(Encoding::Utf16Be)
        } else if crate::text::str_is(ws, "gb2312") {
            Ok(Encoding::Gb2312)
        } else if crate::text::str_is(ws, "gbk") {
            Ok(Encoding::Gbk)
        } else if crate::text::str_is(ws, "big5") {
            Ok(Encoding::Big5)
        } else {
            Err(String::from_str("Unknown encoding: ").concat(s))
        }
    }
}

/// The name of each encoding, read as a word, gives that encoding back.
pub proof fn law_encoding_name_word(e: Encoding)
    ensures
        Encoding::spec_from_word(e.spec_name()) == Some(e),
{
    reveal_strlit("utf-8");
    reveal_strlit("utf8");
    reveal_strlit("utf-8-bom");
    reveal_strlit("utf8-bom");
    reveal_strlit("utf-16le");
    reveal_strlit("utf16le");
    reveal_strlit("utf-16be");
    reveal_strlit("utf16be");
    reveal_strlit("gb2312");
    reveal_strlit("gbk");
    reveal_strlit("big5");
    let s = e.spec_name();
    assert("utf-8"@.len() == 5 && "utf8"@.len() == 4 && "utf-8-bom"@.len() == 9 && "utf8-bom"@.len() == 8);
    assert("utf-16le"@.len() == 8 && "utf16le"@.len() == 7 && "utf-16be"@.len() == 8 && "utf16be"@.len() == 7);
    assert("gb2312"@.len() == 6 && "gbk"@.len() == 3 && "big5"@.len() == 4);
    match e {
        Encoding::Utf8 => {},
        Encoding::Utf8Bom => {
            assert(s == "utf-8-bom"@);
            assert(s.len() == 9);
            assert("utf-8"@.len() == 5);
            assert(s != "utf-8"@ && s != "utf8"@);
        },
        Encoding::Utf16Le => {
            assert(s == "utf-16le"@);
            assert(s != "utf-8"@ && s != "utf8"@ && s != "utf-8-bom"@);
            assert(s[3] != "utf8-bom"@[3]);
        },
        Encoding::Utf16Be => {
            assert(s == "utf-16be"@);
            assert(s != "utf-8"@ && s != "utf8"@ && s != "utf-8-bom"@);
            assert(s[3] != "utf8-bom"@[3]);
            assert(s[6] != "utf-16le"@[6]);
            assert(s != "utf16le"@);
        },
        Encoding::Gb2312 => {
            assert(s == "gb2312"@);
            assert(s != "utf-8"@ && s != "utf8"@ && s != "utf-8-bom"@ && s != "utf8-bom"@);
            assert(s != "utf-16le"@ && s != "utf16le"@ && s != "utf-16be"@ && s != "utf16be"@);
        },
        Encoding::Gbk => {
            assert(s == "gbk"@);
            assert(s != "utf-8"@ && s != "utf8"@ && s != "utf-8-bom"@ && s != "utf8-bom"@);
            assert(s != "utf-16le"@ && s != "utf16le"@ && s != "utf-16be"@ && s != "utf16be"@);
            assert(s != "gb2312"@);
        },
        Encoding::Big5 => {
            assert(s == "big5"@);
            assert(s[0] != "utf8"@[0]);
            assert(s != "utf-8"@ && s != "utf-8-bom"@ && s != "utf8-bom"@);
            assert(s != "utf-16le"@ && s != "utf16le"@ && s != "utf-16be"@ && s != "utf16be"@);
            assert(s != "gb2312"@ && s != "gbk"@);
        },
    }
}

/// Distinct encodings have distinct names.
pub proof fn law_encoding_names_distinct(a: Encoding, b: Encoding)
    ensures
        a != b ==> a.spec_name() != b.spec_name(),
{
    law_encoding_name_word(a);
    law_encoding_name_word(b);
}

/// A name of an encoding is trimmed, ASCII and lower-case, and names that
/// encoding alone.
proof fn lemma_encoding_name_reads_back(s: Seq<char>, t: Seq<char>, w: Seq<char>)
    requires
        t == trim(s),
        all_ascii(t) ==> w == t.map_values(|c: char| ascii_lower(c)),
    ensures
        forall|e: Encoding| #[trigger] e.spec_name() == s ==> Encoding::spec_from_word(w) == Some(e),
{
    reveal_strlit("utf-8");
    reveal_strlit("utf8");
    reveal_strlit("utf-8-bom");
    reveal_strlit("utf8-bom");
    reveal_strlit("utf-16le");
    reveal_strlit("utf16le");
    reveal_strlit("utf-16be");
    reveal_strlit("utf16be");
    reveal_strlit("gb2312");
    reveal_strlit("gbk");
    reveal_strlit("big5");
    assert forall|e: Encoding| #[trigger] e.spec_name() == s implies Encoding::spec_from_word(w) == Some(e) by {
        assert forall|i: int| 0 <= i < s.len() implies !is_ws(#[trigger] s[i]) && (s[i] as u32) < 128 && !(
        'A' <= s[i] && s[i] <= 'Z') by {}
        lemma_trim_plain(s);
        assert(w =~= s);
        law_encoding_name_word(e);
    }
}

impl Default for Encoding {
    fn default() -> (r: Self)
        ensures
            r == Encoding::Utf8,
    {
        Encoding::Utf8
    }
}

impl std::str::FromStr for Encoding {
    type Err = String;

    fn from_str(s: &str) -> Result<Self, Self::Err> {
        Encoding::parse_name(s)
    }
}

/// Line ending of exported files.
#[derive(Clone, Copy, Debug, PartialEq, Eq, Structural, Hash)]
pub enum LineEnding {
    Lf,
    CrLf,
    Cr,
}

impl LineEnding {
    /// Name of the value in configuration files.
    pub open spec fn spec_name(self) -> Seq<char> {
        match self {
            LineEnding::Lf => "lf"@,
            LineEnding::CrLf => "crlf"@,
            LineEnding::Cr => "cr"@,
        }
    }

    /// The value that the lower-cased, trimmed text `w` names.
    pub open spec fn spec_from_word(w: Seq<char>) -> Option<LineEnding> {
        if w == "lf"@ || w == "\n"@ {
            Some(LineEnding::Lf)
        } else if w == "crlf"@ || w == "\r\n"@ {
            Some(LineEnding::CrLf)
        } else if w == "cr"@ || w == "\r"@ {
            Some(LineEnding::Cr)
        } else {
            None
        }
    }

    /// Name of the value in configuration files.
    pub fn as_str(&self) -> (r: &'static str)
        ensures
            r@ == self.spec_name(),
    {
        match self {
            LineEnding::Lf => "lf",
            LineEnding::CrLf => "crlf",
            LineEnding::Cr => "cr",
        }
    }

    /// Reads a value from its name, ignoring surrounding white space and
    /// letter case; an unknown name is an error that quotes the text.
    pub fn parse_name(s: &str) -> (r: Result<LineEnding, String>)
        ensures
            match r {
                Ok(v) => Self::spec_from_word(lowercase_of(trim(s@))) == Some(v),
                Err(e) => Self::spec_from_word(lowercase_of(trim(s@))) is None && e@ == "Unknown line ending: "@ + s@,
            },
    {
        let t = trim_str(s);
        let w = lowercase(t.as_str());
        let ws = w.as_str();
        if crate::text::str_is(ws, "lf") || crate::text::str_is(ws, "\n") {
            Ok(LineEnding::Lf)
        } else if crate::text::str_is(ws, "crlf") || crate::text::str_is(ws, "\r\n") {
            Ok(LineEnding::CrLf)
        } else if crate::text::str_is(ws, "cr") || crate::text::str_is(ws, "\r") {
            Ok(LineEnding::Cr)
        } else {
            Err(String::from_str("Unknown line ending: ").concat(s))
        }
    }
}

impl Default for LineEnding {
    fn default() -> (r: Self)
        ensures
            r == LineEnding::Lf,
    {
        LineEnding::Lf
    }
}

impl std::str::FromStr for LineEnding {
    type Err = String;

    fn from_str(s: &str) -> Result<Self, Self::Err> {
        LineEnding::parse_name(s)
    }
}

/// How an empty cell is written in JSON.
#[derive(Clone, Copy, Debug, PartialEq, Eq, Structural, Hash)]
pub enum JsonEmptyAs {
    Null,
    Omit,
}

impl JsonEmptyAs {
    /// Name of the value in configuration files.
    pub open spec fn spec_name(self) -> Seq<char> {
        match self {
            JsonEmptyAs::Null => "null"@,
            JsonEmptyAs::Omit => "omit"@,
        }
    }

    /// The value that the lower-cased, trimmed text `w` names.
    pub open spec fn spec_from_word(w: Seq<char>) -> Option<JsonEmptyAs> {
        if w == "null"@ {
            Some(JsonEmptyAs::Null)
        } else if w == "omit"@ {
            Some(JsonEmptyAs::Omit)
        } else {
            None
        }
    }

    /// Name of the value in configuration files.
    pub fn as_str(&self) -> (r: &'static str)
        ensures
            r@ == self.spec_name(),
    {
        match self {
            JsonEmptyAs::Null => "null",
            JsonEmptyAs::Omit => "omit",
        }
    }

    /// Reads a value from its name, ignoring surrounding white space and
    /// letter case; an unknown name is an error that quotes the text.
    pub fn parse_name(s: &str) -> (r: Result<JsonEmptyAs, String>)
        ensures
            match r {
                Ok(v) => Self::spec_from_word(lowercase_of(trim(s@))) == Some(v),
                Err(e) => Self::spec_from_word(lowercase_of(trim(s@))) is None && e@ == "Unknown JSON empty_as value: "@ + s@,
            },
    {
        let t = trim_str(s);
        let w = lowercase(t.as_str());
        let ws = w.as_str();
        if crate::text::str_is(ws, "null") {
            Ok(JsonEmptyAs::Null)
        } else if crate::text::str_is(ws, "omit") {
            Ok(JsonEmptyAs::Omit)
        } else {
            Err(String::from_str("Unknown JSON empty_as value: ").concat(s))
        }
    }
}

impl Default for JsonEmptyAs {
    fn default() -> (r: Self)
        ensures
            r == JsonEmptyAs::Null,
    {
        JsonEmptyAs::Null
    }
}

impl std::str::FromStr for JsonEmptyAs {
    type Err = String;

    fn from_str(s: &str) -> Result<Self, Self::Err> {
        JsonEmptyAs::parse_name(s)
    }
}

/// How an empty cell is written in XML.
#[derive(Clone, Copy, Debug, PartialEq, Eq, Structural, Hash)]
pub enum XmlEmptyAs {
    Empty,
    Omit,
}

impl XmlEmptyAs {
    /// Name of the value in configuration files.
    pub open spec fn spec_name(self) -> Seq<char> {
        match self {
            XmlEmptyAs::Empty => "empty"@,
            XmlEmptyAs::Omit => "omit"@,
        }
    }

    /// The value that the lower-cased, trimmed text `w` names.
    pub open spec fn spec_from_word(w: Seq<char>) -> Option<XmlEmptyAs> {
        if w == "empty"@ {
            Some(XmlEmptyAs::Empty)
        } else if w == "omit"@ {
            Some(XmlEmptyAs::Omit)
        } else {
            None
        }
    }

    /// Name of the value in configuration files.
    pub fn as_str(&self) -> (r: &'static str)
        ensures
            r@ == self.spec_name(),
    {
        match self {
            XmlEmptyAs::Empty => "empty",
            XmlEmptyAs::Omit => "omit",
        }
    }

    /// Reads a value from its name, ignoring surrounding white space and
    /// letter case; an unknown name is an error that quotes the text.
    pub fn parse_name(s: &str) -> (r: Result<XmlEmptyAs, String>)
        ensures
            match r {
                Ok(v) => Self::spec_from_word(lowercase_of(trim(s@))) == Some(v),
                Err(e) => Self::spec_from_word(lowercase_of(trim(s@))) is None && e@ == "Unknown XML empty_as value: "@ + s@,
            },
    {
        let t = trim_str(s);
        let w = lowercase(t.as_str());
        let ws = w.as_str();
        if crate::text::str_is(ws, "empty") {
            Ok(XmlEmptyAs::Empty)
        } else if crate::text::str_is(ws, "omit") {
            Ok(XmlEmptyAs::Omit)
        } else {
            Err(String::from_str("Unknown XML empty_as value: ").concat(s))
        }
    }
}

impl Default for XmlEmptyAs {
    fn default() -> (r: Self)
        ensures
            r == XmlEmptyAs::Empty,
    {
        XmlEmptyAs::Empty
    }
}

impl std::str::FromStr for XmlEmptyAs {
    type Err = String;

    fn from_str(s: &str) -> Result<Self, Self::Err> {
        XmlEmptyAs::parse_name(s)
    }
}

/// Log level of the application.
#[derive(Clone, Copy, Debug, PartialEq, Eq, Structural, Hash)]
pub enum LogLevel {
    Trace,
    Debug,
    Info,
    Warn,
    Error,
}

impl LogLevel {
    /// Name of the value in configuration files.
    pub open spec fn spec_name(self) -> Seq<char> {
        match self {
            LogLevel::Trace => "trace"@,
            LogLevel::Debug => "debug"@,
            LogLevel::Info => "info"@,
            LogLevel::Warn => "warn"@,
            LogLevel::Error => "error"@,
        }
    }

    /// The value that the lower-cased, trimmed text `w` names.
    pub open spec fn spec_from_word(w: Seq<char>) -> Option<LogLevel> {
        if w == "trace"@ {
            Some(LogLevel::Trace)
        } else if w == "debug"@ {
            Some(LogLevel::Debug)
        } else if w == "info"@ {
            Some(LogLevel::Info)
        } else if w == "warn"@ {
            Some(LogLevel::Warn)
        } else if w == "error"@ {
            Some(LogLevel::Error)
        } else {
            None
        }
    }

    /// Name of the value in configuration files.
    pub fn as_str(&self) -> (r: &'static str)
        ensures
            r@ == self.spec_name(),
    {
        match self {
            LogLevel::Trace => "trace",
            LogLevel::Debug => "debug",
            LogLevel::Info => "info",
            LogLevel::Warn => "warn",
            LogLevel::Error => "error",
        }
    }

    /// Reads a value from its name, ignoring surrounding white space and
    /// letter case; an unknown name is an error that quotes the text.
    pub fn parse_name(s: &str) -> (r: Result<LogLevel, String>)
        ensures
            match r {
                Ok(v) => Self::spec_from_word(lowercase_of(trim(s@))) == Some(v),
                Err(e) => Self::spec_from_word(lowercase_of(trim(s@))) is None && e@ == "Unknown log level: "@ + s@,
            },
    {
        let t = trim_str(s);
        let w = lowercase(t.as_str());
        let ws = w.as_str();
        if crate::text::str_is(ws, "trace") {
            Ok(LogLevel::Trace)
        } else if crate::text::str_is(ws, "debug") {
            Ok(LogLevel::Debug)
        } else if crate::text::str_is(ws, "info") {
            Ok(LogLevel::Info)
        } else if crate::text::str_is(ws, "warn") {
            Ok(LogLevel::Warn)
        } else if crate::text::str_is(ws, "error") {
            Ok(LogLevel::Error)
        } else {
            Err(String::from_str("Unknown log level: ").concat(s))
        }
    }
}

impl Default for LogLevel {
    fn default() -> (r: Self)
        ensures
            r == LogLevel::Info,
    {
        LogLevel::Info
    }
}

impl std::str::FromStr for LogLevel {
    type Err = String;

    fn from_str(s: &str) -> Result<Self, Self::Err> {
        LogLevel::parse_name(s)
    }
}

/// How a picker cell opens its picker: single or double click.
#[derive(Clone, Copy, Debug, PartialEq, Eq, Structural, Hash)]
pub enum PickerTrigger {
    Single,
    Double,
}

impl PickerTrigger {
    /// Name of the value in configuration files.
    pub open spec fn spec_name(self) -> Seq<char> {
        match self {
            PickerTrigger::Single => "single"@,
            PickerTrigger::Double => "double"@,
        }
    }

    /// The value that the lower-cased, trimmed text `w` names.
    pub open spec fn spec_from_word(w: Seq<char>) -> Option<PickerTrigger> {
        if w == "single"@ {
            Some(PickerTrigger::Single)
        } else if w == "double"@ {
            Some(PickerTrigger::Double)
        } else {
            None
        }
    }

    /// Name of the value in configuration files.
    pub fn as_str(&self) -> (r: &'static str)
        ensures
            r@ == self.spec_name(),
    {
        match self {
            PickerTrigger::Single => "single",
            PickerTrigger::Double => "double",
        }
    }

    /// Reads a value from its name, ignoring surrounding white space and
    /// letter case; an unknown name is an error that quotes the text.
    pub fn parse_name(s: &str) -> (r: Result<PickerTrigger, String>)
        ensures
            match r {
                Ok(v) => Self::spec_from_word(lowercase_of(trim(s@))) == Some(v),
                Err(e) => Self::spec_from_word(lowercase_of(trim(s@))) is None && e@ == "Unknown picker trigger: "@ + s@,
            },
    {
        let t = trim_str(s);
        let w = lowercase(t.as_str());
        let ws = w.as_str();
        if crate::text::str_is(ws, "single") {
            Ok(PickerTrigger::Single)
        } else if crate::text::str_is(ws, "double") {
            Ok(PickerTrigger::Double)
        } else {
            Err(String::from_str("Unknown picker trigger: ").concat(s))
        }
    }
}

impl Default for PickerTrigger {
    fn default() -> (r: Self)
        ensures
            r == PickerTrigger::Double,
    {
        PickerTrigger::Double
    }
}

impl std::str::FromStr for PickerTrigger {
    type Err = String;

    fn from_str(s: &str) -> Result<Self, Self::Err> {
        PickerTrigger::parse_name(s)
    }
}

/// Which columns the reference picker shows.
#[derive(Clone, Copy, Debug, PartialEq, Eq, Structural, Hash)]
pub enum RefPickerStrategy {
    Auto,
    Full,
}

impl RefPickerStrategy {
    /// Name of the value in configuration files.
    pub open spec fn spec_name(self) -> Seq<char> {
        match self {
            RefPickerStrategy::Auto => "auto"@,
            RefPickerStrategy::Full => "full"@,
        }
    }

    /// The value that the lower-cased, trimmed text `w` names.
    pub open spec fn spec_from_word(w: Seq<char>) -> Option<RefPickerStrategy> {
        if w == "auto"@ {
            Some(RefPickerStrategy::Auto)
        } else if w == "full"@ {
            Some(RefPickerStrategy::Full)
        } else {
            None
        }
    }

    /// Name of the value in configuration files.
    pub fn as_str(&self) -> (r: &'static str)
        ensures
            r@ == self.spec_name(),
    {
        match self {
            RefPickerStrategy::Auto => "auto",
            RefPickerStrategy::Full => "full",
        }
    }

    /// Reads a value from its name, ignoring surrounding white space and
    /// letter case; an unknown name is an error that quotes the text.
    pub fn parse_name(s: &str) -> (r: Result<RefPickerStrategy, String>)
        ensures
            match r {
                Ok(v) => Self::spec_from_word(lowercase_of(trim(s@))) == Some(v),
                Err(e) => Self::spec_from_word(lowercase_of(trim(s@))) is None && e@ == "Unknown ref picker strategy: "@ + s@,
            },
    {
        let t = trim_str(s);
        let w = lowercase(t.as_str());
        let ws = w.as_str();
        if crate::text::str_is(ws, "auto") {
            Ok(RefPickerStrategy::Auto)
        } else if crate::text::str_is(ws, "full") {
            Ok(RefPickerStrategy::Full)
        } else {
            Err(String::from_str("Unknown ref picker strategy: ").concat(s))
        }
    }
}

impl Default for RefPickerStrategy {
    fn default() -> (r: Self)
        ensures
            r == RefPickerStrategy::Auto,
    {
        RefPickerStrategy::Auto
    }
}

impl std::str::FromStr for RefPickerStrategy {
    type Err = String;

    fn from_str(s: &str) -> Result<Self, Self::Err> {
        RefPickerStrategy::parse_name(s)
    }
}

/// JSON library of the generated C++ code.
#[derive(Clone, Copy, Debug, PartialEq, Eq, Structural, Hash)]
pub enum CppJsonLib {
    Nlohmann,
    RapidJson,
}

impl CppJsonLib {
    /// Name of the value in configuration files.
    pub open spec fn spec_name(self) -> Seq<char> {
        match self {
            CppJsonLib::Nlohmann => "nlohmann"@,
            CppJsonLib::RapidJson => "rapidjson"@,
        }
    }

    /// The value that the lower-cased, trimmed text `w` names.
    pub open spec fn spec_from_word(w: Seq<char>) -> Option<CppJsonLib> {
        if w == "nlohmann"@ {
            Some(CppJsonLib::Nlohmann)
        } else if w == "rapidjson"@ || w == "rapid"@ {
            Some(CppJsonLib::RapidJson)
        } else {
            None
        }
    }

    /// Name of the value in configuration files.
    pub fn as_str(&self) -> (r: &'static str)
        ensures
            r@ == self.spec_name(),
    {
        match self {
            CppJsonLib::Nlohmann => "nlohmann",
            CppJsonLib::RapidJson => "rapidjson",
        }
    }

    /// Reads a value from its name, ignoring surrounding white space and
    /// letter case; an unknown name is an error that quotes the text.
    pub fn parse_name(s: &str) -> (r: Result<CppJsonLib, String>)
        ensures
            match r {
                Ok(v) => Self::spec_from_word(lowercase_of(trim(s@))) == Some(v),
                Err(e) => Self::spec_from_word(lowercase_of(trim(s@))) is None && e@ == "Unknown C++ JSON library: "@ + s@,
            },
    {
        let t = trim_str(s);
        let w = lowercase(t.as_str());
        let ws = w.as_str();
        if crate::text::str_is(ws, "nlohmann") {
            Ok(CppJsonLib::Nlohmann)
        } else if crate::text::str_is(ws, "rapidjson") || crate::text::str_is(ws, "rapid") {
            Ok(CppJsonLib::RapidJson)
        } else {
            Err(String::from_str("Unknown C++ JSON library: ").concat(s))
        }
    }
}

impl Default for CppJsonLib {
    fn default() -> (r: Self)
        ensures
            r == CppJsonLib::Nlohmann,
    {
        CppJsonLib::Nlohmann
    }
}

impl std::str::FromStr for CppJsonLib {
    type Err = String;

    fn from_str(s: &str) -> Result<Self, Self::Err> {
        CppJsonLib::parse_name(s)
    }
}

/// Order of the project list.
#[derive(Clone, Copy, Debug, PartialEq, Eq, Structural, Hash)]
pub enum ProjectSort {
    Id,
    Name,
    Open,
    Created,
    Manual,
}

impl ProjectSort {
    /// Name of the value in configuration files.
    pub open spec fn spec_name(self) -> Seq<char> {
        match self {
            ProjectSort::Id => "id"@,
            ProjectSort::Name => "name"@,
            ProjectSort::Open => "open"@,
            ProjectSort::Created => "created"@,
            ProjectSort::Manual => "manual"@,
        }
    }

    /// The value that the lower-cased, trimmed text `w` names.
    pub open spec fn spec_from_word(w: Seq<char>) -> Option<ProjectSort> {
        if w == "id"@ {
            Some(ProjectSort::Id)
        } else if w == "name"@ {
            Some(ProjectSort::Name)
        } else if w == "open"@ {
            Some(ProjectSort::Open)
        } else if w == "created"@ {
            Some(ProjectSort::Created)
        } else if w == "manual"@ {
            Some(ProjectSort::Manual)
        } else {
            None
        }
    }

    /// Name of the value in configuration files.
    pub fn as_str(&self) -> (r: &'static str)
        ensures
            r@ == self.spec_name(),
    {
        match self {
            ProjectSort::Id => "id",
            ProjectSort::Name => "name",
            ProjectSort::Open => "open",
            ProjectSort::Created => "created",
            ProjectSort::Manual => "manual",
        }
    }

    /// Reads a value from its name, ignoring surrounding white space and
    /// letter case; an unknown name is an error that quotes the text.
    pub fn parse_name(s: &str) -> (r: Result<ProjectSort, String>)
        ensures
            match r {
                Ok(v) => Self::spec_from_word(lowercase_of(trim(s@))) == Some(v),
                Err(e) => Self::spec_from_word(lowercase_of(trim(s@))) is None && e@ == "Unknown project sort: "@ + s@,
            },
    {
        let t = trim_str(s);
        let w = lowercase(t.as_str());
        let ws = w.as_str();
        if crate::text::str_is(ws, "id") {
            Ok(ProjectSort::Id)
        } else if crate::text::str_is(ws, "name") {
            Ok(ProjectSort::Name)
        } else if crate::text::str_is(ws, "open") {
            Ok(ProjectSort::Open)
        } else if crate::text::str_is(ws, "created") {
            Ok(ProjectSort::Created)
        } else if crate::text::str_is(ws, "manual") {
            Ok(ProjectSort::Manual)
        } else {
            Err(String::from_str("Unknown project sort: ").concat(s))
        }
    }
}

impl Default for ProjectSort {
    fn default() -> (r: Self)
        ensures
            r == ProjectSort::Id,
    {
        ProjectSort::Id
    }
}

impl std::str::FromStr for ProjectSort {
    type Err = String;

    fn from_str(s: &str) -> Result<Self, Self::Err> {
        ProjectSort::parse_name(s)
    }
}

/// Module system of the generated TypeScript code.
#[derive(Clone, Copy, Debug, PartialEq, Eq, Structural, Hash)]
pub enum ModuleKind {
    Esm,
    CommonJs,
}

impl ModuleKind {
    /// Name of the value in configuration files.
    pub open spec fn spec_name(self) -> Seq<char> {
        match self {
            ModuleKind::Esm => "esm"@,
            ModuleKind::CommonJs => "commonjs"@,
        }
    }

    /// The value that the lower-cased, trimmed text `w` names.
    pub open spec fn spec_from_word(w: Seq<char>) -> Option<ModuleKind> {
        if w == "esm"@ {
            Some(ModuleKind::Esm)
        } else if w == "commonjs"@ {
            Some(ModuleKind::CommonJs)
        } else {
            None
        }
    }

    /// Name of the value in configuration files.
    pub fn as_str(&self) -> (r: &'static str)
        ensures
            r@ == self.spec_name(),
    {
        match self {
            ModuleKind::Esm => "esm",
            ModuleKind::CommonJs => "commonjs",
        }
    }

    /// Reads a value from its name, ignoring surrounding white space and
    /// letter case; an unknown name is an error that quotes the text.
    pub fn parse_name(s: &str) -> (r: Result<ModuleKind, String>)
        ensures
            match r {
                Ok(v) => Self::spec_from_word(lowercase_of(trim(s@))) == Some(v),
                Err(e) => Self::spec_from_word(lowercase_of(trim(s@))) is None && e@ == "Unknown module kind: "@ + s@,
            },
    {
        let t = trim_str(s);
        let w = lowercase(t.as_str());
        let ws = w.as_str();
        if crate::text::str_is(ws, "esm") {
            Ok(ModuleKind::Esm)
        } else if crate::text::str_is(ws, "commonjs") {
            Ok(ModuleKind::CommonJs)
        } else {
            Err(String::from_str("Unknown module kind: ").concat(s))
        }
    }
}

impl Default for ModuleKind {
    fn default() -> (r: Self)
        ensures
            r == ModuleKind::Esm,
    {
        ModuleKind::Esm
    }
}

impl std::str::FromStr for ModuleKind {
    type Err = String;

    fn from_str(s: &str) -> Result<Self, Self::Err> {
        ModuleKind::parse_name(s)
    }
}

impl LineEnding {
    /// The characters that end a line.
    pub open spec fn spec_bytes(self) -> Seq<u8> {
        match self {
            LineEnding::Lf => seq![10u8],
            LineEnding::CrLf => seq![13u8, 10u8],
            LineEnding::Cr => seq![13u8],
        }
    }

    /// The bytes that end a line.
    pub fn as_bytes(&self) -> (r: Vec<u8>)
        ensures
            r@ == self.spec_bytes(),
    {
        let r = match self {
            LineEnding::Lf => vec![10u8],
            LineEnding::CrLf => vec![13u8, 10u8],
            LineEnding::Cr => vec![13u8],
        };
        assert(r@ =~= self.spec_bytes());
        r
    }
}

} // verus!
